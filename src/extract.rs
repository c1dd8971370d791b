//! Turning a page outline into a calendar: week years, start dates, day
//! columns and the text of each event cell.

use vstd::prelude::*;

use crate::dates::{add_days, clock_reading, date_from_ymd, date_plus, parse_clock, valid_ymd};
use crate::model::{
    Calendar, CalendarView, Date, Event, EventView, ExtractionFailure, Part,
};
use crate::numbers::{parse_i32, parse_u32, parse_u64, signed_value, unsigned_value, within};
use crate::outline::{cells_view, rows_view, texts_view, weeks_view, Cell, CellView, PageOutline, PageView, Week, WeekView};
use crate::text::{
    before_first, chars_of, extend_chars, replace_all, replace_seq, same_chars,
    second_piece, split_once, starts, starts_with_chars, string_of, strip_end, strip_end_chars,
    trim, trim_chars,
};

verus! {

/// `names`, each without its trailing commas, joined by `", "`.
pub open spec fn joined_names(names: Seq<Seq<char>>) -> Seq<char>
    decreases names.len(),
{
    if names.len() == 0 {
        Seq::empty()
    } else if names.len() == 1 {
        strip_end(names[0], ',')
    } else {
        joined_names(names.drop_last()) + ", "@ + strip_end(names.last(), ',')
    }
}

/// The organizer of a cell: its persons joined, or none if it lists none.
pub open spec fn organizer_of(persons: Seq<Seq<char>>) -> Option<Seq<char>> {
    if persons.len() == 0 {
        None
    } else {
        Some(joined_names(persons))
    }
}

/// The location of a cell: its second resource span, if it has one.
pub open spec fn location_of(resources: Seq<Seq<char>>) -> Option<Seq<char>> {
    if resources.len() > 1 {
        Some(resources[1])
    } else {
        None
    }
}

/// The event that an event cell describes, on the given date.
pub open spec fn event_details(c: CellView, date: Date) -> Result<EventView, ExtractionFailure> {
    match c.link {
        None => Err(ExtractionFailure::MissingAnchor(Part::EventLink)),
        Some(link) => {
            let times = before_first(link, "<br>"@);
            match second_piece(link, "<br>"@) {
                None => Err(ExtractionFailure::IncompleteDetail(Part::DetailLines)),
                Some(title) => match second_piece(times, "&nbsp;-"@) {
                    None => Err(ExtractionFailure::MissingAnchor(Part::TimeRange)),
                    Some(end_text) => match clock_reading(before_first(times, "&nbsp;-"@)) {
                        None => Err(ExtractionFailure::MalformedTime(Part::StartTime)),
                        Some(start) => match clock_reading(end_text) {
                            None => Err(ExtractionFailure::MalformedTime(Part::EndTime)),
                            Some(end) => Ok(
                                EventView {
                                    date,
                                    start,
                                    end,
                                    title: replace_all(title, "&amp;"@, "&"@),
                                    location: location_of(c.resources),
                                    organizer: organizer_of(c.persons),
                                },
                            ),
                        },
                    },
                },
            }
        },
    }
}

pub open spec fn then_ok(pre: Seq<EventView>, r: Result<Seq<EventView>, ExtractionFailure>) -> Result<
    Seq<EventView>,
    ExtractionFailure,
> {
    match r {
        Ok(s) => Ok(pre + s),
        Err(e) => Err(e),
    }
}

pub open spec fn events_view(v: Seq<Event>) -> Seq<EventView> {
    v.map_values(|e: Event| e@)
}

/// The events of one row from cell `i` on, where `di` separator cells have
/// been passed: each separator moves to the next day, each event cell is
/// read on the current day, and every other cell is passed over.
pub open spec fn cells_from(cells: Seq<CellView>, monday: Date, i: int, di: int) -> Result<
    Seq<EventView>,
    ExtractionFailure,
>
    decreases cells.len() - i,
{
    if i < 0 || i >= cells.len() {
        Ok(Seq::empty())
    } else {
        match cells[i].class {
            None => Err(ExtractionFailure::MissingAnchor(Part::CellClass)),
            Some(class) => {
                let di2 = if starts(class, "week_separatorcell"@) { di + 1 } else { di };
                if class != "week_block"@ {
                    cells_from(cells, monday, i + 1, di2)
                } else {
                    match date_plus(monday, di2) {
                        None => Err(ExtractionFailure::InvalidDate),
                        Some(date) => match event_details(cells[i], date) {
                            Err(e) => Err(e),
                            Ok(ev) => then_ok(seq![ev], cells_from(cells, monday, i + 1, di2)),
                        },
                    }
                }
            },
        }
    }
}

/// The events of the rows from row `j` on.
pub open spec fn rows_from(rows: Seq<Seq<CellView>>, monday: Date, j: int) -> Result<
    Seq<EventView>,
    ExtractionFailure,
>
    decreases rows.len() - j,
{
    if j < 0 || j >= rows.len() {
        Ok(Seq::empty())
    } else {
        match cells_from(rows[j], monday, 0, 0) {
            Err(e) => Err(e),
            Ok(evs) => then_ok(evs, rows_from(rows, monday, j + 1)),
        }
    }
}

/// The week number that a week table's header gives: the second
/// space-separated token of its text.
pub open spec fn week_number(w: WeekView) -> Result<int, ExtractionFailure> {
    match w.number {
        None => Err(ExtractionFailure::MissingAnchor(Part::WeekNumber)),
        Some(t) => match second_piece(t, " "@) {
            None => Err(ExtractionFailure::IncompleteDetail(Part::WeekNumber)),
            Some(tok) => match within(unsigned_value(tok), 0, u64::MAX as int) {
                None => Err(ExtractionFailure::MalformedNumber(Part::WeekNumber)),
                Some(n) => Ok(n),
            },
        },
    }
}

/// The first day of a week table in the given year: the second
/// space-separated token of its start-date header read as `DD.MM.`.
pub open spec fn week_monday(w: WeekView, year: int) -> Result<Date, ExtractionFailure> {
    match w.header {
        None => Err(ExtractionFailure::MissingAnchor(Part::WeekStart)),
        Some(h) => match second_piece(h, " "@) {
            None => Err(ExtractionFailure::IncompleteDetail(Part::WeekStart)),
            Some(tok) => {
                let dm = strip_end(tok, '.');
                match within(unsigned_value(before_first(dm, "."@)), 0, u32::MAX as int) {
                    None => Err(ExtractionFailure::MalformedNumber(Part::Day)),
                    Some(day) => match second_piece(dm, "."@) {
                        None => Err(ExtractionFailure::IncompleteDetail(Part::Month)),
                        Some(mt) => match within(unsigned_value(mt), 0, u32::MAX as int) {
                            None => Err(ExtractionFailure::MalformedNumber(Part::Month)),
                            Some(month) => if valid_ymd(year, month, day) {
                                Ok(Date { year: year as i32, month: month as u32, day: day as u32 })
                            } else {
                                Err(ExtractionFailure::InvalidDate)
                            },
                        },
                    },
                }
            },
        },
    }
}

/// The year that week `k` falls in, given the year of the week before it:
/// a week numbered 1 after the first table starts the next year.
pub open spec fn next_year(n: int, k: int, year: int) -> int {
    if n == 1 && k > 0 {
        year + 1
    } else {
        year
    }
}

/// The events of week table `w`, the `k`-th of its page, and the year it
/// falls in, where `year` is the year of the table before it.
#[verifier::opaque]
pub open spec fn week_step(w: WeekView, k: int, year: int) -> Result<
    (Seq<EventView>, int),
    ExtractionFailure,
> {
    match week_number(w) {
        Err(e) => Err(e),
        Ok(n) => {
            let y = next_year(n, k, year);
            match week_monday(w, y) {
                Err(e) => Err(e),
                Ok(monday) => match rows_from(w.rows, monday, 1) {
                    Err(e) => Err(e),
                    Ok(evs) => Ok((evs, y)),
                },
            }
        },
    }
}

/// The events of the week tables from table `k` on, where `year` is the year
/// that the table before `k` fell in (the selected year for the first).
pub open spec fn weeks_from(weeks: Seq<WeekView>, k: int, year: int) -> Result<
    Seq<EventView>,
    ExtractionFailure,
>
    decreases weeks.len() - k,
{
    if k < 0 || k >= weeks.len() {
        Ok(Seq::empty())
    } else {
        match week_step(weeks[k], k, year) {
            Err(e) => Err(e),
            Ok((evs, y)) => then_ok(evs, weeks_from(weeks, k + 1, y)),
        }
    }
}

/// The calendar that a page outline describes.
pub open spec fn page_calendar(p: PageView) -> Result<CalendarView, ExtractionFailure> {
    match p.title {
        None => Err(ExtractionFailure::MissingAnchor(Part::Title)),
        Some(t) => match p.year {
            None => Err(ExtractionFailure::MissingAnchor(Part::SelectedYear)),
            Some(yt) => match within(signed_value(yt), i32::MIN as int, i32::MAX as int) {
                None => Err(ExtractionFailure::MalformedNumber(Part::SelectedYear)),
                Some(year) => match weeks_from(p.weeks, 0, year) {
                    Err(e) => Err(e),
                    Ok(events) => Ok(CalendarView { name: trim(t), events }),
                },
            },
        },
    }
}

/// The persons of a cell, each without trailing commas, joined by `", "`.
pub fn join_names(names: &Vec<String>) -> (r: String)
    requires
        names@.len() > 0,
    ensures
        r@ == joined_names(texts_view(names@)),
{
    let ghost v = texts_view(names@);
    let sep = chars_of(", ");
    let first = chars_of(names[0].as_str());
    let mut out = strip_end_chars(&first, ',');
    let mut i: usize = 1;
    assert(v.subrange(0, 1).drop_last() =~= Seq::<Seq<char>>::empty());
    while i < names.len()
        invariant
            1 <= i <= names@.len(),
            v == texts_view(names@),
            sep@ == ", "@,
            out@ == joined_names(v.subrange(0, i as int)),
        decreases names@.len() - i,
    {
        let name = chars_of(names[i].as_str());
        let stripped = strip_end_chars(&name, ',');
        extend_chars(&mut out, &sep);
        extend_chars(&mut out, &stripped);
        assert(v.subrange(0, (i + 1) as int).drop_last() =~= v.subrange(0, i as int));
        i += 1;
    }
    assert(v.subrange(0, names@.len() as int) =~= v);
    string_of(&out)
}

/// Reads an event cell on the given date.
pub fn event_from_cell(cell: &Cell, date: Date) -> (r: Result<Event, ExtractionFailure>)
    ensures
        match r {
            Ok(e) => event_details(cell@, date) == Ok::<EventView, ExtractionFailure>(e@),
            Err(x) => event_details(cell@, date) == Err::<EventView, ExtractionFailure>(x),
        },
{
    let link = match &cell.link {
        None => return Err(ExtractionFailure::MissingAnchor(Part::EventLink)),
        Some(l) => chars_of(l.as_str()),
    };
    let br = chars_of("<br>");
    let (times, rest) = split_once(&link, &br);
    let title = match rest {
        None => return Err(ExtractionFailure::IncompleteDetail(Part::DetailLines)),
        Some(rest) => split_once(&rest, &br).0,
    };
    let sep = chars_of("&nbsp;-");
    let (start_text, rest) = split_once(&times, &sep);
    let end_text = match rest {
        None => return Err(ExtractionFailure::MissingAnchor(Part::TimeRange)),
        Some(rest) => split_once(&rest, &sep).0,
    };
    let start = match parse_clock(string_of(&start_text).as_str()) {
        None => return Err(ExtractionFailure::MalformedTime(Part::StartTime)),
        Some(t) => t,
    };
    let end = match parse_clock(string_of(&end_text).as_str()) {
        None => return Err(ExtractionFailure::MalformedTime(Part::EndTime)),
        Some(t) => t,
    };
    let title = replace_seq(&title, &chars_of("&amp;"), &chars_of("&"));
    let location = if cell.resources.len() > 1 {
        Some(cell.resources[1].clone())
    } else {
        None
    };
    let organizer = if cell.persons.len() > 0 {
        Some(join_names(&cell.persons))
    } else {
        None
    };
    Ok(Event { date, start, end, title: string_of(&title), location, organizer })
}

pub proof fn lemma_then_ok_assoc(
    a: Seq<EventView>,
    b: Seq<EventView>,
    r: Result<Seq<EventView>, ExtractionFailure>,
)
    ensures
        then_ok(a, then_ok(b, r)) == then_ok(a + b, r),
{
    if let Ok(s) = r {
        assert(a + (b + s) =~= (a + b) + s);
    }
}

pub proof fn lemma_then_ok_empty(r: Result<Seq<EventView>, ExtractionFailure>)
    ensures
        then_ok(Seq::empty(), r) == r,
{
    if let Ok(s) = r {
        assert(Seq::<EventView>::empty() + s =~= s);
    }
}

/// Appends the events of one row to `out`.
pub fn row_events(cells: &Vec<Cell>, monday: Date, out: &mut Vec<Event>) -> (r: Result<
    (),
    ExtractionFailure,
>)
    requires
        monday.wf(),
    ensures
        match r {
            Ok(_) => then_ok(events_view(old(out)@), cells_from(cells_view(cells@), monday, 0, 0))
                == Ok::<Seq<EventView>, ExtractionFailure>(events_view(final(out)@)),
            Err(e) => then_ok(events_view(old(out)@), cells_from(cells_view(cells@), monday, 0, 0))
                == Err::<Seq<EventView>, ExtractionFailure>(e),
        },
{
    let ghost cs = cells_view(cells@);
    let separator = chars_of("week_separatorcell");
    let block = chars_of("week_block");
    let mut di: usize = 0;
    let mut i: usize = 0;
    while i < cells.len()
        invariant
            i <= cells@.len(),
            di <= i,
            cs == cells_view(cells@),
            monday.wf(),
            separator@ == "week_separatorcell"@,
            block@ == "week_block"@,
            then_ok(events_view(old(out)@), cells_from(cs, monday, 0, 0)) == then_ok(
                events_view(out@),
                cells_from(cs, monday, i as int, di as int),
            ),
        decreases cells@.len() - i,
    {
        let cell = &cells[i];
        let class = match &cell.class {
            None => return Err(ExtractionFailure::MissingAnchor(Part::CellClass)),
            Some(c) => chars_of(c.as_str()),
        };
        if starts_with_chars(&class, &separator) {
            di = di + 1;
        }
        if same_chars(&class, &block) {
            let date = match add_days(monday, di as u64) {
                None => return Err(ExtractionFailure::InvalidDate),
                Some(d) => d,
            };
            let ev = match event_from_cell(cell, date) {
                Err(e) => return Err(e),
                Ok(ev) => ev,
            };
            proof {
                lemma_then_ok_assoc(
                    events_view(out@),
                    seq![ev@],
                    cells_from(cs, monday, i + 1, di as int),
                );
                assert(events_view(out@) + seq![ev@] =~= events_view(out@.push(ev)));
            }
            out.push(ev);
        }
        i += 1;
    }
    proof {
        assert(events_view(out@) + Seq::<EventView>::empty() =~= events_view(out@));
    }
    Ok(())
}

/// Appends the events of the rows from row `j` on to `out`.
pub fn rows_events(rows: &Vec<Vec<Cell>>, monday: Date, j: usize, out: &mut Vec<Event>) -> (r: Result<
    (),
    ExtractionFailure,
>)
    requires
        monday.wf(),
    ensures
        match r {
            Ok(_) => then_ok(events_view(old(out)@), rows_from(rows_view(rows@), monday, j as int))
                == Ok::<Seq<EventView>, ExtractionFailure>(events_view(final(out)@)),
            Err(e) => then_ok(events_view(old(out)@), rows_from(rows_view(rows@), monday, j as int))
                == Err::<Seq<EventView>, ExtractionFailure>(e),
        },
{
    let ghost rs = rows_view(rows@);
    let mut k: usize = j;
    if k > rows.len() {
        proof {
            lemma_then_ok_empty(Ok(Seq::empty()));
            assert(events_view(out@) + Seq::<EventView>::empty() =~= events_view(out@));
        }
        return Ok(());
    }
    while k < rows.len()
        invariant
            j <= k <= rows@.len(),
            rs == rows_view(rows@),
            monday.wf(),
            then_ok(events_view(old(out)@), rows_from(rs, monday, j as int)) == then_ok(
                events_view(out@),
                rows_from(rs, monday, k as int),
            ),
        decreases rows@.len() - k,
    {
        let ghost before = events_view(out@);
        let r = row_events(&rows[k], monday, out);
        proof {
            assert(rs[k as int] == cells_view(rows@[k as int]@));
        }
        match r {
            Err(e) => {
                return Err(e);
            },
            Ok(_) => {
                proof {
                    let evs = cells_from(rs[k as int], monday, 0, 0).unwrap();
                    lemma_then_ok_assoc(before, evs, rows_from(rs, monday, k + 1));
                }
            },
        }
        k += 1;
    }
    proof {
        assert(events_view(out@) + Seq::<EventView>::empty() =~= events_view(out@));
    }
    Ok(())
}

/// The second space-separated token of `t`.
fn second_token(t: &[char], pat: &[char]) -> (r: Option<Vec<char>>)
    ensures
        r is Some <==> second_piece(t@, pat@) is Some,
        r is Some ==> r.unwrap()@ == second_piece(t@, pat@).unwrap(),
{
    match split_once(t, pat).1 {
        None => None,
        Some(rest) => Some(split_once(&rest, pat).0),
    }
}

/// Reads the week number of a week table.
pub fn read_week_number(w: &Week) -> (r: Result<u64, ExtractionFailure>)
    ensures
        match r {
            Ok(n) => week_number(w@) == Ok::<int, ExtractionFailure>(n as int),
            Err(e) => week_number(w@) == Err::<int, ExtractionFailure>(e),
        },
{
    let text = match &w.number {
        None => return Err(ExtractionFailure::MissingAnchor(Part::WeekNumber)),
        Some(t) => chars_of(t.as_str()),
    };
    let tok = match second_token(&text, &chars_of(" ")) {
        None => return Err(ExtractionFailure::IncompleteDetail(Part::WeekNumber)),
        Some(tok) => tok,
    };
    match parse_u64(&tok) {
        None => Err(ExtractionFailure::MalformedNumber(Part::WeekNumber)),
        Some(n) => Ok(n),
    }
}

/// Reads the first day of a week table in the given year.
pub fn read_week_monday(w: &Week, year: i128) -> (r: Result<Date, ExtractionFailure>)
    ensures
        match r {
            Ok(d) => week_monday(w@, year as int) == Ok::<Date, ExtractionFailure>(d) && d.wf(),
            Err(e) => week_monday(w@, year as int) == Err::<Date, ExtractionFailure>(e),
        },
{
    let text = match &w.header {
        None => return Err(ExtractionFailure::MissingAnchor(Part::WeekStart)),
        Some(t) => chars_of(t.as_str()),
    };
    let tok = match second_token(&text, &chars_of(" ")) {
        None => return Err(ExtractionFailure::IncompleteDetail(Part::WeekStart)),
        Some(tok) => tok,
    };
    let dm = strip_end_chars(&tok, '.');
    let dot = chars_of(".");
    let day = match parse_u32(&split_once(&dm, &dot).0) {
        None => return Err(ExtractionFailure::MalformedNumber(Part::Day)),
        Some(d) => d,
    };
    let month_text = match second_token(&dm, &dot) {
        None => return Err(ExtractionFailure::IncompleteDetail(Part::Month)),
        Some(m) => m,
    };
    let month = match parse_u32(&month_text) {
        None => return Err(ExtractionFailure::MalformedNumber(Part::Month)),
        Some(m) => m,
    };
    if year < i32::MIN as i128 || year > i32::MAX as i128 {
        return Err(ExtractionFailure::InvalidDate);
    }
    match date_from_ymd(year as i32, month, day) {
        None => Err(ExtractionFailure::InvalidDate),
        Some(d) => Ok(d),
    }
}

/// Appends the events of week table `week`, the `k`-th of its page, to
/// `out`, and gives the year that it falls in.
pub fn week_events(week: &Week, k: usize, year: i128, out: &mut Vec<Event>) -> (r: Result<
    i128,
    ExtractionFailure,
>)
    requires
        year < i128::MAX,
    ensures
        match week_step(week@, k as int, year as int) {
            Ok((evs, y)) => r is Ok && r.unwrap() as int == y && events_view(
                final(out)@,
            ) == events_view(old(out)@) + evs,
            Err(e) => r == Err::<i128, ExtractionFailure>(e),
        },
        r is Ok ==> year <= r.unwrap() <= year + 1,
{
    reveal(week_step);
    let n = match read_week_number(week) {
        Err(e) => return Err(e),
        Ok(n) => n,
    };
    let y: i128 = if n == 1 && k > 0 {
        year + 1
    } else {
        year
    };
    let monday = match read_week_monday(week, y) {
        Err(e) => return Err(e),
        Ok(d) => d,
    };
    match rows_events(&week.rows, monday, 1, out) {
        Err(e) => return Err(e),
        Ok(_) => {},
    }
    Ok(y)
}

/// Reads a page outline into a calendar.
pub fn calendar_from_outline(page: &PageOutline) -> (r: Result<Calendar, ExtractionFailure>)
    ensures
        match r {
            Ok(c) => page_calendar(page@) == Ok::<CalendarView, ExtractionFailure>(c@),
            Err(e) => page_calendar(page@) == Err::<CalendarView, ExtractionFailure>(e),
        },
{
    let name = match &page.title {
        None => return Err(ExtractionFailure::MissingAnchor(Part::Title)),
        Some(t) => trim_chars(&chars_of(t.as_str())),
    };
    let base = match &page.year {
        None => return Err(ExtractionFailure::MissingAnchor(Part::SelectedYear)),
        Some(y) => match parse_i32(&chars_of(y.as_str())) {
            None => return Err(ExtractionFailure::MalformedNumber(Part::SelectedYear)),
            Some(y) => y,
        },
    };
    let ghost ws = weeks_view(page.weeks@);
    let mut events: Vec<Event> = Vec::new();
    let mut year: i128 = base as i128;
    let mut k: usize = 0;
    proof {
        lemma_then_ok_empty(weeks_from(ws, 0, base as int));
    }
    while k < page.weeks.len()
        invariant
            k <= page.weeks@.len(),
            ws == weeks_view(page.weeks@),
            page@.title is Some,
            page@.year is Some,
            within(signed_value(page@.year.unwrap()), i32::MIN as int, i32::MAX as int) == Some(
                base as int,
            ),
            name@ == trim(page@.title.unwrap()),
            base as int <= year <= base as int + k,
            weeks_from(ws, 0, base as int) == then_ok(
                events_view(events@),
                weeks_from(ws, k as int, year as int),
            ),
        decreases page.weeks@.len() - k,
    {
        let ghost before = events_view(events@);
        proof {
            assert(ws[k as int] == page.weeks@[k as int]@);
        }
        let y = match week_events(&page.weeks[k], k, year, &mut events) {
            Err(e) => return Err(e),
            Ok(y) => y,
        };
        proof {
            let evs = week_step(ws[k as int], k as int, year as int).unwrap().0;
            lemma_then_ok_assoc(before, evs, weeks_from(ws, k + 1, y as int));
        }
        year = y;
        k += 1;
    }
    proof {
        assert(events_view(events@) + Seq::<EventView>::empty() =~= events_view(events@));
    }
    let cal = Calendar { name: string_of(&name), events };
    assert(cal@.events =~= events_view(cal.events@));
    Ok(cal)
}

} // verus!
