//! Properties that hold across the functions of this crate.

use vstd::prelude::*;

use crate::extract::{event_details, next_year, page_calendar, week_number, week_step, weeks_from};
use crate::feed::{
    calendar_text, escaped, event_props_of, event_uid, in_zone, optional_prop, stamp, year_text,
    Props,
};
use crate::dom::{calendar_result_view, page_outline};
use crate::model::{Calendar, CalendarView, Date, EventView, ExtractionFailure, Part, Time};
use crate::outline::{CellView, PageView, WeekView};
use crate::numbers::{
    all_digits, digits_value, is_digit, lemma_padded_len, lemma_padded_value, lemma_width_le,
    padded, pow10,
};
use crate::text::swap_char;

verus! {

pub open spec fn free_of(s: Seq<char>, c: char) -> bool {
    forall|i: int| 0 <= i < s.len() ==> s[i] != c
}

proof fn lemma_free_concat(a: Seq<char>, b: Seq<char>, c: char)
    requires
        free_of(a, c),
        free_of(b, c),
    ensures
        free_of(a + b, c),
{
    assert forall|i: int| 0 <= i < (a + b).len() implies (a + b)[i] != c by {
        if i >= a.len() {
            assert((a + b)[i] == b[i - a.len()]);
        }
    }
}

proof fn lemma_digits_free(s: Seq<char>)
    requires
        all_digits(s),
    ensures
        free_of(s, '_'),
{
    assert forall|i: int| 0 <= i < s.len() implies s[i] != '_' by {
        assert(is_digit(s[i]));
    }
}

/// Two digits for a number below one hundred.
proof fn lemma_two_digits(v: nat)
    requires
        v < 100,
    ensures
        padded(v, 2).len() == 2,
        digits_value(padded(v, 2)) == v,
        all_digits(padded(v, 2)),
{
    reveal_with_fuel(pow10, 3);
    lemma_width_le(v, 2);
    lemma_padded_len(v, 2);
    lemma_padded_value(v, 2);
}

pub open spec fn stamp_tail(d: Date, t: Time) -> Seq<char> {
    padded(d.month as nat, 2) + padded(d.day as nat, 2) + "T"@ + padded(t.hour as nat, 2)
        + padded(t.minute as nat, 2) + "00"@
}

proof fn lemma_stamp_parts(d: Date, t: Time)
    requires
        d.wf(),
        t.wf(),
    ensures
        stamp(d, t) == year_text(d.year as int) + stamp_tail(d, t),
        stamp_tail(d, t).len() == 11,
        stamp_tail(d, t).subrange(0, 2) == padded(d.month as nat, 2),
        stamp_tail(d, t).subrange(2, 4) == padded(d.day as nat, 2),
        stamp_tail(d, t).subrange(5, 7) == padded(t.hour as nat, 2),
        stamp_tail(d, t).subrange(7, 9) == padded(t.minute as nat, 2),
        free_of(stamp(d, t), '_'),
{
    reveal_strlit("T");
    reveal_strlit("00");
    reveal_strlit("-");
    reveal_strlit("+");
    lemma_two_digits(d.month as nat);
    lemma_two_digits(d.day as nat);
    lemma_two_digits(t.hour as nat);
    lemma_two_digits(t.minute as nat);
    let m = padded(d.month as nat, 2);
    let dd = padded(d.day as nat, 2);
    let h = padded(t.hour as nat, 2);
    let mi = padded(t.minute as nat, 2);
    let tail = stamp_tail(d, t);
    assert(stamp(d, t) =~= year_text(d.year as int) + tail);
    assert(tail.subrange(0, 2) =~= m);
    assert(tail.subrange(2, 4) =~= dd);
    assert(tail.subrange(5, 7) =~= h);
    assert(tail.subrange(7, 9) =~= mi);
    lemma_digits_free(m);
    lemma_digits_free(dd);
    lemma_digits_free(h);
    lemma_digits_free(mi);
    assert(free_of("T"@, '_'));
    assert(free_of("00"@, '_'));
    lemma_free_concat(m, dd, '_');
    lemma_free_concat(m + dd, "T"@, '_');
    lemma_free_concat(m + dd + "T"@, h, '_');
    lemma_free_concat(m + dd + "T"@ + h, mi, '_');
    lemma_free_concat(m + dd + "T"@ + h + mi, "00"@, '_');
    let y = d.year as int;
    if 0 <= y <= 9999 {
        lemma_padded_value(y as nat, 4);
        lemma_digits_free(year_text(y));
    } else if y < 0 {
        lemma_padded_value((-y) as nat, 4);
        lemma_digits_free(padded((-y) as nat, 4));
        assert(free_of("-"@, '_'));
        lemma_free_concat("-"@, padded((-y) as nat, 4), '_');
    } else {
        lemma_padded_value(y as nat, 4);
        lemma_digits_free(padded(y as nat, 4));
        assert(free_of("+"@, '_'));
        lemma_free_concat("+"@, padded(y as nat, 4), '_');
    }
    lemma_free_concat(year_text(y), tail, '_');
}

proof fn lemma_year_text_injective(a: int, b: int)
    requires
        year_text(a) == year_text(b),
    ensures
        a == b,
{
    reveal_strlit("-");
    reveal_strlit("+");
    let ta = year_text(a);
    if 0 <= a <= 9999 {
        lemma_padded_len(a as nat, 4);
        lemma_padded_value(a as nat, 4);
        assert(is_digit(ta[0]));
    } else if a < 0 {
        lemma_padded_value((-a) as nat, 4);
        assert(ta[0] == '-');
        assert(ta.drop_first() =~= padded((-a) as nat, 4));
    } else {
        lemma_padded_value(a as nat, 4);
        assert(ta[0] == '+');
        assert(ta.drop_first() =~= padded(a as nat, 4));
    }
    if 0 <= b <= 9999 {
        lemma_padded_len(b as nat, 4);
        lemma_padded_value(b as nat, 4);
        assert(is_digit(ta[0]));
    } else if b < 0 {
        lemma_padded_value((-b) as nat, 4);
        assert(ta.drop_first() =~= padded((-b) as nat, 4));
    } else {
        lemma_padded_value(b as nat, 4);
        assert(ta.drop_first() =~= padded(b as nat, 4));
    }
}

proof fn lemma_stamp_injective(d1: Date, t1: Time, d2: Date, t2: Time)
    requires
        d1.wf(),
        d2.wf(),
        t1.wf(),
        t2.wf(),
        stamp(d1, t1) == stamp(d2, t2),
    ensures
        d1 == d2,
        t1 == t2,
{
    lemma_stamp_parts(d1, t1);
    lemma_stamp_parts(d2, t2);
    let s = stamp(d1, t1);
    let y1 = year_text(d1.year as int);
    let y2 = year_text(d2.year as int);
    let k = s.len() - 11;
    assert(y1 =~= s.subrange(0, k));
    assert(y2 =~= s.subrange(0, k));
    lemma_year_text_injective(d1.year as int, d2.year as int);
    assert(stamp_tail(d1, t1) =~= s.subrange(k, s.len() as int));
    assert(stamp_tail(d2, t2) =~= s.subrange(k, s.len() as int));
    lemma_two_digits(d1.month as nat);
    lemma_two_digits(d2.month as nat);
    lemma_two_digits(d1.day as nat);
    lemma_two_digits(d2.day as nat);
    lemma_two_digits(t1.hour as nat);
    lemma_two_digits(t2.hour as nat);
    lemma_two_digits(t1.minute as nat);
    lemma_two_digits(t2.minute as nat);
}

/// Events that agree on date, start and title get the same identifier.
pub proof fn law_identifier_determined(a: EventView, b: EventView)
    requires
        a.date == b.date,
        a.start == b.start,
        a.title == b.title,
    ensures
        event_uid(a.date, a.start, a.title) == event_uid(b.date, b.start, b.title),
{
}

/// Events that differ in date or start, or whose titles still differ once
/// spaces are written as hyphens, get different identifiers.
pub proof fn law_identifier_distinct(a: EventView, b: EventView)
    requires
        a.date.wf(),
        b.date.wf(),
        a.start.wf(),
        b.start.wf(),
        a.date != b.date || a.start != b.start || swap_char(a.title, ' ', '-') != swap_char(
            b.title,
            ' ',
            '-',
        ),
    ensures
        event_uid(a.date, a.start, a.title) != event_uid(b.date, b.start, b.title),
{
    let sa = stamp(a.date, a.start);
    let sb = stamp(b.date, b.start);
    let ua = event_uid(a.date, a.start, a.title);
    let ub = event_uid(b.date, b.start, b.title);
    if ua == ub {
        reveal_strlit("_");
        lemma_stamp_parts(a.date, a.start);
        lemma_stamp_parts(b.date, b.start);
        if sa.len() < sb.len() {
            assert(ua[sa.len() as int] == '_');
            assert(ub[sa.len() as int] == sb[sa.len() as int]);
        } else if sb.len() < sa.len() {
            assert(ub[sb.len() as int] == '_');
            assert(ua[sb.len() as int] == sa[sb.len() as int]);
        } else {
            assert(sa =~= ua.subrange(0, sa.len() as int));
            assert(sb =~= ub.subrange(0, sb.len() as int));
            lemma_stamp_injective(a.date, a.start, b.date, b.start);
            assert(swap_char(a.title, ' ', '-') =~= ua.subrange(sa.len() as int + 1, ua.len() as int));
            assert(swap_char(b.title, ' ', '-') =~= ub.subrange(sb.len() as int + 1, ub.len() as int));
        }
    }
}

/// Reads iCalendar TEXT back: a backslash followed by `n` is a line feed,
/// a backslash followed by any other character is that character.
pub open spec fn unescaped(s: Seq<char>) -> Seq<char>
    decreases s.len(),
{
    if s.len() == 0 {
        Seq::empty()
    } else if s[0] == '\\' && s.len() > 1 {
        (if s[1] == 'n' { seq!['\n'] } else { seq![s[1]] }) + unescaped(s.subrange(2, s.len() as int))
    } else {
        seq![s[0]] + unescaped(s.drop_first())
    }
}

proof fn lemma_unescape_pair(c: char, rest: Seq<char>)
    ensures
        unescaped(seq!['\\', c] + rest) == (if c == 'n' { seq!['\n'] } else { seq![c] })
            + unescaped(rest),
{
    let s = seq!['\\', c] + rest;
    assert(s.subrange(2, s.len() as int) =~= rest);
}

proof fn lemma_unescape_plain(c: char, rest: Seq<char>)
    requires
        c != '\\',
    ensures
        unescaped(seq![c] + rest) == seq![c] + unescaped(rest),
{
    let s = seq![c] + rest;
    assert(s.drop_first() =~= rest);
}

/// Escaping a text without carriage returns and reading it back gives the
/// text again; commas, semicolons and backslashes come out with a backslash
/// before them.
pub proof fn law_escape_round_trip(s: Seq<char>)
    requires
        free_of(s, '\r'),
    ensures
        unescaped(escaped(s)) == s,
    decreases s.len(),
{
    if s.len() > 0 {
        let rest = s.drop_first();
        assert(free_of(rest, '\r')) by {
            assert forall|i: int| 0 <= i < rest.len() implies rest[i] != '\r' by {
                assert(rest[i] == s[i + 1]);
            }
        }
        law_escape_round_trip(rest);
        let c = s[0];
        if c == ',' || c == ';' || c == '\\' {
            lemma_unescape_pair(c, escaped(rest));
        } else if c == '\n' {
            lemma_unescape_pair('n', escaped(rest));
        } else {
            lemma_unescape_plain(c, escaped(rest));
        }
        assert(seq![c] + rest =~= s);
    }
}

/// A comma and a semicolon each get a backslash before them.
pub proof fn law_separators_escaped(a: Seq<char>, b: Seq<char>)
    ensures
        escaped(seq![','] + a) == seq!['\\', ','] + escaped(a),
        escaped(seq![';'] + b) == seq!['\\', ';'] + escaped(b),
{
    assert((seq![','] + a).drop_first() =~= a);
    assert((seq![';'] + b).drop_first() =~= b);
}

/// The feed of a page is fixed by the page: two readings of one document
/// give the same calendar, and so the same text.
pub proof fn law_feed_determined(
    document: Seq<char>,
    r1: Result<Calendar, ExtractionFailure>,
    r2: Result<Calendar, ExtractionFailure>,
)
    requires
        calendar_result_view(r1) == page_calendar(page_outline(document)),
        calendar_result_view(r2) == page_calendar(page_outline(document)),
    ensures
        calendar_result_view(r1) == calendar_result_view(r2),
        r1 is Ok && r2 is Ok ==> calendar_text(r1.unwrap()@) == calendar_text(r2.unwrap()@),
{
}

/// The first week table of a page falls in the selected year, whatever
/// its number.
pub proof fn law_first_week_keeps_year(w: WeekView, year: int)
    requires
        week_step(w, 0, year) is Ok,
    ensures
        week_step(w, 0, year)->Ok_0.1 == year,
{
    reveal(week_step);
}

/// A cell without person spans has no organizer, and one with fewer than
/// two resource spans has no location.
pub proof fn law_absent_fields(c: CellView, date: Date)
    requires
        event_details(c, date) is Ok,
    ensures
        c.persons.len() == 0 ==> event_details(c, date)->Ok_0.organizer is None,
        c.resources.len() < 2 ==> event_details(c, date)->Ok_0.location is None,
{
}

/// An event without organizer gets no organizer property, and one without
/// location no location property.
pub proof fn law_absent_lines(e: EventView)
    ensures
        e.organizer is None ==> forall|i: int|
            0 <= i < event_props_of(e).len() ==> #[trigger] event_props_of(e)[i].0 != "ORGANIZER"@,
        e.location is None ==> forall|i: int|
            0 <= i < event_props_of(e).len() ==> #[trigger] event_props_of(e)[i].0 != "LOCATION"@,
{
    reveal_strlit("UID");
    reveal_strlit("DTSTAMP");
    reveal_strlit("DTSTART");
    reveal_strlit("DTEND");
    reveal_strlit("SUMMARY");
    reveal_strlit("LOCATION");
    reveal_strlit("ORGANIZER");
    reveal_strlit(";");
    reveal_strlit("TZID");
    reveal_strlit("=");
    reveal_strlit("Europe/Berlin");
    let p = event_props_of(e);
    let h: Props = seq![
        ("UID"@, escaped(event_uid(e.date, e.start, e.title))),
        ("DTSTAMP"@, stamp(e.date, e.start)),
        (in_zone("DTSTART"@), stamp(e.date, e.start)),
        (in_zone("DTEND"@), stamp(e.date, e.end)),
        ("SUMMARY"@, escaped(e.title)),
    ];
    let a = optional_prop("LOCATION"@, e.location);
    let b = optional_prop("ORGANIZER"@, e.organizer);
    assert(p == h + a + b);
    assert(in_zone("DTSTART"@).len() == 26);
    assert(in_zone("DTEND"@).len() == 24);
    assert("ORGANIZER"@.len() == 9);
    assert("LOCATION"@.len() == 8);
    assert forall|i: int| 0 <= i < p.len() implies (e.organizer is None ==> p[i].0 != "ORGANIZER"@)
        && (e.location is None ==> p[i].0 != "LOCATION"@) by {
        if i < 5 {
            assert(p[i] == h[i]);
            assert(p[i].0.len() != 9 && p[i].0.len() != 8);
        } else if i < 5 + a.len() {
            assert(p[i] == a[i - 5]);
            assert(e.location is Some && p[i].0 == "LOCATION"@);
        } else {
            assert(p[i] == b[i - 5 - a.len()]);
            assert(e.organizer is Some && p[i].0 == "ORGANIZER"@);
        }
    }
}

/// A page without a title yields no calendar but the failure that names
/// the title.
pub proof fn law_missing_title(p: PageView)
    requires
        p.title is None,
    ensures
        page_calendar(p) == Err::<CalendarView, ExtractionFailure>(
            ExtractionFailure::MissingAnchor(Part::Title),
        ),
{
}

/// A week table falls in the year after the table before it exactly when
/// it is numbered 1 and is not the first table of the page.
pub proof fn law_year_rollover(w: WeekView, k: int, year: int)
    requires
        week_step(w, k, year) is Ok,
    ensures
        week_step(w, k, year)->Ok_0.1 == if week_number(w) == Ok::<int, ExtractionFailure>(1)
            && k > 0 {
            year + 1
        } else {
            year
        },
{
    reveal(week_step);
}

/// How many of the week tables after the first and before table `k` are
/// numbered 1.
pub open spec fn rollovers(ws: Seq<WeekView>, k: int) -> int
    decreases k,
{
    if k <= 1 {
        0
    } else {
        rollovers(ws, k - 1) + if week_number(ws[k - 1]) == Ok::<int, ExtractionFailure>(1) {
            1int
        } else {
            0int
        }
    }
}

proof fn lemma_week_years(ws: Seq<WeekView>, k: int, base: int)
    requires
        0 <= k <= ws.len(),
        weeks_from(ws, k, base + rollovers(ws, k)) is Ok,
    ensures
        forall|j: int|
            k <= j < ws.len() ==> (#[trigger] week_step(ws[j], j, base + rollovers(ws, j)) is Ok
                && week_step(ws[j], j, base + rollovers(ws, j))->Ok_0.1 == base + rollovers(
                ws,
                j + 1,
            )),
    decreases ws.len() - k,
{
    if k < ws.len() {
        let year = base + rollovers(ws, k);
        reveal(week_step);
        let n = week_number(ws[k])->Ok_0;
        assert(week_step(ws[k], k, year)->Ok_0.1 == next_year(n, k, year));
        assert(base + rollovers(ws, k + 1) == next_year(n, k, year));
        lemma_week_years(ws, k + 1, base);
    }
}

/// Over a whole page that reads, week table `j` falls in the selected year
/// plus the number of tables numbered 1 among tables 1 to `j`: the first
/// table never moves the year, and each later table numbered 1 moves it on
/// by one.
pub proof fn law_week_years(ws: Seq<WeekView>, base: int)
    requires
        weeks_from(ws, 0, base) is Ok,
    ensures
        forall|j: int|
            0 <= j < ws.len() ==> (#[trigger] week_step(ws[j], j, base + rollovers(ws, j)) is Ok
                && week_step(ws[j], j, base + rollovers(ws, j))->Ok_0.1 == base + rollovers(
                ws,
                j + 1,
            )),
{
    lemma_week_years(ws, 0, base);
}

} // verus!
