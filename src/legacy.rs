//! The free-text page variant: one event per `week_block` cell, with its
//! kind, title, lecturers, date, times and rooms written out as text.

use vstd::prelude::*;

use ics::Event as IcsEvent;

use crate::dom::{block_page, read_block_page, Selectors};
use crate::feed::{
    base_props, calendar_add_event, calendar_display, calendar_props, calendar_subs,
    component_text, escape, escaped, event_display, event_props, event_subs, ics_base, in_zone,
    new_event, push_event_property, push_event_property_with, push_text, timezone_text, Props,
};
use crate::numbers::{padded, push_padded};
use crate::text::{
    before_first, chars_of, extend_chars, join_chars, join_with, replace_all,
    replace_seq, same_chars, second_piece, split_once, starts, starts_with_chars, string_of,
    strip_end, strip_end_chars, third_piece, concat_reversed, concat_reversed_chars, pieces,
    split_all, swap_char, swap_chars, lemma_pieces_nonempty,
};

verus! {

/// An event as the free-text variant of the page writes it.
#[derive(Clone, Debug, PartialEq, Eq)]
pub struct RaplaEvent {
    pub title: String,
    pub lecturers: String,
    pub date: String,
    pub start: String,
    pub end: String,
    pub location: String,
}

/// Reads free-text pages of the timetable at `url`.
pub struct RaplaScraper {
    pub url: String,
    pub selectors: Selectors,
}

/// A whole number in decimal, with a minus sign if negative.
pub open spec fn int_text(v: int) -> Seq<char> {
    if v < 0 {
        "-"@ + padded((-v) as nat, 1)
    } else {
        padded(v as nat, 1)
    }
}

/// The address of the page for the week of the given day.
pub open spec fn page_url(base: Seq<char>, year: int, month: int, day: int) -> Seq<char> {
    base + "&day="@ + int_text(day) + "&month="@ + int_text(month) + "&year="@ + int_text(year)
}

fn push_int(out: &mut Vec<char>, v: i64)
    ensures
        final(out)@ == old(out)@ + int_text(v as int),
{
    if v < 0 {
        extend_chars(out, &chars_of("-"));
        if v == i64::MIN {
            push_padded(out, 9223372036854775808u64, 1);
        } else {
            push_padded(out, (0 - v) as u64, 1);
        }
        assert(final(out)@ =~= old(out)@ + int_text(v as int));
    } else {
        push_padded(out, v as u64, 1);
    }
}

impl RaplaScraper {
    /// A reader for the timetable at `url`, with the page's queries
    /// compiled.
    pub fn new(url: String) -> (r: RaplaScraper)
        ensures
            r.url@ == url@,
            r.selectors.wf(),
    {
        RaplaScraper { url, selectors: Selectors::parse() }
    }

    /// The address of the page for the week of the given day.
    pub fn format_url(&self, year: i32, month: u32, day: u32) -> (r: String)
        ensures
            r@ == page_url(self.url@, year as int, month as int, day as int),
    {
        let mut out = chars_of(self.url.as_str());
        extend_chars(&mut out, &chars_of("&day="));
        push_int(&mut out, day as i64);
        extend_chars(&mut out, &chars_of("&month="));
        push_int(&mut out, month as i64);
        extend_chars(&mut out, &chars_of("&year="));
        push_int(&mut out, year as i64);
        assert(out@ =~= page_url(self.url@, year as int, month as int, day as int));
        string_of(&out)
    }
}

/// How long cached feeds live and how large the cache may grow.
#[derive(Clone, Copy, Debug, PartialEq, Eq, Structural)]
pub struct Config {
    pub ttl_seconds: u64,
    pub max_size: u64,
}

/// An event cell of the free-text variant: the text of its first `strong`,
/// the cells of its info table, its person, `div` and resource texts.
#[derive(Clone, Debug)]
pub struct Block {
    pub kind: Option<String>,
    pub info: Option<Vec<String>>,
    pub persons: Vec<String>,
    pub divs: Vec<String>,
    pub resources: Vec<String>,
}

/// A free-text page: whether it holds the calendar, and its event cells.
#[derive(Clone, Debug)]
pub struct BlockPage {
    pub has_calendar: bool,
    pub blocks: Vec<Block>,
}

pub struct BlockView {
    pub kind: Option<Seq<char>>,
    pub info: Option<Seq<Seq<char>>>,
    pub persons: Seq<Seq<char>>,
    pub divs: Seq<Seq<char>>,
    pub resources: Seq<Seq<char>>,
}

pub struct RaplaEventView {
    pub title: Seq<char>,
    pub lecturers: Seq<char>,
    pub date: Seq<char>,
    pub start: Seq<char>,
    pub end: Seq<char>,
    pub location: Seq<char>,
}

impl View for Block {
    type V = BlockView;

    open spec fn view(&self) -> BlockView {
        BlockView {
            kind: crate::model::opt_view(self.kind),
            info: match self.info {
                Some(v) => Some(texts(v@)),
                None => None,
            },
            persons: texts(self.persons@),
            divs: texts(self.divs@),
            resources: texts(self.resources@),
        }
    }
}

impl View for RaplaEvent {
    type V = RaplaEventView;

    open spec fn view(&self) -> RaplaEventView {
        RaplaEventView {
            title: self.title@,
            lecturers: self.lecturers@,
            date: self.date@,
            start: self.start@,
            end: self.end@,
            location: self.location@,
        }
    }
}

pub open spec fn texts(v: Seq<String>) -> Seq<Seq<char>> {
    v.map_values(|s: String| s@)
}

pub open spec fn blocks_view(v: Seq<Block>) -> Seq<BlockView> {
    v.map_values(|b: Block| b@)
}

pub open spec fn rapla_view(v: Seq<RaplaEvent>) -> Seq<RaplaEventView> {
    v.map_values(|e: RaplaEvent| e@)
}

/// Kinds of entry that are timetable events.
pub open spec fn is_event_kind(kind: Seq<char>) -> bool {
    starts(kind, "Vorlesung"@) || starts(kind, "Online-Format"@) || starts(kind, "Klausur"@)
}

/// Titles of room bookings, and the bare exam placeholder that has no real
/// time or place.
pub open spec fn is_placeholder(title: Seq<char>) -> bool {
    starts(title, "Belegung"@) || starts(title, "Raum belegt"@) || title == "Klausur"@
}

/// What one block gives: none if a part that it needs is missing, no event
/// if it is filtered out, else the event.
pub open spec fn block_event(b: BlockView) -> Option<Option<RaplaEventView>> {
    match b.kind {
        None => None,
        Some(kind) => if !is_event_kind(kind) {
            Some(None)
        } else {
            match b.info {
                None => None,
                Some(cells) => if cells.len() < 2 {
                    None
                } else {
                    let title = replace_all(cells[1], "&amp;"@, "&"@);
                    if is_placeholder(title) {
                        Some(None)
                    } else if b.divs.len() < 2 {
                        None
                    } else {
                        let info = b.divs[1];
                        match (second_piece(info, " "@), third_piece(info, " "@)) {
                            (Some(date), Some(times)) => match second_piece(times, "-"@) {
                                None => None,
                                Some(end) => Some(
                                    Some(
                                        RaplaEventView {
                                            title,
                                            lecturers: join_with(
                                                b.persons.map_values(
                                                    |p: Seq<char>| strip_end(p, ','),
                                                ),
                                                " & "@,
                                            ),
                                            date,
                                            start: before_first(times, "-"@),
                                            end,
                                            location: if starts(kind, "Online-Format"@) {
                                                "Online"@
                                            } else {
                                                join_with(b.resources, ", "@)
                                            },
                                        },
                                    ),
                                ),
                            },
                            _ => None,
                        }
                    }
                }
            }
        },
    }
}

/// The events of the blocks from block `i` on; none if one of them lacks a
/// part that it needs.
pub open spec fn blocks_from(bs: Seq<BlockView>, i: int) -> Option<Seq<RaplaEventView>>
    decreases bs.len() - i,
{
    if i < 0 || i >= bs.len() {
        Some(Seq::empty())
    } else {
        match block_event(bs[i]) {
            None => None,
            Some(found) => match blocks_from(bs, i + 1) {
                None => None,
                Some(rest) => match found {
                    Some(e) => Some(seq![e] + rest),
                    None => Some(rest),
                },
            },
        }
    }
}

/// The events of a free-text page; none if it holds no calendar.
pub open spec fn page_events(p: Seq<BlockView>, has_calendar: bool) -> Option<
    Seq<RaplaEventView>,
> {
    if has_calendar {
        blocks_from(p, 0)
    } else {
        None
    }
}

pub open spec fn then_some(pre: Seq<RaplaEventView>, r: Option<Seq<RaplaEventView>>) -> Option<
    Seq<RaplaEventView>,
> {
    match r {
        Some(s) => Some(pre + s),
        None => None,
    }
}

fn all_chars(v: &Vec<String>) -> (r: Vec<Vec<char>>)
    ensures
        r@.map_values(|p: Vec<char>| p@) == texts(v@),
{
    let mut out: Vec<Vec<char>> = Vec::new();
    let mut i: usize = 0;
    while i < v.len()
        invariant
            i <= v@.len(),
            out@.len() == i,
            forall|k: int| 0 <= k < i ==> #[trigger] out@[k]@ == v@[k]@,
        decreases v@.len() - i,
    {
        out.push(chars_of(v[i].as_str()));
        i += 1;
    }
    assert(out@.map_values(|p: Vec<char>| p@) =~= texts(v@));
    out
}

fn stripped_chars(v: &Vec<String>) -> (r: Vec<Vec<char>>)
    ensures
        r@.map_values(|p: Vec<char>| p@) == texts(v@).map_values(|p: Seq<char>| strip_end(p, ',')),
{
    let mut out: Vec<Vec<char>> = Vec::new();
    let mut i: usize = 0;
    while i < v.len()
        invariant
            i <= v@.len(),
            out@.len() == i,
            forall|k: int| 0 <= k < i ==> #[trigger] out@[k]@ == strip_end(v@[k]@, ','),
        decreases v@.len() - i,
    {
        out.push(strip_end_chars(&chars_of(v[i].as_str()), ','));
        i += 1;
    }
    assert(out@.map_values(|p: Vec<char>| p@) =~= texts(v@).map_values(
        |p: Seq<char>| strip_end(p, ','),
    ));
    out
}

/// Reads one block: none if a part is missing, no event if filtered out.
pub fn event_of_block(b: &Block) -> (r: Option<Option<RaplaEvent>>)
    ensures
        block_event(b@) == match r {
            None => None,
            Some(None) => Some(None),
            Some(Some(e)) => Some(Some(e@)),
        },
{
    let kind = match &b.kind {
        None => return None,
        Some(k) => chars_of(k.as_str()),
    };
    let online = chars_of("Online-Format");
    if !(starts_with_chars(&kind, &chars_of("Vorlesung")) || starts_with_chars(&kind, &online)
        || starts_with_chars(&kind, &chars_of("Klausur"))) {
        return Some(None);
    }
    let cells = match &b.info {
        None => return None,
        Some(c) => c,
    };
    if cells.len() < 2 {
        return None;
    }
    let title = replace_seq(&chars_of(cells[1].as_str()), &chars_of("&amp;"), &chars_of("&"));
    if starts_with_chars(&title, &chars_of("Belegung")) || starts_with_chars(
        &title,
        &chars_of("Raum belegt"),
    ) || same_chars(&title, &chars_of("Klausur")) {
        return Some(None);
    }
    if b.divs.len() < 2 {
        return None;
    }
    let info = chars_of(b.divs[1].as_str());
    let space = chars_of(" ");
    let rest = match split_once(&info, &space).1 {
        None => return None,
        Some(rest) => rest,
    };
    let (date, rest2) = split_once(&rest, &space);
    let times = match rest2 {
        None => return None,
        Some(r2) => split_once(&r2, &space).0,
    };
    let dash = chars_of("-");
    let (start, rest3) = split_once(&times, &dash);
    let end = match rest3 {
        None => return None,
        Some(r3) => split_once(&r3, &dash).0,
    };
    let lecturers = join_chars(&stripped_chars(&b.persons), &chars_of(" & "));
    let location = if starts_with_chars(&kind, &online) {
        chars_of("Online")
    } else {
        join_chars(&all_chars(&b.resources), &chars_of(", "))
    };
    Some(
        Some(
            RaplaEvent {
                title: string_of(&title),
                lecturers: string_of(&lecturers),
                date: string_of(&date),
                start: string_of(&start),
                end: string_of(&end),
                location: string_of(&location),
            },
        ),
    )
}

/// Reads the events of a free-text page; none if it holds no calendar or a
/// block lacks a part that it needs.
pub fn events_of_page(p: &BlockPage) -> (r: Option<Vec<RaplaEvent>>)
    ensures
        page_events(blocks_view(p.blocks@), p.has_calendar) == match r {
            None => None,
            Some(v) => Some(rapla_view(v@)),
        },
{
    if !p.has_calendar {
        return None;
    }
    let ghost bs = blocks_view(p.blocks@);
    let mut out: Vec<RaplaEvent> = Vec::new();
    let mut i: usize = 0;
    assert(rapla_view(out@) =~= Seq::<RaplaEventView>::empty());
    assert(then_some(Seq::empty(), blocks_from(bs, 0)) == blocks_from(bs, 0)) by {
        if let Some(s) = blocks_from(bs, 0) {
            assert(Seq::<RaplaEventView>::empty() + s =~= s);
        }
    }
    while i < p.blocks.len()
        invariant
            i <= p.blocks@.len(),
            bs == blocks_view(p.blocks@),
            p.has_calendar,
            blocks_from(bs, 0) == then_some(rapla_view(out@), blocks_from(bs, i as int)),
        decreases p.blocks@.len() - i,
    {
        let r = event_of_block(&p.blocks[i]);
        assert(bs[i as int] == p.blocks@[i as int]@);
        match r {
            None => return None,
            Some(None) => {},
            Some(Some(e)) => {
                proof {
                    if let Some(s) = blocks_from(bs, i + 1) {
                        assert(rapla_view(out@) + (seq![e@] + s) =~= rapla_view(out@.push(e))
                            + s);
                    }
                }
                out.push(e);
            },
        }
        i += 1;
    }
    proof {
        assert(rapla_view(out@) + Seq::<RaplaEventView>::empty() =~= rapla_view(out@));
    }
    Some(out)
}

impl RaplaScraper {
    /// Reads the events of a fetched free-text page: what `page_events`
    /// gives for the blocks that scraper finds in it.
    pub fn parse_page(&self, html: &str) -> (r: Option<Vec<RaplaEvent>>)
        requires
            self.selectors.wf(),
        ensures
            page_events(block_page(html@).0, block_page(html@).1) == match r {
                None => None,
                Some(v) => Some(rapla_view(v@)),
            },
    {
        let page = read_block_page(html, &self.selectors);
        events_of_page(&page)
    }
}

/// The `YYYYMMDD` form of a `DD.MM.YYYY` date: its dot-separated pieces
/// last first, with `20` before a two-digit year.
pub open spec fn compact_date(d: Seq<char>) -> Seq<char> {
    let ps = pieces(d, "."@);
    (if ps.last().len() == 2 { "20"@ } else { Seq::empty() }) + concat_reversed(ps)
}

/// A floating local timestamp from a `DD.MM.YYYY` date and an `HH:MM` time.
pub open spec fn compact_stamp(d: Seq<char>, t: Seq<char>) -> Seq<char> {
    compact_date(d) + "T"@ + replace_all(t, ":"@, Seq::empty()) + "00"@
}

/// A property that is written only when its value is not empty.
pub open spec fn nonempty_prop(key: Seq<char>, value: Seq<char>) -> Props {
    if value.len() == 0 {
        Seq::empty()
    } else {
        seq![(key, escaped(value))]
    }
}

/// The properties of the event block of a free-text event.
pub open spec fn rapla_props(e: RaplaEventView) -> Props {
    let start = compact_stamp(e.date, e.start);
    seq![
        ("UID"@, escaped(start + "_"@ + swap_char(e.title, ' ', '-'))),
        ("DTSTAMP"@, start),
        ("SUMMARY"@, escaped(e.title)),
        (in_zone("DTSTART"@), start),
        (in_zone("DTEND"@), compact_stamp(e.date, e.end)),
    ] + nonempty_prop("ORGANIZER"@, e.lecturers) + nonempty_prop("LOCATION"@, e.location)
}

/// The event block of a free-text event.
pub open spec fn rapla_event_text(e: RaplaEventView) -> Seq<char> {
    component_text("VEVENT"@, rapla_props(e), Seq::empty())
}

/// The whole feed named `name` of free-text events.
pub open spec fn rapla_feed_text(name: Seq<char>, evs: Seq<RaplaEventView>) -> Seq<char> {
    component_text(
        "VCALENDAR"@,
        base_props(name),
        seq![timezone_text()] + evs.map_values(|e: RaplaEventView| rapla_event_text(e)),
    )
}

fn compact_stamp_chars(d: &String, t: &String) -> (r: Vec<char>)
    ensures
        r@ == compact_stamp(d@, t@),
{
    let parts = split_all(&chars_of(d.as_str()), 0, &chars_of("."));
    proof {
        assert(d@.subrange(0, d@.len() as int) =~= d@);
        lemma_pieces_nonempty(d@, "."@);
    }
    let mut out: Vec<char> = Vec::new();
    if parts[parts.len() - 1].len() == 2 {
        push_text(&mut out, "20");
    }
    extend_chars(&mut out, &concat_reversed_chars(&parts));
    push_text(&mut out, "T");
    let nothing: Vec<char> = Vec::new();
    let no_colon = replace_seq(&chars_of(t.as_str()), &chars_of(":"), &nothing);
    assert(nothing@ =~= Seq::<char>::empty());
    extend_chars(&mut out, &no_colon);
    push_text(&mut out, "00");
    assert(out@ =~= compact_stamp(d@, t@));
    out
}

fn push_nonempty(e: &mut IcsEvent<'static>, key: &str, value: &String)
    ensures
        event_props(*final(e)) == event_props(*old(e)) + nonempty_prop(key@, value@),
        event_subs(*final(e)) == event_subs(*old(e)),
{
    if value.as_str().is_empty() {
        assert(event_props(*old(e)) + Seq::<(Seq<char>, Seq<char>)>::empty() =~= event_props(
            *old(e),
        ));
    } else {
        let escaped_value = escape(value.as_str());
        push_event_property(e, key, escaped_value.as_str());
        assert(event_props(*final(e)) =~= event_props(*old(e)) + nonempty_prop(key@, value@));
    }
}

fn rapla_component(event: &RaplaEvent) -> (r: IcsEvent<'static>)
    ensures
        event_props(r) == rapla_props(event@),
        event_subs(r) == Seq::<Seq<char>>::empty(),
{
    let start = string_of(&compact_stamp_chars(&event.date, &event.start));
    let end = string_of(&compact_stamp_chars(&event.date, &event.end));
    let mut uid = compact_stamp_chars(&event.date, &event.start);
    push_text(&mut uid, "_");
    extend_chars(&mut uid, &swap_chars(&chars_of(event.title.as_str()), ' ', '-'));
    let mut ev = new_event(escape(string_of(&uid).as_str()).as_str(), start.as_str());
    push_event_property(&mut ev, "SUMMARY", escape(event.title.as_str()).as_str());
    push_event_property_with(&mut ev, "DTSTART", start.as_str(), "TZID", "Europe/Berlin");
    push_event_property_with(&mut ev, "DTEND", end.as_str(), "TZID", "Europe/Berlin");
    push_nonempty(&mut ev, "ORGANIZER", &event.lecturers);
    push_nonempty(&mut ev, "LOCATION", &event.location);
    assert(event_props(ev) =~= rapla_props(event@));
    ev
}

/// The event block of a free-text event.
pub fn rapla_event_to_ics(event: &RaplaEvent) -> (r: String)
    ensures
        r@ == rapla_event_text(event@),
{
    event_display(&rapla_component(event))
}

/// The whole feed named `name` of free-text events, in their order.
pub fn rapla_feed(name: &str, events: &Vec<RaplaEvent>) -> (r: String)
    ensures
        r@ == rapla_feed_text(name@, rapla_view(events@)),
{
    let ghost evs = rapla_view(events@);
    let mut c = ics_base(name);
    let mut i: usize = 0;
    while i < events.len()
        invariant
            i <= events@.len(),
            evs == rapla_view(events@),
            calendar_props(c) == base_props(name@),
            calendar_subs(c) == seq![timezone_text()] + evs.subrange(0, i as int).map_values(
                |e: RaplaEventView| rapla_event_text(e),
            ),
        decreases events@.len() - i,
    {
        calendar_add_event(&mut c, rapla_component(&events[i]));
        assert(seq![timezone_text()] + evs.subrange(0, (i + 1) as int).map_values(
            |e: RaplaEventView| rapla_event_text(e),
        ) =~= (seq![timezone_text()] + evs.subrange(0, i as int).map_values(
            |e: RaplaEventView| rapla_event_text(e),
        )).push(rapla_event_text(evs[i as int])));
        i += 1;
    }
    assert(evs.subrange(0, i as int) =~= evs);
    calendar_display(&c)
}

} // verus!
