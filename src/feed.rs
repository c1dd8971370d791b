//! Writing a calendar as iCalendar text: a fixed Central European time zone
//! block, then one event block per event.

use vstd::prelude::*;

use ics::{
    Daylight as IcsDaylight, Event as IcsEvent, ICalendar as IcsCalendar, Standard as IcsStandard,
    TimeZone as IcsTimeZone,
};

use crate::model::{Calendar, CalendarView, Date, Event, EventView, Time};
use crate::numbers::{padded, push_padded};
use crate::text::{chars_of, extend_chars, string_of, swap_char, swap_chars};

verus! {

/// `s` escaped as iCalendar TEXT: a backslash before each comma, semicolon
/// and backslash, and each line break (LF, CRLF or a lone CR) written `\n`.
pub open spec fn escaped(s: Seq<char>) -> Seq<char>
    decreases s.len(),
{
    if s.len() == 0 {
        Seq::empty()
    } else if s[0] == ',' || s[0] == ';' || s[0] == '\\' {
        seq!['\\', s[0]] + escaped(s.drop_first())
    } else if s[0] == '\n' {
        seq!['\\', 'n'] + escaped(s.drop_first())
    } else if s[0] == '\r' {
        if s.len() > 1 && s[1] == '\n' {
            escaped(s.drop_first())
        } else {
            seq!['\\', 'n'] + escaped(s.drop_first())
        }
    } else {
        seq![s[0]] + escaped(s.drop_first())
    }
}

/// How many bytes UTF-8 takes for `c`.
pub open spec fn utf8_width(c: char) -> nat {
    if c <= '\u{7f}' {
        1
    } else if c <= '\u{7ff}' {
        2
    } else if c <= '\u{ffff}' {
        3
    } else {
        4
    }
}

/// How many bytes UTF-8 takes for `s`.
pub open spec fn byte_len(s: Seq<char>) -> nat
    decreases s.len(),
{
    if s.len() == 0 {
        0
    } else {
        byte_len(s.drop_last()) + utf8_width(s.last())
    }
}

/// From `i` on, the last character of `s` (but its very last) that starts
/// within the first 76 bytes.
pub open spec fn cut_from(s: Seq<char>, i: int) -> int
    decreases s.len() - i,
{
    if 0 <= i && i + 1 < s.len() && byte_len(s.subrange(0, i + 1)) <= 75 {
        cut_from(s, i + 1)
    } else {
        i
    }
}

/// `s` folded as ics folds a content line: while it is longer than 75
/// bytes, break it before the last character that starts within the first
/// 76 bytes, with CRLF and a space.
pub open spec fn folded(s: Seq<char>) -> Seq<char>
    decreases s.len(),
{
    if byte_len(s) <= 75 {
        s
    } else {
        let k = cut_from(s, 0);
        if k <= 0 || k >= s.len() {
            s
        } else {
            s.subrange(0, k) + "\r\n "@ + folded(s.subrange(k, s.len() as int))
        }
    }
}

/// The content line that ics writes for a property whose name, with its
/// parameters, is `head`: `head:value`, folded, and CRLF.
pub open spec fn content_line(head: Seq<char>, value: Seq<char>) -> Seq<char> {
    folded(head + ":"@ + value) + "\r\n"@
}

/// The properties of a component, each as the text before its colon (name
/// and parameters) and its value.
pub type Props = Seq<(Seq<char>, Seq<char>)>;

/// Relies on `ics::escape_text`: escapes as `escaped` states.
#[verifier::external_body]
pub(crate) fn escape(s: &str) -> (r: String)
    ensures
        r@ == escaped(s@),
{
    ics::escape_text(s).into_owned()
}

pub open spec fn lines(props: Props) -> Seq<char>
    decreases props.len(),
{
    if props.len() == 0 {
        Seq::empty()
    } else {
        lines(props.drop_last()) + content_line(props.last().0, props.last().1)
    }
}

pub open spec fn concat(parts: Seq<Seq<char>>) -> Seq<char>
    decreases parts.len(),
{
    if parts.len() == 0 {
        Seq::empty()
    } else {
        concat(parts.drop_last()) + parts.last()
    }
}

/// The text that ics writes for a component: its `BEGIN` line, its
/// properties, its subcomponents and its `END` line.
pub open spec fn component_text(name: Seq<char>, props: Props, subs: Seq<Seq<char>>) -> Seq<char> {
    begin(name) + lines(props) + concat(subs) + end(name)
}

/// The properties of an ics event.
pub uninterp spec fn event_props(e: IcsEvent<'static>) -> Props;

/// The text of each alarm of an ics event.
pub uninterp spec fn event_subs(e: IcsEvent<'static>) -> Seq<Seq<char>>;

/// The properties of an ics daylight-saving observance.
pub uninterp spec fn daylight_props(d: IcsDaylight<'static>) -> Props;

/// The properties of an ics standard-time observance.
pub uninterp spec fn standard_props(s: IcsStandard<'static>) -> Props;

/// The properties of an ics time zone.
pub uninterp spec fn zone_props(z: IcsTimeZone<'static>) -> Props;

/// The text of each observance of an ics time zone.
pub uninterp spec fn zone_subs(z: IcsTimeZone<'static>) -> Seq<Seq<char>>;

/// The properties of an ics calendar.
pub uninterp spec fn calendar_props(c: IcsCalendar<'static>) -> Props;

/// The text of each component of an ics calendar.
pub uninterp spec fn calendar_subs(c: IcsCalendar<'static>) -> Seq<Seq<char>>;

#[verifier::external_type_specification]
#[verifier::external_body]
pub struct ExIcsEvent<'a>(IcsEvent<'a>);

#[verifier::external_type_specification]
#[verifier::external_body]
pub struct ExIcsDaylight<'a>(IcsDaylight<'a>);

#[verifier::external_type_specification]
#[verifier::external_body]
pub struct ExIcsStandard<'a>(IcsStandard<'a>);

#[verifier::external_type_specification]
#[verifier::external_body]
pub struct ExIcsTimeZone<'a>(IcsTimeZone<'a>);

#[verifier::external_type_specification]
#[verifier::external_body]
pub struct ExIcsCalendar<'a>(IcsCalendar<'a>);

/// Relies on ics's `Event::new`: an event with its `UID` and `DTSTAMP`.
#[verifier::external_body]
pub(crate) fn new_event(uid: &str, stamp: &str) -> (r: IcsEvent<'static>)
    ensures
        event_props(r) == seq![("UID"@, uid@), ("DTSTAMP"@, stamp@)],
        event_subs(r) == Seq::<Seq<char>>::empty(),
{
    IcsEvent::new(uid.to_string(), stamp.to_string())
}

/// Relies on ics's `Event::push` with `Property::new`: one more property.
#[verifier::external_body]
pub(crate) fn push_event_property(e: &mut IcsEvent<'static>, key: &str, value: &str)
    ensures
        event_props(*final(e)) == event_props(*old(e)).push((key@, value@)),
        event_subs(*final(e)) == event_subs(*old(e)),
{
    e.push(ics::components::Property::new(key.to_string(), value.to_string()));
}

/// Relies on ics's `Event::push` with `Property::new` and `Property::add`:
/// one more property, with one parameter.
#[verifier::external_body]
pub(crate) fn push_event_property_with(
    e: &mut IcsEvent<'static>,
    key: &str,
    value: &str,
    param: &str,
    param_value: &str,
)
    ensures
        event_props(*final(e)) == event_props(*old(e)).push(
            (key@ + ";"@ + param@ + "="@ + param_value@, value@),
        ),
        event_subs(*final(e)) == event_subs(*old(e)),
{
    let mut p = ics::components::Property::new(key.to_string(), value.to_string());
    p.add(ics::components::Parameter::new(param.to_string(), param_value.to_string()));
    e.push(p);
}

/// Relies on the display of ics's `Event`.
#[verifier::external_body]
pub(crate) fn event_display(e: &IcsEvent<'static>) -> (r: String)
    ensures
        r@ == component_text("VEVENT"@, event_props(*e), event_subs(*e)),
{
    e.to_string()
}

/// Relies on ics's `Daylight::new`.
#[verifier::external_body]
fn new_daylight(start: &str, from: &str, to: &str) -> (r: IcsDaylight<'static>)
    ensures
        daylight_props(r) == seq![("DTSTART"@, start@), ("TZOFFSETFROM"@, from@), ("TZOFFSETTO"@, to@)],
{
    IcsDaylight::new(start.to_string(), from.to_string(), to.to_string())
}

/// Relies on ics's `Daylight::push` with `Property::new`.
#[verifier::external_body]
fn push_daylight_property(d: &mut IcsDaylight<'static>, key: &str, value: &str)
    ensures
        daylight_props(*final(d)) == daylight_props(*old(d)).push((key@, value@)),
{
    d.push(ics::components::Property::new(key.to_string(), value.to_string()));
}

/// Relies on ics's `Standard::new`.
#[verifier::external_body]
fn new_standard(start: &str, from: &str, to: &str) -> (r: IcsStandard<'static>)
    ensures
        standard_props(r) == seq![("DTSTART"@, start@), ("TZOFFSETFROM"@, from@), ("TZOFFSETTO"@, to@)],
{
    IcsStandard::new(start.to_string(), from.to_string(), to.to_string())
}

/// Relies on ics's `Standard::push` with `Property::new`.
#[verifier::external_body]
fn push_standard_property(s: &mut IcsStandard<'static>, key: &str, value: &str)
    ensures
        standard_props(*final(s)) == standard_props(*old(s)).push((key@, value@)),
{
    s.push(ics::components::Property::new(key.to_string(), value.to_string()));
}

/// Relies on ics's `TimeZone::daylight`: a zone with its `TZID` and one
/// daylight-saving observance.
#[verifier::external_body]
fn zone_with_daylight(tzid: &str, d: IcsDaylight<'static>) -> (r: IcsTimeZone<'static>)
    ensures
        zone_props(r) == seq![("TZID"@, tzid@)],
        zone_subs(r) == seq![component_text("DAYLIGHT"@, daylight_props(d), Seq::empty())],
{
    IcsTimeZone::daylight(tzid.to_string(), d)
}

/// Relies on ics's `TimeZone::add_standard`.
#[verifier::external_body]
fn zone_add_standard(z: &mut IcsTimeZone<'static>, s: IcsStandard<'static>)
    ensures
        zone_props(*final(z)) == zone_props(*old(z)),
        zone_subs(*final(z)) == zone_subs(*old(z)).push(
            component_text("STANDARD"@, standard_props(s), Seq::empty()),
        ),
{
    z.add_standard(s);
}

/// Relies on ics's `ICalendar::new`: a calendar with its `VERSION` and
/// `PRODID`.
#[verifier::external_body]
pub(crate) fn new_calendar(version: &str, prodid: &str) -> (r: IcsCalendar<'static>)
    ensures
        calendar_props(r) == seq![("VERSION"@, version@), ("PRODID"@, prodid@)],
        calendar_subs(r) == Seq::<Seq<char>>::empty(),
{
    IcsCalendar::new(version.to_string(), prodid.to_string())
}

/// Relies on ics's `ICalendar::add_timezone`.
#[verifier::external_body]
fn calendar_add_timezone(c: &mut IcsCalendar<'static>, z: IcsTimeZone<'static>)
    ensures
        calendar_props(*final(c)) == calendar_props(*old(c)),
        calendar_subs(*final(c)) == calendar_subs(*old(c)).push(
            component_text("VTIMEZONE"@, zone_props(z), zone_subs(z)),
        ),
{
    c.add_timezone(z);
}

/// Relies on ics's `ICalendar::add_event`.
#[verifier::external_body]
pub(crate) fn calendar_add_event(c: &mut IcsCalendar<'static>, e: IcsEvent<'static>)
    ensures
        calendar_props(*final(c)) == calendar_props(*old(c)),
        calendar_subs(*final(c)) == calendar_subs(*old(c)).push(
            component_text("VEVENT"@, event_props(e), event_subs(e)),
        ),
{
    c.add_event(e);
}

/// Relies on the display of ics's `ICalendar`.
#[verifier::external_body]
pub(crate) fn calendar_display(c: &IcsCalendar<'static>) -> (r: String)
    ensures
        r@ == component_text("VCALENDAR"@, calendar_props(*c), calendar_subs(*c)),
{
    c.to_string()
}

pub open spec fn begin(name: Seq<char>) -> Seq<char> {
    "BEGIN:"@ + name + "\r\n"@
}

pub open spec fn end(name: Seq<char>) -> Seq<char> {
    "END:"@ + name + "\r\n"@
}

/// A four-digit year as chrono's `%Y` writes it: zero-padded within
/// 0..=9999, otherwise signed and at least four digits.
pub open spec fn year_text(y: int) -> Seq<char> {
    if 0 <= y <= 9999 {
        padded(y as nat, 4)
    } else if y < 0 {
        "-"@ + padded((-y) as nat, 4)
    } else {
        "+"@ + padded(y as nat, 4)
    }
}

/// A floating local timestamp `YYYYMMDDTHHMM00`.
pub open spec fn stamp(d: Date, t: Time) -> Seq<char> {
    year_text(d.year as int) + padded(d.month as nat, 2) + padded(d.day as nat, 2) + "T"@
        + padded(t.hour as nat, 2) + padded(t.minute as nat, 2) + "00"@
}

/// The identifier of an event: its start timestamp, `_`, and its title
/// with spaces written as hyphens.
pub open spec fn event_uid(date: Date, start: Time, title: Seq<char>) -> Seq<char> {
    stamp(date, start) + "_"@ + swap_char(title, ' ', '-')
}

pub open spec fn zone_block(
    kind: Seq<char>,
    start: Seq<char>,
    from: Seq<char>,
    to: Seq<char>,
    name: Seq<char>,
    rule: Seq<char>,
) -> Seq<char> {
    component_text(
        kind,
        seq![("DTSTART"@, start), ("TZOFFSETFROM"@, from), ("TZOFFSETTO"@, to), ("TZNAME"@, name), ("RRULE"@, rule)],
        Seq::empty(),
    )
}

/// The time zone block: Europe/Berlin, on summer time from the last Sunday
/// of March and on standard time from the last Sunday of October.
pub open spec fn timezone_text() -> Seq<char> {
    component_text(
        "VTIMEZONE"@,
        seq![("TZID"@, "Europe/Berlin"@)],
        seq![
            zone_block("DAYLIGHT"@, "19700329T020000"@, "+0100"@, "+0200"@, "CEST"@, "FREQ=YEARLY;BYMONTH=3;BYDAY=-1SU"@),
            zone_block("STANDARD"@, "19701025T030000"@, "+0200"@, "+0100"@, "CET"@, "FREQ=YEARLY;BYMONTH=10;BYDAY=-1SU"@),
        ],
    )
}

/// The header properties of a feed named `name`.
pub open spec fn base_props(name: Seq<char>) -> Props {
    seq![("VERSION"@, "2.0"@), ("PRODID"@, escaped(name))]
}

/// A property name bound to the feed's time zone.
pub open spec fn in_zone(key: Seq<char>) -> Seq<char> {
    key + ";"@ + "TZID"@ + "="@ + "Europe/Berlin"@
}

pub open spec fn optional_prop(key: Seq<char>, value: Option<Seq<char>>) -> Props {
    match value {
        Some(v) => seq![(key, escaped(v))],
        None => Seq::empty(),
    }
}

/// The properties of the event block of one event.
pub open spec fn event_props_of(e: EventView) -> Props {
    seq![
        ("UID"@, escaped(event_uid(e.date, e.start, e.title))),
        ("DTSTAMP"@, stamp(e.date, e.start)),
        (in_zone("DTSTART"@), stamp(e.date, e.start)),
        (in_zone("DTEND"@), stamp(e.date, e.end)),
        ("SUMMARY"@, escaped(e.title)),
    ] + optional_prop("LOCATION"@, e.location) + optional_prop("ORGANIZER"@, e.organizer)
}

/// The event block of one event.
pub open spec fn event_text(e: EventView) -> Seq<char> {
    component_text("VEVENT"@, event_props_of(e), Seq::empty())
}

pub open spec fn event_blocks(evs: Seq<EventView>) -> Seq<Seq<char>> {
    evs.map_values(|e: EventView| event_text(e))
}

/// The whole feed of a calendar.
pub open spec fn calendar_text(c: CalendarView) -> Seq<char> {
    component_text("VCALENDAR"@, base_props(c.name), seq![timezone_text()] + event_blocks(c.events))
}

pub(crate) fn push_text(out: &mut Vec<char>, s: &str)
    ensures
        final(out)@ == old(out)@ + s@,
{
    extend_chars(out, &chars_of(s));
}

fn push_year(out: &mut Vec<char>, y: i32)
    ensures
        final(out)@ == old(out)@ + year_text(y as int),
{
    if 0 <= y && y <= 9999 {
        push_padded(out, y as u64, 4);
    } else if y < 0 {
        push_text(out, "-");
        push_padded(out, (0 - (y as i64)) as u64, 4);
        assert(final(out)@ =~= old(out)@ + year_text(y as int));
    } else {
        push_text(out, "+");
        push_padded(out, y as u64, 4);
        assert(final(out)@ =~= old(out)@ + year_text(y as int));
    }
}

/// The floating local timestamp of a date and time.
pub fn timestamp(d: Date, t: Time) -> (r: Vec<char>)
    ensures
        r@ == stamp(d, t),
{
    let mut out: Vec<char> = Vec::new();
    push_year(&mut out, d.year);
    push_padded(&mut out, d.month as u64, 2);
    push_padded(&mut out, d.day as u64, 2);
    push_text(&mut out, "T");
    push_padded(&mut out, t.hour as u64, 2);
    push_padded(&mut out, t.minute as u64, 2);
    push_text(&mut out, "00");
    assert(out@ =~= stamp(d, t));
    out
}

fn observance_daylight() -> (r: IcsDaylight<'static>)
    ensures
        component_text("DAYLIGHT"@, daylight_props(r), Seq::empty()) == zone_block(
            "DAYLIGHT"@,
            "19700329T020000"@,
            "+0100"@,
            "+0200"@,
            "CEST"@,
            "FREQ=YEARLY;BYMONTH=3;BYDAY=-1SU"@,
        ),
{
    let mut d = new_daylight("19700329T020000", "+0100", "+0200");
    push_daylight_property(&mut d, "TZNAME", "CEST");
    push_daylight_property(&mut d, "RRULE", "FREQ=YEARLY;BYMONTH=3;BYDAY=-1SU");
    assert(daylight_props(d) =~= seq![("DTSTART"@, "19700329T020000"@), ("TZOFFSETFROM"@, "+0100"@), ("TZOFFSETTO"@, "+0200"@), ("TZNAME"@, "CEST"@), ("RRULE"@, "FREQ=YEARLY;BYMONTH=3;BYDAY=-1SU"@)]);
    d
}

fn observance_standard() -> (r: IcsStandard<'static>)
    ensures
        component_text("STANDARD"@, standard_props(r), Seq::empty()) == zone_block(
            "STANDARD"@,
            "19701025T030000"@,
            "+0200"@,
            "+0100"@,
            "CET"@,
            "FREQ=YEARLY;BYMONTH=10;BYDAY=-1SU"@,
        ),
{
    let mut s = new_standard("19701025T030000", "+0200", "+0100");
    push_standard_property(&mut s, "TZNAME", "CET");
    push_standard_property(&mut s, "RRULE", "FREQ=YEARLY;BYMONTH=10;BYDAY=-1SU");
    assert(standard_props(s) =~= seq![("DTSTART"@, "19701025T030000"@), ("TZOFFSETFROM"@, "+0200"@), ("TZOFFSETTO"@, "+0100"@), ("TZNAME"@, "CET"@), ("RRULE"@, "FREQ=YEARLY;BYMONTH=10;BYDAY=-1SU"@)]);
    s
}

/// The start of a feed named `name`: its header and the time zone block,
/// to which events are added.
pub fn ics_base(name: &str) -> (r: IcsCalendar<'static>)
    ensures
        calendar_props(r) == base_props(name@),
        calendar_subs(r) == seq![timezone_text()],
{
    let prodid = escape(name);
    let mut c = new_calendar("2.0", prodid.as_str());
    let mut z = zone_with_daylight("Europe/Berlin", observance_daylight());
    zone_add_standard(&mut z, observance_standard());
    assert(zone_subs(z) =~= seq![
        zone_block("DAYLIGHT"@, "19700329T020000"@, "+0100"@, "+0200"@, "CEST"@, "FREQ=YEARLY;BYMONTH=3;BYDAY=-1SU"@),
        zone_block("STANDARD"@, "19701025T030000"@, "+0200"@, "+0100"@, "CET"@, "FREQ=YEARLY;BYMONTH=10;BYDAY=-1SU"@),
    ]);
    calendar_add_timezone(&mut c, z);
    assert(calendar_subs(c) =~= seq![timezone_text()]);
    c
}

fn push_optional(e: &mut IcsEvent<'static>, key: &str, value: &Option<String>)
    ensures
        event_props(*final(e)) == event_props(*old(e)) + optional_prop(
            key@,
            crate::model::opt_view(*value),
        ),
        event_subs(*final(e)) == event_subs(*old(e)),
{
    match value {
        Some(v) => {
            let escaped_value = escape(v.as_str());
            push_event_property(e, key, escaped_value.as_str());
            assert(event_props(*final(e)) =~= event_props(*old(e)) + optional_prop(
                key@,
                crate::model::opt_view(*value),
            ));
        },
        None => {
            assert(event_props(*old(e)) + Seq::<(Seq<char>, Seq<char>)>::empty() =~= event_props(
                *old(e),
            ));
        },
    }
}

/// The ics event of an event.
pub(crate) fn event_component(e: &Event) -> (r: IcsEvent<'static>)
    ensures
        event_props(r) == event_props_of(e@),
        event_subs(r) == Seq::<Seq<char>>::empty(),
{
    let start = string_of(&timestamp(e.date, e.start));
    let end = string_of(&timestamp(e.date, e.end));
    let mut uid = timestamp(e.date, e.start);
    push_text(&mut uid, "_");
    extend_chars(&mut uid, &swap_chars(&chars_of(e.title.as_str()), ' ', '-'));
    assert(uid@ =~= event_uid(e.date, e.start, e.title@));
    let mut ev = new_event(escape(string_of(&uid).as_str()).as_str(), start.as_str());
    push_event_property_with(&mut ev, "DTSTART", start.as_str(), "TZID", "Europe/Berlin");
    push_event_property_with(&mut ev, "DTEND", end.as_str(), "TZID", "Europe/Berlin");
    push_event_property(&mut ev, "SUMMARY", escape(e.title.as_str()).as_str());
    let ghost head = event_props(ev);
    push_optional(&mut ev, "LOCATION", &e.location);
    push_optional(&mut ev, "ORGANIZER", &e.organizer);
    assert(event_props(ev) =~= event_props_of(e@));
    ev
}

impl Event {
    /// The event block of this event.
    pub fn to_ics(&self) -> (r: String)
        ensures
            r@ == event_text(self@),
    {
        event_display(&event_component(self))
    }
}

impl Calendar {
    /// The whole feed of this calendar.
    pub fn to_ics(&self) -> (r: String)
        ensures
            r@ == calendar_text(self@),
    {
        let mut c = ics_base(self.name.as_str());
        let ghost evs = self@.events;
        let mut i: usize = 0;
        while i < self.events.len()
            invariant
                i <= self.events@.len(),
                evs == self@.events,
                calendar_props(c) == base_props(self.name@),
                calendar_subs(c) == seq![timezone_text()] + event_blocks(evs.subrange(0, i as int)),
            decreases self.events@.len() - i,
        {
            calendar_add_event(&mut c, event_component(&self.events[i]));
            assert(seq![timezone_text()] + event_blocks(evs.subrange(0, (i + 1) as int)) =~= (seq![
                timezone_text(),
            ] + event_blocks(evs.subrange(0, i as int))).push(event_text(evs[i as int])));
            i += 1;
        }
        assert(evs.subrange(0, i as int) =~= evs);
        calendar_display(&c)
    }
}

/// The feed of a calendar.
pub fn serialize(calendar: &Calendar) -> (r: String)
    ensures
        r@ == calendar_text(calendar@),
{
    calendar.to_ics()
}

/// A time of day written `HH:MM`.
pub open spec fn clock_text_of(t: Time) -> Seq<char> {
    padded(t.hour as nat, 2) + ":"@ + padded(t.minute as nat, 2)
}

/// A time of day written `HH:MM`, zero-padded.
pub fn clock_text(t: Time) -> (r: String)
    ensures
        r@ == clock_text_of(t),
{
    let mut out: Vec<char> = Vec::new();
    push_padded(&mut out, t.hour as u64, 2);
    push_text(&mut out, ":");
    push_padded(&mut out, t.minute as u64, 2);
    assert(out@ =~= clock_text_of(t));
    string_of(&out)
}

} // verus!
