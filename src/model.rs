//! The calendar that a page is read into: a name and its events.

use vstd::prelude::*;

verus! {

/// A day of the proleptic Gregorian calendar.
#[derive(Clone, Copy, Debug, PartialEq, Eq, Structural)]
pub struct Date {
    pub year: i32,
    pub month: u32,
    pub day: u32,
}

/// A time of day to the minute.
#[derive(Clone, Copy, Debug, PartialEq, Eq, Structural)]
pub struct Time {
    pub hour: u32,
    pub minute: u32,
}

impl Time {
    pub open spec fn wf(self) -> bool {
        self.hour < 24 && self.minute < 60
    }
}

/// One scheduled item on one day.
#[derive(Clone, Debug, PartialEq, Eq)]
pub struct Event {
    pub date: Date,
    pub start: Time,
    pub end: Time,
    pub title: String,
    pub location: Option<String>,
    pub organizer: Option<String>,
}

/// The feed's title and its events in the order of the page.
#[derive(Clone, Debug, PartialEq, Eq)]
pub struct Calendar {
    pub name: String,
    pub events: Vec<Event>,
}

pub struct EventView {
    pub date: Date,
    pub start: Time,
    pub end: Time,
    pub title: Seq<char>,
    pub location: Option<Seq<char>>,
    pub organizer: Option<Seq<char>>,
}

pub struct CalendarView {
    pub name: Seq<char>,
    pub events: Seq<EventView>,
}

pub open spec fn opt_view(o: Option<String>) -> Option<Seq<char>> {
    match o {
        Some(s) => Some(s@),
        None => None,
    }
}

impl View for Event {
    type V = EventView;

    open spec fn view(&self) -> EventView {
        EventView {
            date: self.date,
            start: self.start,
            end: self.end,
            title: self.title@,
            location: opt_view(self.location),
            organizer: opt_view(self.organizer),
        }
    }
}

impl View for Calendar {
    type V = CalendarView;

    open spec fn view(&self) -> CalendarView {
        CalendarView { name: self.name@, events: self.events@.map_values(|e: Event| e@) }
    }
}

/// Which part of the page a failure is about.
#[derive(Clone, Copy, Debug, PartialEq, Eq, Structural)]
pub enum Part {
    Title,
    SelectedYear,
    WeekNumber,
    WeekStart,
    Day,
    Month,
    CellClass,
    EventLink,
    TimeRange,
    StartTime,
    EndTime,
    DetailLines,
}

/// Why a page could not be read into a calendar.
#[derive(Clone, Copy, Debug, PartialEq, Eq, Structural)]
pub enum ExtractionFailure {
    /// A required element of the page is not there.
    MissingAnchor(Part),
    /// Text that should be an integer is not one, or does not fit.
    MalformedNumber(Part),
    /// A day, month and year that name no day of the calendar.
    InvalidDate,
    /// A time that does not read as `HH:MM`.
    MalformedTime(Part),
    /// Text with fewer pieces than it needs.
    IncompleteDetail(Part),
}

} // verus!
