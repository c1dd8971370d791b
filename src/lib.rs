//! Reads the week-grid pages of a Rapla timetable into a calendar and writes
//! that calendar out as iCalendar text.

pub mod dates;
pub mod dom;
pub mod extract;
pub mod feed;
pub mod laws;
pub mod legacy;
pub mod model;
pub mod numbers;
pub mod outline;
pub mod text;

pub use dom::{parse_calendar, Selectors};
pub use extract::calendar_from_outline;
pub use feed::{clock_text, ics_base, serialize};
pub use legacy::{rapla_event_to_ics, rapla_feed, Config, RaplaEvent, RaplaScraper};
pub use model::{Calendar, Date, Event, ExtractionFailure, Part, Time};
pub use outline::{Cell, PageOutline, Week};
