//! Calendar events read from iCalendar data, expanded month by month.
pub mod moment;
pub mod ical;
pub mod event;
pub mod service;
