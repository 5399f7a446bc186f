//! Calendar events and their builder.
use vstd::prelude::*;
use crate::calendar::moment::{Moment, now_moment, moment_ok};

verus! {

/// A calendar event.
#[derive(Clone, Debug, PartialEq, Eq)]
pub struct CalendarEvent {
    /// Unique identifier (iCalendar UID).
    pub uid: String,
    /// Event summary/title.
    pub summary: String,
    /// Event description.
    pub description: Option<String>,
    /// Event color (CSS color string).
    pub color: Option<String>,
    /// Whether this is an all-day event.
    pub is_all_day: bool,
    /// Event start.
    pub start: Moment,
    /// Event end.
    pub end: Moment,
    /// Event location.
    pub location: Option<String>,
    /// Calendar source name.
    pub calendar_name: Option<String>,
}

/// Whether two moments fall on the same local date.
pub open spec fn same_local_date(a: Moment, b: Moment) -> bool {
    a.local.year == b.local.year && a.local.month == b.local.month && a.local.day == b.local.day
}

impl CalendarEvent {
    /// A builder with no field set.
    pub fn builder() -> (b: CalendarEventBuilder)
        ensures
            b == CalendarEventBuilder::empty(),
    {
        CalendarEventBuilder::default()
    }

    /// Whether the event starts on the local date of `date`.
    pub fn is_on_date(&self, date: &Moment) -> (b: bool)
        ensures
            b == same_local_date(self.start, *date),
    {
        self.start.local.year == date.local.year && self.start.local.month == date.local.month
            && self.start.local.day == date.local.day
    }

    /// Whether `now` lies between the event's start and end, both included.
    pub fn is_happening_at(&self, now: &Moment) -> (b: bool)
        ensures
            b == (self.start.timestamp <= now.timestamp <= self.end.timestamp),
    {
        self.start.timestamp <= now.timestamp && now.timestamp <= self.end.timestamp
    }

    /// Whether the event starts after `now`.
    pub fn is_upcoming_at(&self, now: &Moment) -> (b: bool)
        ensures
            b == (self.start.timestamp > now.timestamp),
    {
        self.start.timestamp > now.timestamp
    }

    /// Whether the event is happening at the current moment.
    pub fn is_happening_now(&self) -> (b: bool)
        ensures
            b ==> self.start.timestamp <= self.end.timestamp,
    {
        let now = now_moment();
        self.is_happening_at(&now)
    }

    /// Whether the event starts after the current moment.
    pub fn is_upcoming(&self) -> bool {
        let now = now_moment();
        self.is_upcoming_at(&now)
    }
}

/// A calendar event under construction. `uid`, `summary`, `is_all_day`,
/// `start` and `end` are mandatory.
#[derive(Clone, Debug, PartialEq, Eq)]
pub struct CalendarEventBuilder {
    pub uid: Option<String>,
    pub summary: Option<String>,
    pub description: Option<String>,
    pub color: Option<String>,
    pub is_all_day: Option<bool>,
    pub start: Option<Moment>,
    pub end: Option<Moment>,
    pub location: Option<String>,
    pub calendar_name: Option<String>,
}

impl CalendarEventBuilder {
    /// The builder with no field set.
    pub open spec fn empty() -> Self {
        CalendarEventBuilder {
            uid: None,
            summary: None,
            description: None,
            color: None,
            is_all_day: None,
            start: None,
            end: None,
            location: None,
            calendar_name: None,
        }
    }

    /// Whether every mandatory field is set.
    pub open spec fn complete(&self) -> bool {
        &&& self.uid is Some
        &&& self.summary is Some
        &&& self.is_all_day is Some
        &&& self.start is Some
        &&& self.end is Some
    }

    /// The event that a complete builder describes.
    pub open spec fn event(&self) -> CalendarEvent {
        CalendarEvent {
            uid: self.uid.unwrap(),
            summary: self.summary.unwrap(),
            description: self.description,
            color: self.color,
            is_all_day: self.is_all_day.unwrap(),
            start: self.start.unwrap(),
            end: self.end.unwrap(),
            location: self.location,
            calendar_name: self.calendar_name,
        }
    }

    /// The event; every mandatory field must be set.
    pub fn build(&self) -> (e: CalendarEvent)
        requires
            self.complete(),
        ensures
            e == self.event(),
    {
        self.clone_fields()
    }

    /// The event, or `None` where a mandatory field is missing.
    pub fn try_build(&self) -> (r: Option<CalendarEvent>)
        ensures
            self.complete() ==> r == Some(self.event()),
            !self.complete() ==> r is None,
    {
        if self.uid.is_some() && self.summary.is_some() && self.is_all_day.is_some()
            && self.start.is_some() && self.end.is_some() {
            Some(self.clone_fields())
        } else {
            None
        }
    }

    fn clone_fields(&self) -> (e: CalendarEvent)
        requires
            self.complete(),
        ensures
            e == self.event(),
    {
        let uid = match &self.uid {
            Some(s) => s.clone(),
            None => String::new(),
        };
        let summary = match &self.summary {
            Some(s) => s.clone(),
            None => String::new(),
        };
        let start = self.start.unwrap();
        let end = self.end.unwrap();
        CalendarEvent {
            uid,
            summary,
            description: clone_text(&self.description),
            color: clone_text(&self.color),
            is_all_day: self.is_all_day.unwrap(),
            start,
            end,
            location: clone_text(&self.location),
            calendar_name: clone_text(&self.calendar_name),
        }
    }

    pub fn uid(self, uid: String) -> (b: Self)
        ensures
            b == (CalendarEventBuilder { uid: Some(uid), ..self }),
    {
        CalendarEventBuilder { uid: Some(uid), ..self }
    }

    pub fn summary(self, summary: String) -> (b: Self)
        ensures
            b == (CalendarEventBuilder { summary: Some(summary), ..self }),
    {
        CalendarEventBuilder { summary: Some(summary), ..self }
    }

    pub fn description(self, description: String) -> (b: Self)
        ensures
            b == (CalendarEventBuilder { description: Some(description), ..self }),
    {
        CalendarEventBuilder { description: Some(description), ..self }
    }

    pub fn color(self, color: String) -> (b: Self)
        ensures
            b == (CalendarEventBuilder { color: Some(color), ..self }),
    {
        CalendarEventBuilder { color: Some(color), ..self }
    }

    pub fn all_day(self, is_all_day: bool) -> (b: Self)
        ensures
            b == (CalendarEventBuilder { is_all_day: Some(is_all_day), ..self }),
    {
        CalendarEventBuilder { is_all_day: Some(is_all_day), ..self }
    }

    pub fn start(self, start: Moment) -> (b: Self)
        ensures
            b == (CalendarEventBuilder { start: Some(start), ..self }),
    {
        CalendarEventBuilder { start: Some(start), ..self }
    }

    pub fn end(self, end: Moment) -> (b: Self)
        ensures
            b == (CalendarEventBuilder { end: Some(end), ..self }),
    {
        CalendarEventBuilder { end: Some(end), ..self }
    }

    pub fn location(self, location: String) -> (b: Self)
        ensures
            b == (CalendarEventBuilder { location: Some(location), ..self }),
    {
        CalendarEventBuilder { location: Some(location), ..self }
    }

    pub fn calendar_name(self, calendar_name: String) -> (b: Self)
        ensures
            b == (CalendarEventBuilder { calendar_name: Some(calendar_name), ..self }),
    {
        CalendarEventBuilder { calendar_name: Some(calendar_name), ..self }
    }
}

impl Default for CalendarEventBuilder {
    fn default() -> (b: Self)
        ensures
            b == Self::empty(),
    {
        CalendarEventBuilder {
            uid: None,
            summary: None,
            description: None,
            color: None,
            is_all_day: None,
            start: None,
            end: None,
            location: None,
            calendar_name: None,
        }
    }
}

/// A copy of an optional string.
pub fn clone_text(o: &Option<String>) -> (r: Option<String>)
    ensures
        r == *o,
{
    match o {
        Some(s) => {
            let c = s.clone();
            proof {
                assert(c@ == s@);
            }
            Some(c)
        },
        None => None,
    }
}

} // verus!
