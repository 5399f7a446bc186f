//! The calendar service: iCalendar components in, calendar events out, one
//! month at a time.
use vstd::prelude::*;
use crate::calendar::event::{CalendarEvent, clone_text};
use crate::calendar::ical::{
    CalValue, Component, DateParts, Property, find_entry, first_value, first_value_of,
    get_component_uid, has_recurrence_id, has_rrule, parse_components, property, text_property,
    text_value, recurrence_rule_to_string, rule_text, ical_components,
};
use crate::calendar::moment::{
    Date, Moment, WallClock, compact_stamp, date_before, date_of, is_date_before,
    is_valid_wall_clock, local_moment, moment_ok, moment_plus, occurrences_between,
    parse_rule_set, push_compact_stamp, utc_moment, utc_timestamp, valid_wall_clock, calendar_reading, lemma_utc_orders_dates,
    utc_wall_clock, MIN_TIMESTAMP, MAX_TIMESTAMP,
};
use std::collections::HashSet;
use crate::signal::{emitted, Signal, SignalHandler, without_id};
use crate::text::{find_from, find_text, begins_with, has_sub, lines_of, text_lines, trimmed, opt_text, push_chars, push_str, push_numeral, decimal, string_of, chars_of};

verus! {

/// The color given to an event whose component and calendar name none.
pub const DEFAULT_EVENT_COLOR: &'static str = "@accent_color";

// ---------------------------------------------------------------------------
// Date-time values
// ---------------------------------------------------------------------------
/// What a date-time value reads as: its wall clock, whether it is a whole day
/// (no time part), and whether it is given in UTC (offset `+00:00`). `None`
/// where year, month or day is missing or the reading is no valid date and
/// time.
pub open spec fn value_reading(v: CalValue) -> Option<(WallClock, bool, bool)> {
    match v {
        CalValue::DateTime(p) => if p.year is Some && p.month is Some && p.day is Some {
            let has_time = p.hour is Some || p.minute is Some || p.second is Some;
            let w = WallClock {
                year: p.year.unwrap() as i32,
                month: p.month.unwrap() as u32,
                day: p.day.unwrap() as u32,
                hour: if has_time { p.hour.unwrap_or(0) as u32 } else { 0 },
                minute: if has_time { p.minute.unwrap_or(0) as u32 } else { 0 },
                second: if has_time { p.second.unwrap_or(0) as u32 } else { 0 },
            };
            let utc = has_time && p.tz_hour == Some(0u8) && p.tz_minute.unwrap_or(0) == 0;
            if valid_wall_clock(w) {
                Some((w, !has_time, utc))
            } else {
                None
            }
        } else {
            None
        },
        _ => None,
    }
}

/// What holds of the moment that a date-time value is read as: where the
/// value is given in UTC, its instant; otherwise its local wall clock.
pub open spec fn reading_fits(v: CalValue, r: (Moment, bool)) -> bool {
    match value_reading(v) {
        Some((w, all_day, utc)) => {
            &&& r.1 == all_day
            &&& moment_ok(r.0)
            &&& utc ==> r.0.timestamp == utc_timestamp(w)
            &&& !utc ==> r.0.local == w
        },
        None => false,
    }
}

// ---------------------------------------------------------------------------
// Event colors and texts
// ---------------------------------------------------------------------------
/// The color registered for a calendar: the first pair with that identifier.
pub open spec fn color_lookup(colors: Seq<(String, String)>, uid: Seq<char>) -> Option<Seq<char>>
    decreases colors.len(),
{
    if colors.len() == 0 {
        None
    } else if colors[0].0@ == uid {
        Some(colors[0].1@)
    } else {
        color_lookup(colors.drop_first(), uid)
    }
}

/// Color priority: the event's own `COLOR`, else its calendar's color, else
/// `@accent_color`.
pub open spec fn color_choice(c: Component, calendar_uid: Seq<char>, colors: Seq<(String, String)>) -> Seq<char> {
    match text_value(c, Property::Color) {
        Some(s) => s,
        None => match color_lookup(colors, calendar_uid) {
            Some(s) => s,
            None => DEFAULT_EVENT_COLOR@,
        },
    }
}

/// A text property, or the empty text where there is none.
pub open spec fn text_or_empty(c: Component, p: Property) -> Seq<char> {
    match text_value(c, p) {
        Some(s) => s,
        None => Seq::empty(),
    }
}

/// The fields that an event takes from its component, whatever its times.
pub open spec fn event_texts(e: CalendarEvent, c: Component, calendar_uid: Seq<char>, colors: Seq<(String, String)>) -> bool {
    &&& text_value(c, Property::Summary) == Some(e.summary@)
    &&& opt_text(e.description) == Some(text_or_empty(c, Property::Description))
    &&& opt_text(e.location) == Some(text_or_empty(c, Property::Location))
    &&& opt_text(e.color) == Some(color_choice(c, calendar_uid, colors))
    &&& opt_text(e.calendar_name) == Some(Seq::<char>::empty())
}

/// Whether the date lies in `[from, to)`.
pub open spec fn date_in(d: Date, from: Date, to: Date) -> bool {
    !date_before(d, from) && date_before(d, to)
}

/// A month that exists, and whose following month `chrono` represents.
pub open spec fn month_ok(year: i32, month: u32) -> bool {
    &&& crate::calendar::moment::MIN_YEAR <= year
    &&& 1 <= month <= 12
    &&& (year < crate::calendar::moment::MAX_YEAR || (year == crate::calendar::moment::MAX_YEAR && month < 12))
}

fn color_in(colors: &Vec<(String, String)>, uid: &str) -> (r: Option<String>)
    ensures
        opt_text(r) == color_lookup(colors@, uid@),
{
    let mut i: usize = 0;
    assert(colors@.skip(0) =~= colors@);
    while i < colors.len()
        invariant
            i <= colors@.len(),
            color_lookup(colors@, uid@) == color_lookup(colors@.skip(i as int), uid@),
        decreases colors.len() - i,
    {
        assert(colors@.skip(i as int).drop_first() =~= colors@.skip(i + 1));
        if crate::text::str_eq(colors[i].0.as_str(), uid) {
            return Some(colors[i].1.clone());
        }
        i = i + 1;
    }
    None
}

impl CalendarService {
    /// Reads a date-time value as a local moment, and whether it names a
    /// whole day. Values given in UTC are converted; others are read in the
    /// machine's zone.
    pub fn parse_datetime_value(v: &CalValue) -> (r: Option<(Moment, bool)>)
        ensures
            value_reading(*v) is None ==> r is None,
            r matches Some(x) ==> reading_fits(*v, x),
            value_reading(*v) matches Some(rd) && rd.2 ==> (r matches Some(x) && -86400 < utc_timestamp(x.0.local)
                - x.0.timestamp < 86400 && calendar_reading(x.0.local)),
    {
        match Self::reading_of(v) {
            None => None,
            Some((w, all_day, utc)) => if utc {
                Some((utc_moment(&w), false))
            } else {
                match local_moment(&w) {
                    Some(m) => Some((m, all_day)),
                    None => None,
                }
            },
        }
    }

    /// The color of an event of `c` in calendar `calendar_uid`.
    pub fn event_color(c: &Component, calendar_uid: &str, colors: &Vec<(String, String)>) -> (s: String)
        ensures
            s@ == color_choice(*c, calendar_uid@, colors@),
    {
        match text_property(c, Property::Color) {
            Some(s) => s,
            None => match color_in(colors, calendar_uid) {
                Some(s) => s,
                None => DEFAULT_EVENT_COLOR.to_string(),
            },
        }
    }

    fn text_or_empty(c: &Component, p: Property) -> (s: String)
        ensures
            s@ == text_or_empty(*c, p),
    {
        match text_property(c, p) {
            Some(s) => s,
            None => String::new(),
        }
    }

    /// The event of a component whose start (and end) has been read: `None`
    /// where the component has no `UID` or `SUMMARY` text, or where it starts
    /// outside `[from, to)`. Without an end it ends when it starts.
    pub fn event_from_times(
        c: &Component,
        start: (Moment, bool),
        end: Option<Moment>,
        from: Date,
        to: Date,
        calendar_uid: &str,
        colors: &Vec<(String, String)>,
    ) -> (r: Option<CalendarEvent>)
        ensures
            r is Some <==> (text_value(*c, Property::Uid) is Some && text_value(*c, Property::Summary) is Some
                && date_in(date_of(start.0.local), from, to)),
            r matches Some(e) ==> {
                &&& text_value(*c, Property::Uid) == Some(e.uid@)
                &&& event_texts(e, *c, calendar_uid@, colors@)
                &&& e.is_all_day == start.1
                &&& e.start == start.0
                &&& e.end == match end {
                    Some(x) => x,
                    None => start.0,
                }
            },
    {
        let uid = match get_component_uid(c) {
            Some(u) => u,
            None => {
                return None;
            },
        };
        let summary = match text_property(c, Property::Summary) {
            Some(s) => s,
            None => {
                return None;
            },
        };
        let d = Date { year: start.0.local.year, month: start.0.local.month, day: start.0.local.day };
        if is_date_before(d, from) || !is_date_before(d, to) {
            return None;
        }
        let end_moment = match end {
            Some(x) => x,
            None => start.0,
        };
        Some(CalendarEvent {
            uid,
            summary,
            description: Some(Self::text_or_empty(c, Property::Description)),
            color: Some(Self::event_color(c, calendar_uid, colors)),
            is_all_day: start.1,
            start: start.0,
            end: end_moment,
            location: Some(Self::text_or_empty(c, Property::Location)),
            calendar_name: Some(String::new()),
        })
    }

    /// The event of a single (not recurring) component that starts in
    /// `[from, to)`.
    ///
    /// `None` exactly where the component lacks a `UID` or `SUMMARY` text or
    /// a `DTSTART` value that reads as a moment, or the moment read starts
    /// outside the range. A `DTSTART` given in UTC always reads; a local one
    /// may name no moment in the machine's zone. The event ends at `DTEND`
    /// where that reads as a date-time, else when it starts.
    pub fn parse_component_to_event(
        c: &Component,
        from: Date,
        to: Date,
        calendar_uid: &str,
        colors: &Vec<(String, String)>,
    ) -> (r: Option<CalendarEvent>)
        ensures
            text_value(*c, Property::Uid) is None ==> r is None,
            text_value(*c, Property::Summary) is None ==> r is None,
            first_value(*c, Property::Dtstart) is None ==> r is None,
            first_value(*c, Property::Dtstart) matches Some(v) && value_reading(v) is None ==> r is None,
            first_value(*c, Property::Dtstart) matches Some(v) ==> (value_reading(v) matches Some(rd) ==> (
                !rd.2 && !date_in(date_of(rd.0), from, to) ==> r is None)),
            r is None ==> single_none_ok(*c, from, to),
            r matches Some(e) ==> {
                &&& text_value(*c, Property::Uid) == Some(e.uid@)
                &&& event_texts(e, *c, calendar_uid@, colors@)
                &&& date_in(date_of(e.start.local), from, to)
                &&& first_value(*c, Property::Dtstart) matches Some(v)
                &&& reading_fits(v, (e.start, e.is_all_day))
                &&& match first_value(*c, Property::Dtend) {
                    Some(w) => match value_reading(w) {
                        Some(rd) => if rd.2 {
                            reading_fits(w, (e.end, false))
                        } else {
                            e.end == e.start || reading_fits(w, (e.end, w_all_day(w)))
                        },
                        None => e.end == e.start,
                    },
                    None => e.end == e.start,
                }
            },
    {
        if get_component_uid(c).is_none() || text_property(c, Property::Summary).is_none() {
            return None;
        }
        let dtstart = match first_value_of(c, Property::Dtstart) {
            Some(v) => v,
            None => {
                return None;
            },
        };
        let start = match Self::parse_datetime_value(dtstart) {
            Some(s) => s,
            None => {
                return None;
            },
        };
        let end = match first_value_of(c, Property::Dtend) {
            Some(v) => match Self::parse_datetime_value(v) {
                Some((m, _)) => Some(m),
                None => None,
            },
            None => None,
        };
        let r = Self::event_from_times(c, start, end, from, to, calendar_uid, colors);
        proof {
            if r is None {
                assert(reading_fits(*dtstart, (start.0, start.1)));
            }
        }
        r
    }
}

// ---------------------------------------------------------------------------
// Recurring events
// ---------------------------------------------------------------------------
/// The RRULE text of an `RRULE` value: text as it is, a structured rule
/// written back out; `None` for any other value.
pub open spec fn rule_value_text(v: CalValue) -> Option<Seq<char>> {
    match v {
        CalValue::Text(s) => Some(s@),
        CalValue::Rule(r) => Some(rule_text(r)),
        _ => None,
    }
}

/// `\nEXDATE:<stamp>` for each excluded moment, in order.
pub open spec fn exdate_lines(exs: Seq<Moment>) -> Seq<char>
    decreases exs.len(),
{
    if exs.len() == 0 {
        Seq::empty()
    } else {
        exdate_lines(exs.drop_last()) + "\nEXDATE:"@ + compact_stamp(exs.last().local)
    }
}

/// The text handed to the recurrence parser: `DTSTART`, `RRULE`, then one
/// `EXDATE` line per excluded moment, all in local wall-clock time.
pub open spec fn rule_set_lines(start: WallClock, rule: Seq<char>, exs: Seq<Moment>) -> Seq<char> {
    "DTSTART:"@ + compact_stamp(start) + "\nRRULE:"@ + rule + exdate_lines(exs)
}

/// The values of a component's first `EXDATE` line (none without one).
pub open spec fn exdate_values(c: Component) -> Seq<CalValue> {
    match find_entry(c, Property::Exdate) {
        Some(e) => e.values@,
        None => Seq::empty(),
    }
}

/// `ms` are the moments that the values `vals` read as, in order: a value
/// that does not read gives none, one given in UTC gives exactly one, and a
/// local one gives one or, where the zone has no such moment, none.
pub open spec fn exdates_fit(vals: Seq<CalValue>, ms: Seq<Moment>) -> bool
    decreases vals.len(),
{
    if vals.len() == 0 {
        ms.len() == 0
    } else {
        let v = vals.last();
        let one = ms.len() > 0 && reading_fits(v, (ms.last(), w_all_day(v))) && exdates_fit(
            vals.drop_last(),
            ms.drop_last(),
        );
        match value_reading(v) {
            None => exdates_fit(vals.drop_last(), ms),
            Some(rd) => if rd.2 {
                one
            } else {
                one || exdates_fit(vals.drop_last(), ms)
            },
        }
    }
}

/// What every occurrence of a recurring event shares.
pub struct OccurrenceTemplate {
    pub uid: String,
    pub summary: String,
    pub description: String,
    pub location: String,
    pub color: String,
    pub is_all_day: bool,
}

/// `<uid>-occurrence-<index>`.
pub open spec fn occurrence_uid(uid: Seq<char>, idx: nat) -> Seq<char> {
    uid + "-occurrence-"@ + decimal(idx)
}

/// The event of one occurrence: its number among the month's occurrences, its
/// start and its end.
pub open spec fn occurrence_fits(e: CalendarEvent, t: OccurrenceTemplate, o: (usize, Moment, Moment)) -> bool {
    &&& e.uid@ == occurrence_uid(t.uid@, o.0 as nat)
    &&& e.summary@ == t.summary@
    &&& opt_text(e.description) == Some(t.description@)
    &&& opt_text(e.location) == Some(t.location@)
    &&& opt_text(e.color) == Some(t.color@)
    &&& opt_text(e.calendar_name) == Some(Seq::<char>::empty())
    &&& e.is_all_day == t.is_all_day
    &&& e.start == o.1
    &&& e.end == o.2
}

fn push_exdates(exs: &Vec<Moment>, out: &mut Vec<char>)
    ensures
        final(out)@ == old(out)@ + exdate_lines(exs@),
{
    let ghost start = out@;
    let mut i: usize = 0;
    while i < exs.len()
        invariant
            i <= exs@.len(),
            out@ == start + exdate_lines(exs@.take(i as int)),
        decreases exs.len() - i,
    {
        assert(exs@.take(i + 1).drop_last() =~= exs@.take(i as int));
        push_str("\nEXDATE:", out);
        push_compact_stamp(&exs[i].local, out);
        i = i + 1;
        assert(out@ =~= start + exdate_lines(exs@.take(i as int)));
    }
    assert(exs@.take(exs@.len() as int) =~= exs@);
}

/// How many of `found` start before `end`.
pub open spec fn count_before(found: Seq<Moment>, end: int) -> nat
    decreases found.len(),
{
    if found.len() == 0 {
        0
    } else {
        count_before(found.drop_last(), end) + if found.last().timestamp < end {
            1nat
        } else {
            0nat
        }
    }
}

/// The occurrences of a month out of the instants `found` that the
/// recurrence yields and their computed ends (`ends[i]` for `found[i]`,
/// `None` where it could not be computed): those that start before `end`
/// and have an end, each with its number among all that start before `end`
/// (counted from 0), its start and its end.
pub open spec fn numbered_occurrences(found: Seq<Moment>, ends: Seq<Option<Moment>>, end: int) -> Seq<(usize, Moment, Moment)>
    decreases found.len(),
{
    if found.len() == 0 {
        Seq::empty()
    } else {
        let prev = numbered_occurrences(found.drop_last(), ends.drop_last(), end);
        if found.last().timestamp < end && ends.last() is Some {
            prev.push((count_before(found.drop_last(), end) as usize, found.last(), ends.last().unwrap()))
        } else {
            prev
        }
    }
}

/// How long each occurrence lasts, given the moment `start` that `DTSTART`
/// was read as: from `DTSTART` to `DTEND` where `DTEND` reads as a moment,
/// else no time. A `DTEND` given in UTC always reads; a local one may have
/// no moment in the zone.
pub open spec fn duration_fits(c: Component, start: Moment, d: int) -> bool {
    match first_value(c, Property::Dtend) {
        Some(w) => match value_reading(w) {
            Some(rd) => {
                ||| exists|e: Moment| #[trigger] reading_fits(w, (e, w_all_day(w))) && d == e.timestamp - start.timestamp
                ||| !rd.2 && d == 0
            },
            None => d == 0,
        },
        None => d == 0,
    }
}

/// The first instant of a date in the machine's zone.
pub open spec fn midnight(d: Date) -> WallClock {
    WallClock { year: d.year, month: d.month, day: d.day, hour: 0, minute: 0, second: 0 }
}

/// What a recurring component gives for the month `[from, to)`: `DTSTART`
/// was read as `start`, each occurrence lasts `d` seconds, the month runs
/// from `lo` to `hi` (the local midnights of `from` and `to`), the
/// recurrence yielded the instants `found` between them, whose ends came out
/// as `ends`; the events are the numbered occurrences, in order.
pub open spec fn recurrence_outcome(
    c: Component,
    from: Date,
    to: Date,
    evs: Seq<CalendarEvent>,
    start: Moment,
    d: int,
    found: Seq<Moment>,
    ends: Seq<Option<Moment>>,
    lo: Moment,
    hi: Moment,
) -> bool {
    let occ = numbered_occurrences(found, ends, hi.timestamp as int);
    &&& first_value(c, Property::Dtstart) matches Some(v)
    &&& reading_fits(v, (start, w_all_day(v)))
    &&& duration_fits(c, start, d)
    &&& lo.local == midnight(from) && moment_ok(lo)
    &&& hi.local == midnight(to) && moment_ok(hi)
    &&& found.len() == ends.len()
    &&& forall|i: int| 0 <= i < found.len() ==> lo.timestamp <= (#[trigger] found[i]).timestamp <= hi.timestamp
    &&& forall|i: int| 0 <= i < ends.len() ==> (#[trigger] ends[i] matches Some(x) ==> x.timestamp == found[i].timestamp + d)
    &&& evs.len() == occ.len()
    &&& forall|k: int| 0 <= k < evs.len() ==> {
        &&& (#[trigger] evs[k]).uid@ == occurrence_uid(text_or_empty(c, Property::Uid), occ[k].0 as nat)
        &&& evs[k].start == occ[k].1
        &&& evs[k].end == occ[k].2
    }
}

/// Numbers the occurrences that start before `month_end` and keeps those
/// whose end is known; see [`numbered_occurrences`].
pub fn number_occurrences(found: &Vec<Moment>, ends: &Vec<Option<Moment>>, month_end: i64) -> (r: Vec<(usize, Moment, Moment)>)
    requires
        found@.len() == ends@.len(),
    ensures
        r@ == numbered_occurrences(found@, ends@, month_end as int),
{
    let mut out: Vec<(usize, Moment, Moment)> = Vec::new();
    let mut idx: usize = 0;
    let mut i: usize = 0;
    while i < found.len()
        invariant
            i <= found@.len(),
            found@.len() == ends@.len(),
            idx <= i,
            idx == count_before(found@.take(i as int), month_end as int),
            out@ == numbered_occurrences(found@.take(i as int), ends@.take(i as int), month_end as int),
        decreases found.len() - i,
    {
        proof {
            assert(found@.take(i + 1).drop_last() =~= found@.take(i as int));
            assert(ends@.take(i + 1).drop_last() =~= ends@.take(i as int));
            assert(found@.take(i + 1).last() == found@[i as int]);
            assert(ends@.take(i + 1).last() == ends@[i as int]);
        }
        let o = found[i];
        if o.timestamp < month_end {
            match ends[i] {
                Some(e) => {
                    out.push((idx, o, e));
                },
                None => {},
            }
            idx = idx + 1;
        }
        i = i + 1;
    }
    proof {
        assert(found@.take(found@.len() as int) =~= found@);
        assert(ends@.take(ends@.len() as int) =~= ends@);
    }
    out
}

/// The end of each occurrence, `duration` seconds after its start, where
/// `chrono` can represent it.
fn occurrence_ends(found: &Vec<Moment>, duration: i64) -> (r: Vec<Option<Moment>>)
    requires
        forall|j: int| 0 <= j < found@.len() ==> moment_ok(#[trigger] found@[j]),
    ensures
        r@.len() == found@.len(),
        forall|j: int| 0 <= j < r@.len() ==> (#[trigger] r@[j] matches Some(x) ==> x.timestamp == found@[j].timestamp + duration && moment_ok(x)),
{
    let mut out: Vec<Option<Moment>> = Vec::new();
    let mut i: usize = 0;
    while i < found.len()
        invariant
            i <= found@.len(),
            out@.len() == i,
            forall|j: int| 0 <= j < found@.len() ==> moment_ok(#[trigger] found@[j]),
            forall|j: int| 0 <= j < out@.len() ==> (#[trigger] out@[j] matches Some(x) ==> x.timestamp == found@[j].timestamp + duration && moment_ok(x)),
        decreases found.len() - i,
    {
        out.push(moment_plus(&found[i], duration));
        i = i + 1;
    }
    out
}

impl CalendarService {
    /// The RRULE text of an `RRULE` value.
    pub fn rule_value_string(v: &CalValue) -> (r: Option<String>)
        ensures
            opt_text(r) == rule_value_text(*v),
    {
        match v {
            CalValue::Text(s) => Some(s.clone()),
            CalValue::Rule(rule) => Some(recurrence_rule_to_string(rule)),
            _ => None,
        }
    }

    /// The recurrence text for a start, a rule and the excluded moments.
    pub fn rule_set_string(start: &WallClock, rule: &str, exdates: &Vec<Moment>) -> (s: String)
        ensures
            s@ == rule_set_lines(*start, rule@, exdates@),
    {
        let mut out: Vec<char> = Vec::new();
        push_str("DTSTART:", &mut out);
        push_compact_stamp(start, &mut out);
        push_str("\nRRULE:", &mut out);
        push_str(rule, &mut out);
        push_exdates(exdates, &mut out);
        assert(out@ =~= rule_set_lines(*start, rule@, exdates@));
        string_of(out.as_slice())
    }

    /// The recurrence text of a component whose `DTSTART` was read as the
    /// wall clock `start`: `DTSTART`, the `RRULE` value written out, and one
    /// `EXDATE` line for each `EXDATE` value that reads as a moment. `None`
    /// where the component has no `RRULE` value that is text or a rule.
    pub fn recurrence_text(c: &Component, start: &WallClock) -> (r: Option<String>)
        ensures
            first_value(*c, Property::Rrule) is None ==> r is None,
            first_value(*c, Property::Rrule) matches Some(v) ==> (rule_value_text(v) is None <==> r is None),
            r matches Some(t) ==> exists|exs: Seq<Moment>|
                exdates_fit(exdate_values(*c), exs) && #[trigger] rule_set_lines(*start, rule_value_text(
                    first_value(*c, Property::Rrule).unwrap(),
                ).unwrap(), exs) == t@,
    {
        let rule_value = match first_value_of(c, Property::Rrule) {
            Some(v) => v,
            None => {
                return None;
            },
        };
        let rule = match Self::rule_value_string(rule_value) {
            Some(s) => s,
            None => {
                return None;
            },
        };
        let exdates = Self::exdate_moments(c);
        let text = Self::rule_set_string(start, rule.as_str(), &exdates);
        assert(rule_value_text(*rule_value) == Some(rule@));
        proof {
            let w = exdates@;
            assert(first_value(*c, Property::Rrule).unwrap() == *rule_value);
            assert(exdates_fit(exdate_values(*c), w));
            assert(rule_set_lines(*start, rule_value_text(first_value(*c, Property::Rrule).unwrap()).unwrap(), w) == text@);
        }
        Some(text)
    }

    /// The events of the given occurrences, in order.
    pub fn occurrence_events(t: &OccurrenceTemplate, occ: &Vec<(usize, Moment, Moment)>) -> (r: Vec<CalendarEvent>)
        ensures
            r@.len() == occ@.len(),
            forall|k: int| 0 <= k < r@.len() ==> occurrence_fits(#[trigger] r@[k], *t, occ@[k]),
    {
        let mut out: Vec<CalendarEvent> = Vec::new();
        let mut k: usize = 0;
        while k < occ.len()
            invariant
                k <= occ@.len(),
                out@.len() == k,
                forall|j: int| 0 <= j < k ==> occurrence_fits(#[trigger] out@[j], *t, occ@[j]),
            decreases occ.len() - k,
        {
            let (idx, start, end) = occ[k];
            let mut uid: Vec<char> = chars_of(t.uid.as_str());
            push_str("-occurrence-", &mut uid);
            push_numeral(idx as u64, 10, &mut uid);
            let e = CalendarEvent {
                uid: string_of(uid.as_slice()),
                summary: t.summary.clone(),
                description: Some(t.description.clone()),
                color: Some(t.color.clone()),
                is_all_day: t.is_all_day,
                start,
                end,
                location: Some(t.location.clone()),
                calendar_name: Some(String::new()),
            };
            out.push(e);
            k = k + 1;
        }
        out
    }

    /// The moments of a component's `EXDATE` values that read as date-times,
    /// in order: a value given in UTC always gives its instant, a local one
    /// its moment where the zone has one, and a value that does not read
    /// gives none.
    fn exdate_moments(c: &Component) -> (r: Vec<Moment>)
        ensures
            forall|i: int| 0 <= i < r@.len() ==> moment_ok(#[trigger] r@[i]),
            exdates_fit(exdate_values(*c), r@),
    {
        let mut out: Vec<Moment> = Vec::new();
        match property(c, Property::Exdate) {
            Some(e) => {
                let ghost vals = e.values@;
                assert(vals.take(0) =~= Seq::<CalValue>::empty());
                let mut i: usize = 0;
                while i < e.values.len()
                    invariant
                        i <= e.values@.len(),
                        vals == e.values@,
                        forall|j: int| 0 <= j < out@.len() ==> moment_ok(#[trigger] out@[j]),
                        exdates_fit(vals.take(i as int), out@),
                    decreases e.values.len() - i,
                {
                    let ghost before = out@;
                    assert(vals.take(i + 1).drop_last() =~= vals.take(i as int));
                    assert(vals.take(i + 1).last() == vals[i as int]);
                    if let Some((m, _)) = Self::parse_datetime_value(&e.values[i]) {
                        out.push(m);
                        assert(out@.drop_last() =~= before);
                    }
                    i = i + 1;
                }
                assert(vals.take(vals.len() as int) =~= vals);
            },
            None => {},
        }
        out
    }

    /// The occurrences of a recurring component that start in `[from, to)`.
    ///
    /// `None` where the component lacks a `UID` or `SUMMARY` text, a `DTSTART`
    /// that reads as a date-time or an `RRULE` value that is text or a rule,
    /// where the recurrence text does not parse, or where a bound of the
    /// month has no single local moment. The recurrence is read from the text
    /// that [`CalendarService::recurrence_text`] makes; the instants it
    /// yields between the month's two local midnights are numbered by
    /// [`number_occurrences`]: only those before the month's end count,
    /// occurrence `i` is named `<uid>-occurrence-<i>` and lasts as long as
    /// `DTEND` is after `DTSTART` (no time without a `DTEND`), and one whose
    /// end `chrono` cannot represent is left out (see [`recurrence_outcome`]).
    pub fn expand_recurring_event(
        c: &Component,
        from: Date,
        to: Date,
        calendar_uid: &str,
        colors: &Vec<(String, String)>,
    ) -> (r: Option<Vec<CalendarEvent>>)
        requires
            valid_wall_clock(WallClock { year: from.year, month: from.month, day: from.day, hour: 0, minute: 0, second: 0 }),
            valid_wall_clock(WallClock { year: to.year, month: to.month, day: to.day, hour: 0, minute: 0, second: 0 }),
        ensures
            text_value(*c, Property::Uid) is None ==> r is None,
            text_value(*c, Property::Summary) is None ==> r is None,
            first_value(*c, Property::Dtstart) is None ==> r is None,
            first_value(*c, Property::Dtstart) matches Some(v) && value_reading(v) is None ==> r is None,
            first_value(*c, Property::Rrule) is None ==> r is None,
            first_value(*c, Property::Rrule) matches Some(v) && rule_value_text(v) is None ==> r is None,
            r matches Some(evs) ==> forall|k: int| 0 <= k < evs@.len() ==> {
                let e = #[trigger] evs@[k];
                &&& text_value(*c, Property::Uid) matches Some(u)
                &&& crate::text::begins_with(e.uid@, u + "-occurrence-"@)
                &&& event_texts(e, *c, calendar_uid@, colors@)
                &&& first_value(*c, Property::Dtstart) matches Some(v)
                &&& value_reading(v) matches Some(rd)
                &&& e.is_all_day == rd.1
            },
            r matches Some(evs) ==> exists|start: Moment, d: int, found: Seq<Moment>, ends: Seq<Option<Moment>>, lo: Moment, hi: Moment|
                #[trigger] recurrence_outcome(*c, from, to, evs@, start, d, found, ends, lo, hi),
    {
        let uid = match get_component_uid(c) {
            Some(u) => u,
            None => {
                return None;
            },
        };
        let summary = match text_property(c, Property::Summary) {
            Some(s) => s,
            None => {
                return None;
            },
        };
        let dtstart = match first_value_of(c, Property::Dtstart) {
            Some(v) => v,
            None => {
                return None;
            },
        };
        let (start, is_all_day) = match Self::parse_datetime_value(dtstart) {
            Some(s) => s,
            None => {
                return None;
            },
        };
        let ghost mut end_read: Option<Moment> = None;
        let duration: i64 = match first_value_of(c, Property::Dtend) {
            Some(v) => match Self::parse_datetime_value(v) {
                Some((end_dt, _)) => {
                    proof {
                        end_read = Some(end_dt);
                    }
                    end_dt.timestamp - start.timestamp
                },
                None => 0,
            },
            None => 0,
        };
        proof {
            match first_value(*c, Property::Dtend) {
                Some(w) => match value_reading(w) {
                    Some(rd) => {
                        if end_read is Some {
                            let e = end_read.unwrap();
                            assert(reading_fits(w, (e, w_all_day(w))));
                        }
                    },
                    None => {},
                },
                None => {},
            }
        }
        let text = match Self::recurrence_text(c, &start.local) {
            Some(t) => t,
            None => {
                return None;
            },
        };
        let set = match parse_rule_set(text.as_str()) {
            Some(set) => set,
            None => {
                return None;
            },
        };
        let from_wall = WallClock { year: from.year, month: from.month, day: from.day, hour: 0, minute: 0, second: 0 };
        let to_wall = WallClock { year: to.year, month: to.month, day: to.day, hour: 0, minute: 0, second: 0 };
        let month_start = match local_moment(&from_wall) {
            Some(m) => m,
            None => {
                return None;
            },
        };
        let month_end = match local_moment(&to_wall) {
            Some(m) => m,
            None => {
                return None;
            },
        };
        let found = occurrences_between(set, &month_start, &month_end);
        let ends = occurrence_ends(&found, duration);
        let occ = number_occurrences(&found, &ends, month_end.timestamp);
        let template = OccurrenceTemplate {
            uid,
            summary,
            description: Self::text_or_empty(c, Property::Description),
            location: Self::text_or_empty(c, Property::Location),
            color: Self::event_color(c, calendar_uid, colors),
            is_all_day,
        };
        let evs = Self::occurrence_events(&template, &occ);
        proof {
            assert(recurrence_outcome(*c, from, to, evs@, start, duration as int, found@, ends@, month_start, month_end));
            assert forall|k: int| 0 <= k < evs@.len() implies crate::text::begins_with(
                #[trigger] evs@[k].uid@,
                template.uid@ + "-occurrence-"@,
            ) by {
                lemma_begins_with_self(template.uid@ + "-occurrence-"@, decimal(occ@[k].0 as nat));
                assert(occurrence_uid(template.uid@, occ@[k].0 as nat) =~= template.uid@ + "-occurrence-"@
                    + decimal(occ@[k].0 as nat));
            }
        }
        Some(evs)
    }
}

proof fn lemma_begins_with_self(u: Seq<char>, rest: Seq<char>)
    ensures
        crate::text::begins_with(u + rest, u),
{
    assert((u + rest).subrange(0, u.len() as int) =~= u);
}

/// When a single component may give no event for `[from, to)`: it lacks a
/// `UID` or `SUMMARY` text or a `DTSTART` that reads as a date-time; or its
/// `DTSTART` is local (the zone may have no such moment); or, given in UTC,
/// some moment at its instant whose local wall clock (a valid day and time)
/// lies within a day of it falls on a local date outside the range.
pub open spec fn single_none_ok(c: Component, from: Date, to: Date) -> bool {
    text_value(c, Property::Uid) is None || text_value(c, Property::Summary) is None || match first_value(
        c,
        Property::Dtstart,
    ) {
        None => true,
        Some(v) => match value_reading(v) {
            None => true,
            Some(rd) => !rd.2 || exists|m: Moment|
                #[trigger] reading_fits(v, (m, rd.1)) && -86400 < utc_timestamp(m.local) - m.timestamp < 86400
                    && calendar_reading(m.local) && !date_in(date_of(m.local), from, to),
        },
    }
}

/// A single event whose `DTSTART` is given in UTC at an instant at least a
/// day after the month begins and at least a day before it ends (both
/// midnights read as UTC) always has its event in the month, whatever the
/// machine's zone.
pub proof fn law_utc_event_inside_month_appears(c: Component, year: i32, month: u32)
    requires
        month_ok(year, month),
        text_value(c, Property::Uid) is Some,
        text_value(c, Property::Summary) is Some,
        first_value(c, Property::Dtstart) matches Some(v) && value_reading(v) matches Some(rd) && rd.2
            && utc_timestamp(midnight(month_first(year, month))) + 86400 <= utc_timestamp(rd.0)
            && utc_timestamp(rd.0) + 86400 <= utc_timestamp(midnight(next_month_first(year, month))),
    ensures
        !single_none_ok(c, month_first(year, month), next_month_first(year, month)),
{
    let from = month_first(year, month);
    let to = next_month_first(year, month);
    let v = first_value(c, Property::Dtstart).unwrap();
    let rd = value_reading(v).unwrap();
    assert forall|m: Moment|
        #[trigger] reading_fits(v, (m, rd.1)) && -86400 < utc_timestamp(m.local) - m.timestamp < 86400
            && calendar_reading(m.local) implies date_in(date_of(m.local), from, to) by {
        lemma_utc_orders_dates(m.local, from);
        lemma_utc_orders_dates(m.local, to);
    }
}

/// Whether a date-time value names a whole day.
pub open spec fn w_all_day(v: CalValue) -> bool {
    match value_reading(v) {
        Some(r) => r.1,
        None => false,
    }
}

// ---------------------------------------------------------------------------
// A month of events
// ---------------------------------------------------------------------------
/// The `UID` text of a stored component.
pub open spec fn stored_uid(raw: Seq<(String, Component)>, i: int) -> Option<Seq<char>> {
    text_value(raw[i].1, Property::Uid)
}

/// What tells stored components apart: the `UID`, and for an exception
/// also the wall clock that its `RECURRENCE-ID` names. A series and its
/// exceptions have one `UID` but different keys; a component stored twice
/// has one key.
pub open spec fn component_key(c: Component) -> Option<Seq<char>> {
    match text_value(c, Property::Uid) {
        None => None,
        Some(u) => Some(
            u + match find_entry(c, Property::RecurrenceId) {
                None => Seq::empty(),
                Some(_) => "\nRECURRENCE-ID:"@ + match first_value(c, Property::RecurrenceId) {
                    Some(v) => match value_reading(v) {
                        Some(rd) => compact_stamp(rd.0),
                        None => Seq::empty(),
                    },
                    None => Seq::empty(),
                },
            },
        ),
    }
}

/// The key of a stored component.
pub open spec fn stored_key(raw: Seq<(String, Component)>, i: int) -> Option<Seq<char>> {
    component_key(raw[i].1)
}

/// `i` is the last stored component with its key.
pub open spec fn last_with_uid(raw: Seq<(String, Component)>, i: int) -> bool {
    &&& 0 <= i < raw.len()
    &&& stored_key(raw, i) is Some
    &&& forall|j: int| i < j < raw.len() ==> stored_key(raw, j) != stored_key(raw, i)
}

/// One stored component per key (`UID`, and `RECURRENCE-ID` for an
/// exception): the last one stored with it. Components without a `UID` are
/// dropped.
pub open spec fn one_per_uid(raw: Seq<(String, Component)>, idx: Seq<usize>) -> bool {
    &&& forall|k: int| 0 <= k < idx.len() ==> last_with_uid(raw, #[trigger] idx[k] as int)
    &&& forall|k1: int, k2: int| 0 <= k1 < k2 < idx.len() ==> stored_key(raw, idx[k1] as int) != stored_key(raw, idx[k2] as int)
    &&& forall|i: int| 0 <= i < raw.len() && stored_key(raw, i) is Some ==> exists|k: int|
        0 <= k < idx.len() && stored_key(raw, #[trigger] idx[k] as int) == stored_key(raw, i)
}

/// The first position of a text in a list.
fn position_of_text(v: &Vec<String>, t: &str) -> (r: Option<usize>)
    ensures
        r matches Some(k) ==> k < v@.len() && v@[k as int]@ == t@,
        r is None ==> forall|m: int| 0 <= m < v@.len() ==> v@[m]@ != t@,
{
    let mut k: usize = 0;
    while k < v.len()
        invariant
            k <= v@.len(),
            forall|m: int| 0 <= m < k ==> v@[m]@ != t@,
        decreases v.len() - k,
    {
        if crate::text::str_eq(v[k].as_str(), t) {
            return Some(k);
        }
        k = k + 1;
    }
    None
}

impl CalendarService {
    /// The wall clock that a value names, whether it names a whole day, and
    /// whether it is given in UTC; `None` for a value that names no valid
    /// date-time.
    pub fn reading_of(v: &CalValue) -> (r: Option<(WallClock, bool, bool)>)
        ensures
            r == value_reading(*v),
    {
        match v {
            CalValue::DateTime(p) => {
                let (year, month, day) = match (p.year, p.month, p.day) {
                    (Some(y), Some(m), Some(d)) => (y, m, d),
                    _ => {
                        return None;
                    },
                };
                let has_time = p.hour.is_some() || p.minute.is_some() || p.second.is_some();
                let w = WallClock {
                    year: year as i32,
                    month: month as u32,
                    day: day as u32,
                    hour: if has_time { p.hour.unwrap_or(0) as u32 } else { 0 },
                    minute: if has_time { p.minute.unwrap_or(0) as u32 } else { 0 },
                    second: if has_time { p.second.unwrap_or(0) as u32 } else { 0 },
                };
                if !is_valid_wall_clock(&w) {
                    return None;
                }
                let utc = has_time && p.tz_hour == Some(0u8) && p.tz_minute.unwrap_or(0) == 0;
                Some((w, !has_time, utc))
            },
            _ => None,
        }
    }

    /// The key of a component (see [`component_key`]).
    pub fn component_key_of(c: &Component) -> (r: Option<String>)
        ensures
            opt_text(r) == component_key(*c),
    {
        let uid = match get_component_uid(c) {
            Some(u) => u,
            None => {
                return None;
            },
        };
        let mut out = chars_of(uid.as_str());
        if has_recurrence_id(c) {
            push_str("\nRECURRENCE-ID:", &mut out);
            match first_value_of(c, Property::RecurrenceId) {
                Some(v) => match Self::reading_of(v) {
                    Some((w, _, _)) => {
                        push_compact_stamp(&w, &mut out);
                    },
                    None => {},
                },
                None => {},
            }
        }
        proof {
            assert(out@ =~= component_key(*c).unwrap());
        }
        Some(string_of(out.as_slice()))
    }

    /// For each key among the stored components (`UID`, and
    /// `RECURRENCE-ID` for an exception), the index of the last component
    /// stored with it, in the order the keys first appear.
    pub fn unique_components(raw: &Vec<(String, Component)>) -> (idx: Vec<usize>)
        ensures
            one_per_uid(raw@, idx@),
    {
        let mut out: Vec<usize> = Vec::new();
        let mut uids: Vec<String> = Vec::new();
        let mut i: usize = 0;
        while i < raw.len()
            invariant
                i <= raw@.len(),
                out@.len() == uids@.len(),
                forall|k: int| 0 <= k < out@.len() ==> (#[trigger] out@[k]) < i,
                forall|k: int| 0 <= k < out@.len() ==> stored_key(raw@, #[trigger] out@[k] as int) == Some(uids@[k]@),
                forall|k: int, j: int| #![trigger out@[k], stored_key(raw@, j)] 0 <= k < out@.len() && out@[k] < j < i ==> stored_key(raw@, j) != stored_key(raw@, out@[k] as int),
                forall|k1: int, k2: int| 0 <= k1 < k2 < uids@.len() ==> uids@[k1]@ != uids@[k2]@,
                forall|j: int| 0 <= j < i && stored_key(raw@, j) is Some ==> exists|k: int| 0 <= k < out@.len() && stored_key(raw@, j) == Some(#[trigger] uids@[k]@),
            decreases raw.len() - i,
        {
            match Self::component_key_of(&raw[i].1) {
                Some(u) => {
                    let ghost old_out = out@;
                    let ghost old_uids = uids@;
                    match position_of_text(&uids, u.as_str()) {
                        Some(k) => {
                            out.set(k, i);
                            proof {
                                assert forall|j: int| 0 <= j < i + 1 && stored_key(raw@, j) is Some implies exists|k3: int| 0 <= k3 < out@.len() && stored_key(raw@, j) == Some(#[trigger] uids@[k3]@) by {
                                    if j == i {
                                        assert(stored_key(raw@, j) == Some(uids@[k as int]@));
                                    }
                                }
                                assert forall|k2: int| 0 <= k2 < out@.len() implies stored_key(raw@, #[trigger] out@[k2] as int) == Some(uids@[k2]@) by {
                                    if k2 != k {
                                        assert(out@[k2] == old_out[k2]);
                                    }
                                }
                                assert forall|k2: int, j: int| #![trigger out@[k2], stored_key(raw@, j)] 0 <= k2 < out@.len() && out@[k2] < j < i + 1 implies stored_key(raw@, j) != stored_key(raw@, out@[k2] as int) by {
                                    if k2 != k {
                                        assert(out@[k2] == old_out[k2]);
                                        if j == i {
                                            assert(uids@[k2]@ != uids@[k as int]@);
                                        }
                                    }
                                }
                            }
                        },
                        None => {
                            out.push(i);
                            uids.push(u);
                            proof {
                                assert forall|j: int| 0 <= j < i + 1 && stored_key(raw@, j) is Some implies exists|k3: int| 0 <= k3 < out@.len() && stored_key(raw@, j) == Some(#[trigger] uids@[k3]@) by {
                                    if j == i {
                                        assert(stored_key(raw@, j) == Some(uids@[uids@.len() - 1]@));
                                    } else {
                                        let k4 = choose|k4: int| 0 <= k4 < old_uids.len() && stored_key(raw@, j) == Some(#[trigger] old_uids[k4]@);
                                        assert(uids@[k4] == old_uids[k4]);
                                    }
                                }
                                assert forall|k2: int, j: int| #![trigger out@[k2], stored_key(raw@, j)] 0 <= k2 < out@.len() && out@[k2] < j < i + 1 implies stored_key(raw@, j) != stored_key(raw@, out@[k2] as int) by {
                                    if k2 < old_out.len() {
                                        assert(out@[k2] == old_out[k2]);
                                        assert(uids@[k2] == old_uids[k2]);
                                    }
                                }
                            }
                        },
                    }
                },
                None => {},
            }
            i = i + 1;
        }
        proof {
            assert forall|j: int| 0 <= j < raw@.len() && stored_key(raw@, j) is Some implies exists|k: int|
                0 <= k < out@.len() && stored_key(raw@, #[trigger] out@[k] as int) == stored_key(raw@, j) by {
                let k = choose|k: int| 0 <= k < out@.len() && stored_key(raw@, j) == Some(#[trigger] uids@[k]@);
                assert(stored_key(raw@, out@[k] as int) == Some(uids@[k]@));
            }
        }
        out
    }
}

/// An event survives an exception of `uid` that moved the occurrence at
/// `original`, unless it is that occurrence.
pub open spec fn survives(e: CalendarEvent, uid: Seq<char>, original: Option<Moment>) -> bool {
    match original {
        Some(o) => !(crate::text::begins_with(e.uid@, uid) && e.start.timestamp == o.timestamp),
        None => true,
    }
}

/// The events that survive an exception, in order.
pub open spec fn surviving(s: Seq<CalendarEvent>, uid: Seq<char>, original: Option<Moment>) -> Seq<CalendarEvent>
    decreases s.len(),
{
    if s.len() == 0 {
        s
    } else if survives(s.last(), uid, original) {
        surviving(s.drop_last(), uid, original).push(s.last())
    } else {
        surviving(s.drop_last(), uid, original)
    }
}

/// The event comes from a stored component: its `UID` begins with that
/// component's.
pub open spec fn from_store(e: CalendarEvent, raw: Seq<(String, Component)>) -> bool {
    exists|i: int|
        0 <= i < raw.len() && #[trigger] stored_uid(raw, i) is Some && crate::text::begins_with(
            e.uid@,
            stored_uid(raw, i).unwrap(),
        )
}

impl CalendarEvent {
    /// A copy of the event.
    pub fn copy(&self) -> (r: CalendarEvent)
        ensures
            r == *self,
    {
        CalendarEvent {
            uid: self.uid.clone(),
            summary: self.summary.clone(),
            description: clone_text(&self.description),
            color: clone_text(&self.color),
            is_all_day: self.is_all_day,
            start: self.start,
            end: self.end,
            location: clone_text(&self.location),
            calendar_name: clone_text(&self.calendar_name),
        }
    }
}

impl CalendarService {
    /// Replaces a moved occurrence by its exception: drops every event whose
    /// `UID` begins with `uid` and that starts at `original` (where the
    /// exception names one), then appends the exception.
    pub fn apply_exception(
        events: &Vec<CalendarEvent>,
        uid: &str,
        original: Option<Moment>,
        exception: CalendarEvent,
    ) -> (r: Vec<CalendarEvent>)
        ensures
            r@ == surviving(events@, uid@, original).push(exception),
    {
        let prefix = chars_of(uid);
        let mut out: Vec<CalendarEvent> = Vec::new();
        let mut i: usize = 0;
        while i < events.len()
            invariant
                i <= events@.len(),
                prefix@ == uid@,
                out@ == surviving(events@.take(i as int), uid@, original),
            decreases events.len() - i,
        {
            let e = &events[i];
            let keep = match original {
                Some(o) => {
                    let u = chars_of(e.uid.as_str());
                    !(crate::text::starts_with_text(u.as_slice(), prefix.as_slice()) && e.start.timestamp
                        == o.timestamp)
                },
                None => true,
            };
            assert(events@.take(i + 1).drop_last() =~= events@.take(i as int));
            assert(events@.take(i + 1).last() == events@[i as int]);
            if keep {
                out.push(e.copy());
            }
            i = i + 1;
        }
        assert(events@.take(events@.len() as int) =~= events@);
        out.push(exception);
        out
    }

    /// The events of the month `year`-`month` from the stored components.
    ///
    /// A component stored more than once counts once: only the last one
    /// stored with each key (its `UID`, and for an exception its
    /// `RECURRENCE-ID`) counts. Components without `RECURRENCE-ID` come
    /// first, in order: a recurring one
    /// (`RRULE`) gives its occurrences in the month, a single one its event
    /// where it starts in the month. Then each exception (`RECURRENCE-ID`)
    /// that starts in the month replaces the occurrence of its `UID` that it
    /// moved and is appended. What each component gave is assembled by
    /// [`month_from_outcomes`]; a component gives nothing only where its
    /// expansion failed or, for a single event, where [`single_none_ok`]
    /// allows it (see [`law_utc_event_inside_month_appears`]). Every event's
    /// `UID` begins with that of a stored component, and every event starts
    /// in the month.
    pub fn expand_month(
        raw: &Vec<(String, Component)>,
        colors: &Vec<(String, String)>,
        year: i32,
        month: u32,
    ) -> (events: Vec<CalendarEvent>)
        requires
            month_ok(year, month),
        ensures
            exists|
                chosen: Seq<usize>,
                outcomes: Seq<Option<Seq<CalendarEvent>>>,
                excs: Seq<Option<(Seq<char>, Option<Moment>, CalendarEvent)>>,
            |
                #[trigger] month_parts(raw@, colors@, month_first(year, month), next_month_first(year, month), chosen, outcomes, excs)
                    && events@ == month_assembly(outcome_lists(outcomes), present_exceptions(excs)),
            forall|k: int| 0 <= k < events@.len() ==> from_store(#[trigger] events@[k], raw@),
            forall|k: int| 0 <= k < events@.len() ==> in_month(#[trigger] events@[k], month_first(year, month), next_month_first(year, month)),
    {
        let from = Date { year, month, day: 1 };
        let to = if month == 12 {
            Date { year: year + 1, month: 1, day: 1 }
        } else {
            Date { year, month: month + 1, day: 1 }
        };
        assert(from == month_first(year, month) && to == next_month_first(year, month));
        let chosen = Self::unique_components(raw);
        let mut outs: Vec<Option<Vec<CalendarEvent>>> = Vec::new();
        let mut xs: Vec<Option<(String, Option<Moment>, CalendarEvent)>> = Vec::new();
        let mut k: usize = 0;
        while k < chosen.len()
            invariant
                k <= chosen@.len(),
                one_per_uid(raw@, chosen@),
                month_ok(year, month),
                from == month_first(year, month),
                to == next_month_first(year, month),
                outcome_views(outs@).len() == plain_of(raw@, chosen@.take(k as int)).len(),
                forall|i: int| 0 <= i < outcome_views(outs@).len() ==> outcome_fits(
                    #[trigger] outcome_views(outs@)[i],
                    raw@,
                    plain_of(raw@, chosen@.take(k as int))[i] as int,
                    colors@,
                    from,
                    to,
                ),
                exception_option_views(xs@).len() == exceptions_of(raw@, chosen@.take(k as int)).len(),
                forall|q: int| 0 <= q < exception_option_views(xs@).len() ==> exception_outcome_fits(
                    #[trigger] exception_option_views(xs@)[q],
                    raw@,
                    exceptions_of(raw@, chosen@.take(k as int))[q] as int,
                    colors@,
                    from,
                    to,
                ),
            decreases chosen.len() - k,
        {
            let idx = chosen[k];
            assert(last_with_uid(raw@, chosen@[k as int] as int));
            let ghost before_outs = outcome_views(outs@);
            let ghost before_xs = exception_option_views(xs@);
            let ghost before_plain = plain_of(raw@, chosen@.take(k as int));
            let ghost before_exc = exceptions_of(raw@, chosen@.take(k as int));
            proof {
                assert(chosen@.take(k + 1).drop_last() =~= chosen@.take(k as int));
                assert(chosen@.take(k + 1).last() == idx);
            }
            let (calendar_uid, c) = (&raw[idx].0, &raw[idx].1);
            let ghost u = stored_uid(raw@, idx as int).unwrap();
            if !has_recurrence_id(c) {
                let o: Option<Vec<CalendarEvent>> = if has_rrule(c) {
                    match Self::expand_recurring_event(c, from, to, calendar_uid.as_str(), colors) {
                        Some(found) => {
                            proof {
                                let (st, d, fnd, ends, lo, hi) = choose|
                                    st: Moment,
                                    d: int,
                                    fnd: Seq<Moment>,
                                    ends: Seq<Option<Moment>>,
                                    lo: Moment,
                                    hi: Moment,
                                | #[trigger] recurrence_outcome(*c, from, to, found@, st, d, fnd, ends, lo, hi);
                                lemma_numbered_from(fnd, ends, hi.timestamp as int);
                                let occ = numbered_occurrences(fnd, ends, hi.timestamp as int);
                                assert forall|j: int| 0 <= j < found@.len() implies month_event(
                                    #[trigger] found@[j],
                                    raw@,
                                    idx as int,
                                    colors@,
                                    from,
                                    to,
                                ) by {
                                    let e = found@[j];
                                    assert(crate::text::begins_with(e.uid@, u + "-occurrence-"@));
                                    assert((u + "-occurrence-"@).subrange(0, u.len() as int) =~= u);
                                    assert(e.uid@.subrange(0, u.len() as int) =~= e.uid@.subrange(0, (u + "-occurrence-"@).len() as int).subrange(0, u.len() as int));
                                    let i = choose|i: int| 0 <= i < fnd.len() && occ[j].1 == fnd[i] && fnd[i].timestamp < hi.timestamp;
                                    assert(lo.timestamp <= fnd[i].timestamp);
                                    assert(month_bounds(lo, hi, from, to));
                                }
                            }
                            Some(found)
                        },
                        None => None,
                    }
                } else {
                    match Self::parse_component_to_event(c, from, to, calendar_uid.as_str(), colors) {
                        Some(e) => {
                            proof {
                                assert(e.uid@.subrange(0, e.uid@.len() as int) =~= e.uid@);
                            }
                            let mut v: Vec<CalendarEvent> = Vec::new();
                            v.push(e);
                            assert(v@[0] == e);
                            Some(v)
                        },
                        None => None,
                    }
                };
                let ghost ov = match &o {
                    Some(v) => Some(v@),
                    None => None,
                };
                proof {
                    assert(outcome_fits(ov, raw@, idx as int, colors@, from, to));
                }
                outs.push(o);
                proof {
                    assert(outcome_views(outs@) =~= before_outs.push(ov));
                    assert(plain_of(raw@, chosen@.take(k + 1)) == before_plain.push(idx));
                    assert(exceptions_of(raw@, chosen@.take(k + 1)) == before_exc);
                    assert(exception_option_views(xs@) == before_xs);
                }
            } else {
                proof {
                    assert(plain_of(raw@, chosen@.take(k + 1)) == before_plain);
                    assert(exceptions_of(raw@, chosen@.take(k + 1)) == before_exc.push(idx));
                }
                let uid = get_component_uid(c);
                let rid = property(c, Property::RecurrenceId);
                let x: Option<(String, Option<Moment>, CalendarEvent)> = match (uid, rid) {
                    (Some(uid), Some(rid)) => match Self::parse_component_to_event(c, from, to, calendar_uid.as_str(), colors) {
                        Some(exception) => {
                            let original = if rid.values.len() > 0 {
                                match Self::parse_datetime_value(&rid.values[0]) {
                                    Some((m, _)) => Some(m),
                                    None => None,
                                }
                            } else {
                                None
                            };
                            proof {
                                assert(exception.uid@.subrange(0, exception.uid@.len() as int) =~= exception.uid@);
                                assert(exception_fits((uid@, original, exception), raw@, idx as int, colors@, from, to));
                            }
                            Some((uid, original, exception))
                        },
                        None => None,
                    },
                    _ => None,
                };
                let ghost xv = match &x {
                    Some(t) => Some((t.0@, t.1, t.2)),
                    None => None,
                };
                proof {
                    assert(exception_outcome_fits(xv, raw@, idx as int, colors@, from, to));
                }
                xs.push(x);
                proof {
                    assert(exception_option_views(xs@) =~= before_xs.push(xv));
                    assert(outcome_views(outs@) == before_outs);
                }
            }
            k = k + 1;
        }
        proof {
            assert(chosen@.take(chosen@.len() as int) =~= chosen@);
        }
        let ghost ov = outcome_views(outs@);
        let ghost xv = exception_option_views(xs@);
        let events = month_from_outcomes(outs, xs);
        proof {
            assert(month_parts(raw@, colors@, from, to, chosen@, ov, xv));
            let bv = outcome_lists(ov);
            let pv = present_exceptions(xv);
            let p = |e: CalendarEvent| from_store(e, raw@) && in_month(e, from, to);
            assert forall|i: int, j: int| 0 <= i < bv.len() && 0 <= j < bv[i].len() implies #[trigger] p(bv[i][j]) by {
                let q = plain_of(raw@, chosen@)[i] as int;
                assert(outcome_fits(ov[i], raw@, q, colors@, from, to));
                let e = bv[i][j];
                assert(month_event(e, raw@, q, colors@, from, to));
                assert(stored_uid(raw@, q) is Some);
            }
            lemma_present_from(xv);
            assert forall|m: int| 0 <= m < pv.len() implies #[trigger] p(pv[m].2) by {
                let q = choose|q: int| 0 <= q < xv.len() && xv[q] == Some(#[trigger] pv[m]);
                let src = exceptions_of(raw@, chosen@)[q] as int;
                assert(exception_outcome_fits(xv[q], raw@, src, colors@, from, to));
                assert(exception_fits(pv[m], raw@, src, colors@, from, to));
                assert(stored_uid(raw@, src) is Some);
            }
            lemma_assembly_keeps(bv, pv, p);
            assert forall|k: int| 0 <= k < events@.len() implies from_store(#[trigger] events@[k], raw@) && in_month(
                events@[k],
                from,
                to,
            ) by {
                assert(p(month_assembly(bv, pv)[k]));
            }
        }
        events
    }
}

/// Each exception given is one of the options.
proof fn lemma_present_from(x: Seq<Option<(Seq<char>, Option<Moment>, CalendarEvent)>>)
    ensures
        forall|m: int| 0 <= m < present_exceptions(x).len() ==> exists|q: int|
            0 <= q < x.len() && x[q] == Some(#[trigger] present_exceptions(x)[m]),
    decreases x.len(),
{
    if x.len() > 0 {
        lemma_present_from(x.drop_last());
        let p = present_exceptions(x);
        let d = present_exceptions(x.drop_last());
        assert forall|m: int| 0 <= m < p.len() implies exists|q: int| 0 <= q < x.len() && x[q] == Some(#[trigger] p[m]) by {
            if m < d.len() {
                assert(p[m] == d[m]);
                let q = choose|q: int| 0 <= q < x.drop_last().len() && x.drop_last()[q] == Some(#[trigger] d[m]);
                assert(x[q] == x.drop_last()[q]);
            } else {
                assert(x[x.len() - 1] == x.last());
            }
        }
    }
}

/// The first day of a month.
pub open spec fn month_first(year: i32, month: u32) -> Date {
    Date { year, month, day: 1 }
}

/// The first day of the month after `year`-`month`.
pub open spec fn next_month_first(year: i32, month: u32) -> Date {
    if month == 12 {
        Date { year: (year + 1) as i32, month: 1, day: 1 }
    } else {
        Date { year, month: (month + 1) as u32, day: 1 }
    }
}

/// A month's range `[month_first, next_month_first)` is not empty, and a date
/// (month 1 to 12, day 1 or later) falls in it exactly when it has the
/// month's year and month; for December the range runs into January 1 of
/// the next year.
pub proof fn law_month_range(year: i32, month: u32, d: Date)
    requires
        month_ok(year, month),
        1 <= d.month <= 12,
        1 <= d.day,
    ensures
        date_before(month_first(year, month), next_month_first(year, month)),
        date_in(d, month_first(year, month), next_month_first(year, month)) <==> (d.year == year && d.month
            == month),
        month == 12 ==> next_month_first(year, month) == (Date { year: (year + 1) as i32, month: 1, day: 1 }),
{
    assert(year < i32::MAX) by {
        assert(crate::calendar::moment::MAX_YEAR < i32::MAX);
    }
}

/// `lo` and `hi` are the moments of the local midnights that begin `from`
/// and `to`.
pub open spec fn month_bounds(lo: Moment, hi: Moment, from: Date, to: Date) -> bool {
    lo.local == midnight(from) && hi.local == midnight(to)
}

/// The event starts in `[from, to)`: by its local date, or, for an
/// occurrence, by its instant between the local midnights of the two days.
pub open spec fn in_month(e: CalendarEvent, from: Date, to: Date) -> bool {
    ||| date_in(date_of(e.start.local), from, to)
    ||| exists|lo: Moment, hi: Moment|
        #[trigger] month_bounds(lo, hi, from, to) && lo.timestamp <= e.start.timestamp < hi.timestamp
}

/// `e` is an event that the stored component `raw[i]` gives for `[from, to)`.
pub open spec fn month_event(e: CalendarEvent, raw: Seq<(String, Component)>, i: int, colors: Seq<(String, String)>, from: Date, to: Date) -> bool {
    &&& 0 <= i < raw.len()
    &&& text_value(raw[i].1, Property::Uid) matches Some(u)
    &&& begins_with(e.uid@, u)
    &&& event_texts(e, raw[i].1, raw[i].0@, colors)
    &&& in_month(e, from, to)
}

/// `x` is the exception that the stored component `raw[i]`, which has a
/// `RECURRENCE-ID`, gives: its `UID`, the moment it moved (where the
/// `RECURRENCE-ID` reads as one) and its event, which starts in the month.
pub open spec fn exception_fits(
    x: (Seq<char>, Option<Moment>, CalendarEvent),
    raw: Seq<(String, Component)>,
    i: int,
    colors: Seq<(String, String)>,
    from: Date,
    to: Date,
) -> bool {
    &&& 0 <= i < raw.len()
    &&& find_entry(raw[i].1, Property::RecurrenceId) is Some
    &&& text_value(raw[i].1, Property::Uid) == Some(x.0)
    &&& month_event(x.2, raw, i, colors, from, to)
    &&& date_in(date_of(x.2.start.local), from, to)
    &&& match x.1 {
        Some(m) => first_value(raw[i].1, Property::RecurrenceId) matches Some(v) && reading_fits(v, (m, w_all_day(v))),
        None => first_value(raw[i].1, Property::RecurrenceId) matches Some(v) ==> match value_reading(v) {
            Some(rd) => !rd.2,
            None => true,
        },
    }
}

/// What the stored component `raw[i]`, which has no `RECURRENCE-ID`, gave
/// for the month. A recurring one (`RRULE`): nothing where its expansion
/// failed, else its numbered occurrences (see [`recurrence_outcome`]). A
/// single one: nothing only where [`single_none_ok`] allows it, else its one
/// event, which starts at the moment its `DTSTART` reads as.
pub open spec fn outcome_fits(
    o: Option<Seq<CalendarEvent>>,
    raw: Seq<(String, Component)>,
    i: int,
    colors: Seq<(String, String)>,
    from: Date,
    to: Date,
) -> bool {
    let c = raw[i].1;
    match o {
        None => find_entry(c, Property::Rrule) is Some || single_none_ok(c, from, to),
        Some(evs) => {
            &&& forall|j: int| 0 <= j < evs.len() ==> month_event(#[trigger] evs[j], raw, i, colors, from, to)
            &&& if find_entry(c, Property::Rrule) is Some {
                exists|st: Moment, d: int, found: Seq<Moment>, ends: Seq<Option<Moment>>, lo: Moment, hi: Moment|
                    #[trigger] recurrence_outcome(c, from, to, evs, st, d, found, ends, lo, hi)
            } else {
                &&& evs.len() == 1
                &&& first_value(c, Property::Dtstart) matches Some(v)
                &&& reading_fits(v, (evs[0].start, evs[0].is_all_day))
            }
        },
    }
}

/// What the stored component `raw[i]`, which has a `RECURRENCE-ID`, gave
/// for the month: nothing only where it has no `UID` or
/// [`single_none_ok`] allows it, else its exception.
pub open spec fn exception_outcome_fits(
    x: Option<(Seq<char>, Option<Moment>, CalendarEvent)>,
    raw: Seq<(String, Component)>,
    i: int,
    colors: Seq<(String, String)>,
    from: Date,
    to: Date,
) -> bool {
    match x {
        None => text_value(raw[i].1, Property::Uid) is None || single_none_ok(raw[i].1, from, to),
        Some(x) => exception_fits(x, raw, i, colors, from, to),
    }
}

/// The chosen components with `RECURRENCE-ID`, in order.
pub open spec fn exceptions_of(raw: Seq<(String, Component)>, chosen: Seq<usize>) -> Seq<usize>
    decreases chosen.len(),
{
    if chosen.len() == 0 {
        Seq::empty()
    } else if find_entry(raw[chosen.last() as int].1, Property::RecurrenceId) is Some {
        exceptions_of(raw, chosen.drop_last()).push(chosen.last())
    } else {
        exceptions_of(raw, chosen.drop_last())
    }
}

/// The chosen components without `RECURRENCE-ID`, in order.
pub open spec fn plain_of(raw: Seq<(String, Component)>, chosen: Seq<usize>) -> Seq<usize>
    decreases chosen.len(),
{
    if chosen.len() == 0 {
        Seq::empty()
    } else if find_entry(raw[chosen.last() as int].1, Property::RecurrenceId) is None {
        plain_of(raw, chosen.drop_last()).push(chosen.last())
    } else {
        plain_of(raw, chosen.drop_last())
    }
}

/// The parts a month is assembled from: one component per key
/// (`chosen`); `outcomes[i]`, what the `i`-th chosen component without
/// `RECURRENCE-ID` gave; and `excs[q]`, what the `q`-th chosen component
/// with one gave.
pub open spec fn month_parts(
    raw: Seq<(String, Component)>,
    colors: Seq<(String, String)>,
    from: Date,
    to: Date,
    chosen: Seq<usize>,
    outcomes: Seq<Option<Seq<CalendarEvent>>>,
    excs: Seq<Option<(Seq<char>, Option<Moment>, CalendarEvent)>>,
) -> bool {
    &&& one_per_uid(raw, chosen)
    &&& outcomes.len() == plain_of(raw, chosen).len()
    &&& forall|i: int| 0 <= i < outcomes.len() ==> outcome_fits(#[trigger] outcomes[i], raw, plain_of(raw, chosen)[i] as int, colors, from, to)
    &&& excs.len() == exceptions_of(raw, chosen).len()
    &&& forall|q: int| 0 <= q < excs.len() ==> exception_outcome_fits(#[trigger] excs[q], raw, exceptions_of(raw, chosen)[q] as int, colors, from, to)
}

/// The event lists of the outcomes: an outcome without events gives none.
pub open spec fn outcome_lists(o: Seq<Option<Seq<CalendarEvent>>>) -> Seq<Seq<CalendarEvent>> {
    o.map_values(|x: Option<Seq<CalendarEvent>>| match x {
        Some(v) => v,
        None => Seq::empty(),
    })
}

/// The exceptions that were given, in order.
pub open spec fn present_exceptions(x: Seq<Option<(Seq<char>, Option<Moment>, CalendarEvent)>>) -> Seq<(Seq<char>, Option<Moment>, CalendarEvent)>
    decreases x.len(),
{
    if x.len() == 0 {
        Seq::empty()
    } else {
        match x.last() {
            Some(e) => present_exceptions(x.drop_last()).push(e),
            None => present_exceptions(x.drop_last()),
        }
    }
}

pub open spec fn outcome_views(o: Seq<Option<Vec<CalendarEvent>>>) -> Seq<Option<Seq<CalendarEvent>>> {
    o.map_values(|x: Option<Vec<CalendarEvent>>| match x {
        Some(v) => Some(v@),
        None => None,
    })
}

pub open spec fn exception_option_views(x: Seq<Option<(String, Option<Moment>, CalendarEvent)>>) -> Seq<Option<(Seq<char>, Option<Moment>, CalendarEvent)>> {
    x.map_values(|e: Option<(String, Option<Moment>, CalendarEvent)>| match e {
        Some(t) => Some((t.0@, t.1, t.2)),
        None => None,
    })
}

/// The events of the components, one list after the other.
pub open spec fn concat_events(bases: Seq<Seq<CalendarEvent>>) -> Seq<CalendarEvent>
    decreases bases.len(),
{
    if bases.len() == 0 {
        Seq::empty()
    } else {
        concat_events(bases.drop_last()) + bases.last()
    }
}

/// `evs` with each exception applied in turn: the occurrences of its `UID`
/// that it moved are dropped and the exception is appended.
pub open spec fn with_exceptions(evs: Seq<CalendarEvent>, exs: Seq<(Seq<char>, Option<Moment>, CalendarEvent)>) -> Seq<CalendarEvent>
    decreases exs.len(),
{
    if exs.len() == 0 {
        evs
    } else {
        let x = exs.last();
        surviving(with_exceptions(evs, exs.drop_last()), x.0, x.1).push(x.2)
    }
}

/// The events of a month assembled from its parts.
pub open spec fn month_assembly(bases: Seq<Seq<CalendarEvent>>, exs: Seq<(Seq<char>, Option<Moment>, CalendarEvent)>) -> Seq<CalendarEvent> {
    with_exceptions(concat_events(bases), exs)
}

pub open spec fn base_views(bases: Seq<Vec<CalendarEvent>>) -> Seq<Seq<CalendarEvent>> {
    bases.map_values(|b: Vec<CalendarEvent>| b@)
}

pub open spec fn exception_views(exs: Seq<(String, Option<Moment>, CalendarEvent)>) -> Seq<(Seq<char>, Option<Moment>, CalendarEvent)> {
    exs.map_values(|x: (String, Option<Moment>, CalendarEvent)| (x.0@, x.1, x.2))
}

/// Assembles a month: the events of each component in turn, then each
/// exception applied in turn (see [`with_exceptions`]).
pub fn assemble_month(bases: &Vec<Vec<CalendarEvent>>, exceptions: &Vec<(String, Option<Moment>, CalendarEvent)>) -> (r: Vec<CalendarEvent>)
    ensures
        r@ == month_assembly(base_views(bases@), exception_views(exceptions@)),
{
    let ghost bv = base_views(bases@);
    let ghost xv = exception_views(exceptions@);
    let mut out: Vec<CalendarEvent> = Vec::new();
    let mut i: usize = 0;
    while i < bases.len()
        invariant
            i <= bases@.len(),
            bv == base_views(bases@),
            out@ == concat_events(bv.take(i as int)),
        decreases bases.len() - i,
    {
        let b = &bases[i];
        let ghost before = out@;
        let mut j: usize = 0;
        while j < b.len()
            invariant
                j <= b@.len(),
                out@ == before + b@.take(j as int),
            decreases b.len() - j,
        {
            out.push(b[j].copy());
            assert(b@.take(j + 1) =~= b@.take(j as int).push(b@[j as int]));
            j = j + 1;
        }
        proof {
            assert(b@.take(b@.len() as int) =~= b@);
            assert(bv.take(i + 1).drop_last() =~= bv.take(i as int));
            assert(bv.take(i + 1).last() == b@);
        }
        i = i + 1;
    }
    assert(bv.take(bv.len() as int) =~= bv);
    let mut k: usize = 0;
    while k < exceptions.len()
        invariant
            k <= exceptions@.len(),
            xv == exception_views(exceptions@),
            out@ == with_exceptions(concat_events(bv), xv.take(k as int)),
        decreases exceptions.len() - k,
    {
        let x = &exceptions[k];
        out = CalendarService::apply_exception(&out, x.0.as_str(), x.1, x.2.copy());
        proof {
            assert(xv.take(k + 1).drop_last() =~= xv.take(k as int));
            assert(xv.take(k + 1).last() == xv[k as int]);
        }
        k = k + 1;
    }
    assert(xv.take(xv.len() as int) =~= xv);
    out
}

/// Assembles a month from what each component gave: the events of each
/// outcome in turn (none for an outcome without events), then each
/// exception that was given, applied in turn (see [`with_exceptions`]).
pub fn month_from_outcomes(
    outcomes: Vec<Option<Vec<CalendarEvent>>>,
    exceptions: Vec<Option<(String, Option<Moment>, CalendarEvent)>>,
) -> (r: Vec<CalendarEvent>)
    ensures
        r@ == month_assembly(
            outcome_lists(outcome_views(outcomes@)),
            present_exceptions(exception_option_views(exceptions@)),
        ),
{
    let ghost ol = outcome_lists(outcome_views(outcomes@));
    let ghost orig = outcomes@;
    let mut rest = outcomes;
    let mut bases: Vec<Vec<CalendarEvent>> = Vec::new();
    let ghost mut i: int = 0;
    assert(orig.skip(0) =~= orig);
    assert(base_views(bases@) =~= ol.take(0));
    while rest.len() > 0
        invariant
            0 <= i <= orig.len(),
            rest@ == orig.skip(i),
            ol == outcome_lists(outcome_views(orig)),
            base_views(bases@) == ol.take(i),
        decreases rest@.len(),
    {
        assert(rest@[0] == orig[i]);
        let o = rest.remove(0);
        let ghost before = base_views(bases@);
        match o {
            Some(v) => bases.push(v),
            None => bases.push(Vec::new()),
        }
        proof {
            assert(base_views(bases@) =~= before.push(ol[i]));
            assert(ol.take(i + 1) =~= ol.take(i).push(ol[i]));
            assert(rest@ =~= orig.skip(i + 1));
            i = i + 1;
        }
    }
    assert(ol.take(i) =~= ol);
    let ghost xov = exception_option_views(exceptions@);
    let ghost xorig = exceptions@;
    let mut xrest = exceptions;
    let mut exs: Vec<(String, Option<Moment>, CalendarEvent)> = Vec::new();
    let ghost mut q: int = 0;
    assert(xorig.skip(0) =~= xorig);
    assert(xov.take(0) =~= Seq::<Option<(Seq<char>, Option<Moment>, CalendarEvent)>>::empty());
    assert(exception_views(exs@) =~= present_exceptions(xov.take(0)));
    while xrest.len() > 0
        invariant
            0 <= q <= xorig.len(),
            xrest@ == xorig.skip(q),
            xov == exception_option_views(xorig),
            exception_views(exs@) == present_exceptions(xov.take(q)),
        decreases xrest@.len(),
    {
        assert(xrest@[0] == xorig[q]);
        let x = xrest.remove(0);
        let ghost before = exception_views(exs@);
        proof {
            assert(xov.take(q + 1).drop_last() =~= xov.take(q));
            assert(xov.take(q + 1).last() == xov[q]);
        }
        match x {
            Some(t) => {
                let ghost tv = (t.0@, t.1, t.2);
                exs.push(t);
                assert(exception_views(exs@) =~= before.push(tv));
            },
            None => {},
        }
        proof {
            assert(xrest@ =~= xorig.skip(q + 1));
            q = q + 1;
        }
    }
    assert(xov.take(q) =~= xov);
    assemble_month(&bases, &exs)
}

/// Each occurrence of the month is one of the instants found, and starts
/// before the end.
proof fn lemma_numbered_from(found: Seq<Moment>, ends: Seq<Option<Moment>>, end: int)
    ensures
        forall|k: int| 0 <= k < numbered_occurrences(found, ends, end).len() ==> exists|i: int|
            0 <= i < found.len() && (#[trigger] numbered_occurrences(found, ends, end)[k]).1 == found[i] && found[i].timestamp < end,
    decreases found.len(),
{
    if found.len() > 0 {
        lemma_numbered_from(found.drop_last(), ends.drop_last(), end);
        let prev = numbered_occurrences(found.drop_last(), ends.drop_last(), end);
        let occ = numbered_occurrences(found, ends, end);
        assert forall|k: int| 0 <= k < occ.len() implies exists|i: int|
            0 <= i < found.len() && (#[trigger] occ[k]).1 == found[i] && found[i].timestamp < end by {
            if k < prev.len() {
                assert(occ[k] == prev[k]);
                let i = choose|i: int| 0 <= i < found.drop_last().len() && (#[trigger] prev[k]).1 == found.drop_last()[i] && found.drop_last()[i].timestamp < end;
                assert(found[i] == found.drop_last()[i]);
            } else {
                assert(found[found.len() - 1] == found.last());
            }
        }
    }
}

/// A property of every event of the components and of every exception holds
/// of every event of the month.
proof fn lemma_assembly_keeps(
    bases: Seq<Seq<CalendarEvent>>,
    exs: Seq<(Seq<char>, Option<Moment>, CalendarEvent)>,
    p: spec_fn(CalendarEvent) -> bool,
)
    requires
        forall|i: int, j: int| 0 <= i < bases.len() && 0 <= j < bases[i].len() ==> #[trigger] p(bases[i][j]),
        forall|m: int| 0 <= m < exs.len() ==> #[trigger] p(exs[m].2),
    ensures
        forall|k: int| 0 <= k < month_assembly(bases, exs).len() ==> #[trigger] p(month_assembly(bases, exs)[k]),
    decreases exs.len(),
{
    if exs.len() == 0 {
        lemma_concat_keeps(bases, p);
    } else {
        lemma_assembly_keeps(bases, exs.drop_last(), p);
        let x = exs.last();
        let prev = month_assembly(bases, exs.drop_last());
        lemma_surviving_subset(prev, x.0, x.1);
        let t = surviving(prev, x.0, x.1);
        assert forall|k: int| 0 <= k < month_assembly(bases, exs).len() implies #[trigger] p(month_assembly(bases, exs)[k]) by {
            if k < t.len() {
                let j = choose|j: int| 0 <= j < prev.len() && prev[j] == #[trigger] t[k];
                assert(p(prev[j]));
            } else {
                assert(p(exs[exs.len() - 1].2));
            }
        }
    }
}

proof fn lemma_concat_keeps(bases: Seq<Seq<CalendarEvent>>, p: spec_fn(CalendarEvent) -> bool)
    requires
        forall|i: int, j: int| 0 <= i < bases.len() && 0 <= j < bases[i].len() ==> #[trigger] p(bases[i][j]),
    ensures
        forall|k: int| 0 <= k < concat_events(bases).len() ==> #[trigger] p(concat_events(bases)[k]),
    decreases bases.len(),
{
    if bases.len() > 0 {
        let init = bases.drop_last();
        assert forall|i: int, j: int| 0 <= i < init.len() && 0 <= j < init[i].len() implies #[trigger] p(init[i][j]) by {
            assert(init[i] == bases[i]);
        }
        lemma_concat_keeps(init, p);
        let c = concat_events(bases);
        let d = concat_events(init);
        assert forall|k: int| 0 <= k < c.len() implies #[trigger] p(c[k]) by {
            if k < d.len() {
                assert(c[k] == d[k]);
            } else {
                assert(c[k] == bases.last()[k - d.len()]);
                assert(p(bases[bases.len() - 1][k - d.len()]));
            }
        }
    }
}

/// Every surviving event is one of the events.
proof fn lemma_surviving_subset(s: Seq<CalendarEvent>, uid: Seq<char>, original: Option<Moment>)
    ensures
        forall|m: int| 0 <= m < surviving(s, uid, original).len() ==> exists|j: int| 0 <= j < s.len() && s[j] == #[trigger] surviving(s, uid, original)[m],
    decreases s.len(),
{
    if s.len() > 0 {
        lemma_surviving_subset(s.drop_last(), uid, original);
        let t = surviving(s, uid, original);
        let d = surviving(s.drop_last(), uid, original);
        assert forall|m: int| 0 <= m < t.len() implies exists|j: int| 0 <= j < s.len() && s[j] == #[trigger] t[m] by {
            if m < d.len() {
                let j = choose|j: int| 0 <= j < s.drop_last().len() && s.drop_last()[j] == #[trigger] d[m];
                assert(s[j] == t[m]);
            } else {
                assert(s[s.len() - 1] == t[m]);
            }
        }
    }
}

// ---------------------------------------------------------------------------
// Order of a day's events
// ---------------------------------------------------------------------------
/// Day order: all-day events before timed ones, then by start.
pub open spec fn comes_before(a: CalendarEvent, b: CalendarEvent) -> bool {
    (a.is_all_day && !b.is_all_day) || (a.is_all_day == b.is_all_day && a.start.timestamp
        < b.start.timestamp)
}

/// Where `e` goes in `s`, searching from `i`: before the first event that it
/// comes before, so after every event equal to it in day order.
pub open spec fn insert_pos(s: Seq<CalendarEvent>, e: CalendarEvent, i: int) -> int
    decreases s.len() - i,
{
    if i < 0 || i >= s.len() {
        s.len() as int
    } else if comes_before(e, s[i]) {
        i
    } else {
        insert_pos(s, e, i + 1)
    }
}

/// The events in day order; events equal in day order keep their order
/// (a stable sort).
pub open spec fn sorted_events(s: Seq<CalendarEvent>) -> Seq<CalendarEvent>
    decreases s.len(),
{
    if s.len() == 0 {
        s
    } else {
        let t = sorted_events(s.drop_last());
        t.insert(insert_pos(t, s.last(), 0), s.last())
    }
}

/// No event comes before an earlier one.
pub open spec fn in_day_order(s: Seq<CalendarEvent>) -> bool {
    forall|i: int, j: int| 0 <= i < j < s.len() ==> !comes_before(#[trigger] s[j], #[trigger] s[i])
}

proof fn lemma_insert_pos(s: Seq<CalendarEvent>, e: CalendarEvent, i: int)
    requires
        0 <= i <= s.len(),
    ensures
        i <= insert_pos(s, e, i) <= s.len(),
        forall|k: int| i <= k < insert_pos(s, e, i) ==> !comes_before(e, #[trigger] s[k]),
        insert_pos(s, e, i) < s.len() ==> comes_before(e, s[insert_pos(s, e, i)]),
    decreases s.len() - i,
{
    if i < s.len() && !comes_before(e, s[i]) {
        lemma_insert_pos(s, e, i + 1);
    }
}

proof fn lemma_insert_keeps_order(t: Seq<CalendarEvent>, e: CalendarEvent)
    requires
        in_day_order(t),
    ensures
        in_day_order(t.insert(insert_pos(t, e, 0), e)),
{
    lemma_insert_pos(t, e, 0);
    let p = insert_pos(t, e, 0);
    let r = t.insert(p, e);
    assert forall|i: int, j: int| 0 <= i < j < r.len() implies !comes_before(#[trigger] r[j], #[trigger] r[i]) by {
        if j < p {
            assert(r[i] == t[i] && r[j] == t[j]);
        } else if j == p {
            assert(r[i] == t[i]);
        } else if i < p {
            assert(r[i] == t[i] && r[j] == t[j - 1]);
        } else if i == p {
            assert(r[j] == t[j - 1]);
            if j - 1 > p {
                assert(!comes_before(t[j - 1], t[p]));
            }
        } else {
            assert(r[i] == t[i - 1] && r[j] == t[j - 1]);
        }
    }
}

/// The day order of `sorted_events` holds: no event comes before an earlier
/// one.
pub proof fn law_sorted_events_in_day_order(s: Seq<CalendarEvent>)
    ensures
        in_day_order(sorted_events(s)),
    decreases s.len(),
{
    if s.len() > 0 {
        law_sorted_events_in_day_order(s.drop_last());
        lemma_insert_keeps_order(sorted_events(s.drop_last()), s.last());
    }
}

/// Sorting a day's events neither drops nor adds one: the result holds the
/// same events, each as often.
pub proof fn law_sorted_events_permutes(s: Seq<CalendarEvent>)
    ensures
        sorted_events(s).to_multiset() == s.to_multiset(),
        sorted_events(s).len() == s.len(),
    decreases s.len(),
{
    broadcast use vstd::seq_lib::to_multiset_insert, vstd::seq_lib::to_multiset_build;
    if s.len() > 0 {
        law_sorted_events_permutes(s.drop_last());
        let t = sorted_events(s.drop_last());
        lemma_insert_pos(t, s.last(), 0);
        assert(s.drop_last().push(s.last()) =~= s);
    }
}

impl CalendarService {
    fn insert_position(s: &Vec<CalendarEvent>, e: &CalendarEvent) -> (p: usize)
        ensures
            p == insert_pos(s@, *e, 0),
    {
        let mut p: usize = 0;
        while p < s.len()
            invariant
                p <= s@.len(),
                insert_pos(s@, *e, 0) == insert_pos(s@, *e, p as int),
            decreases s.len() - p,
        {
            if (e.is_all_day && !s[p].is_all_day) || (e.is_all_day == s[p].is_all_day
                && e.start.timestamp < s[p].start.timestamp) {
                return p;
            }
            p = p + 1;
        }
        p
    }

    /// The events in day order (stable).
    pub fn sort_day_events(events: Vec<CalendarEvent>) -> (r: Vec<CalendarEvent>)
        ensures
            r@ == sorted_events(events@),
    {
        let mut out: Vec<CalendarEvent> = Vec::new();
        let mut i: usize = 0;
        while i < events.len()
            invariant
                i <= events@.len(),
                out@ == sorted_events(events@.take(i as int)),
            decreases events.len() - i,
        {
            let e = events[i].copy();
            let p = Self::insert_position(&out, &e);
            proof {
                lemma_insert_pos(out@, e, 0);
            }
            proof {
                assert(events@.take(i + 1).drop_last() =~= events@.take(i as int));
                assert(events@.take(i + 1).last() == e);
            }
            out.insert(p, e);
            i = i + 1;
        }
        assert(events@.take(events@.len() as int) =~= events@);
        out
    }
}

/// The calendar service. Components are kept as they arrive; events are
/// expanded from them one month at a time and cached until the components
/// change.
pub struct CalendarService {
    raw_components: Vec<(String, Component)>,
    expanded_cache: Vec<(i32, u32, Vec<CalendarEvent>)>,
    calendar_colors: Vec<(String, String)>,
    monitored_calendars: Vec<String>,
    events_changed: Signal<()>,
}

/// The cached events of a month: the first entry for it.
pub open spec fn cached_month(cache: Seq<(i32, u32, Vec<CalendarEvent>)>, year: i32, month: u32) -> Option<Seq<CalendarEvent>>
    decreases cache.len(),
{
    if cache.len() == 0 {
        None
    } else if cache[0].0 == year && cache[0].1 == month {
        Some(cache[0].2@)
    } else {
        cached_month(cache.drop_first(), year, month)
    }
}

/// What the events of date `d` are, given the cache: those of the cached
/// month on that date in day order, or none where the month is not cached or
/// has no following month that `chrono` represents.
pub open spec fn day_result(cache: Seq<(i32, u32, Vec<CalendarEvent>)>, d: Date, r: Seq<CalendarEvent>) -> bool {
    if month_ok(d.year, d.month) {
        match cached_month(cache, d.year, d.month) {
            Some(evs) => r == sorted_events(events_on(evs, d)),
            None => r.len() == 0,
        }
    } else {
        r.len() == 0
    }
}

/// The events that start on the local date `d`, in order.
pub open spec fn events_on(s: Seq<CalendarEvent>, d: Date) -> Seq<CalendarEvent>
    decreases s.len(),
{
    if s.len() == 0 {
        s
    } else if date_of(s.last().start.local) == d {
        events_on(s.drop_last(), d).push(s.last())
    } else {
        events_on(s.drop_last(), d)
    }
}

/// The days on which some event starts.
pub open spec fn event_days(evs: Seq<CalendarEvent>) -> Set<u32> {
    Set::new(|d: u32| exists|k: int| 0 <= k < evs.len() && (#[trigger] evs[k]).start.local.day == d)
}

proof fn lemma_events_on_nonempty(s: Seq<CalendarEvent>, d: Date)
    ensures
        events_on(s, d).len() > 0 <==> exists|k: int| 0 <= k < s.len() && date_of((#[trigger] s[k]).start.local) == d,
    decreases s.len(),
{
    if s.len() > 0 {
        lemma_events_on_nonempty(s.drop_last(), d);
        if exists|k: int| 0 <= k < s.drop_last().len() && date_of((#[trigger] s.drop_last()[k]).start.local) == d {
            let k = choose|k: int| 0 <= k < s.drop_last().len() && date_of((#[trigger] s.drop_last()[k]).start.local) == d;
            assert(s[k] == s.drop_last()[k]);
        }
        if exists|k: int| 0 <= k < s.len() && date_of((#[trigger] s[k]).start.local) == d {
            let k = choose|k: int| 0 <= k < s.len() && date_of((#[trigger] s[k]).start.local) == d;
            if k < s.len() - 1 {
                assert(s.drop_last()[k] == s[k]);
            }
        }
    }
}

/// A day of a month is among the days with events exactly when the events of
/// that date, in day order, are not empty: the two queries of the service
/// agree on a month's events that all start in that month.
pub proof fn law_days_match_dates(evs: Seq<CalendarEvent>, date: Date)
    requires
        forall|k: int| 0 <= k < evs.len() ==> (#[trigger] evs[k]).start.local.year == date.year
            && evs[k].start.local.month == date.month,
    ensures
        event_days(evs).contains(date.day) <==> sorted_events(events_on(evs, date)).len() > 0,
{
    law_sorted_events_permutes(events_on(evs, date));
    lemma_events_on_nonempty(evs, date);
    if event_days(evs).contains(date.day) {
        let k = choose|k: int| 0 <= k < evs.len() && (#[trigger] evs[k]).start.local.day == date.day;
        assert(date_of(evs[k].start.local) == date);
    }
    if exists|k: int| 0 <= k < evs.len() && date_of((#[trigger] evs[k]).start.local) == date {
        let k = choose|k: int| 0 <= k < evs.len() && date_of((#[trigger] evs[k]).start.local) == date;
        assert(evs[k].start.local.day == date.day);
    }
}

/// Whether `data` describes a calendar source that the service follows.
pub open spec fn is_calendar_data(data: Seq<char>) -> bool {
    has_sub(data, "[Calendar]"@) && (has_sub(data, "BackendName=caldav"@) || has_sub(
        data,
        "BackendName=local"@,
    ))
}

/// The color in the lines of a `[Calendar]` section, from line `k` on: the
/// trimmed rest of the first `Color=` line, unless another section starts
/// first.
pub open spec fn color_in_lines(ls: Seq<Seq<char>>, k: int) -> Option<Seq<char>>
    decreases ls.len() - k,
{
    if k < 0 || k >= ls.len() {
        None
    } else if begins_with(ls[k], "Color="@) {
        Some(trimmed(ls[k].skip(6)))
    } else if begins_with(ls[k], "["@) && ls[k] != "[Calendar]"@ {
        None
    } else {
        color_in_lines(ls, k + 1)
    }
}

/// The calendar color in source data: `Color=` in the `[Calendar]` section.
pub open spec fn calendar_color(data: Seq<char>) -> Option<Seq<char>> {
    match find_from(data, "[Calendar]"@, 0) {
        Some(i) => color_in_lines(text_lines(data.skip(i)), 0),
        None => None,
    }
}

impl CalendarService {
    /// The stored components, with the calendar each came from.
    pub closed spec fn raw(&self) -> Seq<(String, Component)> {
        self.raw_components@
    }

    /// The expanded months.
    pub closed spec fn cache(&self) -> Seq<(i32, u32, Vec<CalendarEvent>)> {
        self.expanded_cache@
    }

    /// The registered calendar colors.
    pub closed spec fn colors(&self) -> Seq<(String, String)> {
        self.calendar_colors@
    }

    /// The calendars already followed.
    pub closed spec fn monitored(&self) -> Seq<Seq<char>> {
        self.monitored_calendars@.map_values(|s: String| s@)
    }

    /// The signal emitted when the events change.
    pub closed spec fn events_signal(&self) -> Signal<()> {
        self.events_changed
    }

    /// A service with no component, no cached month, no calendar.
    pub fn new() -> (s: Self)
        ensures
            s.raw() == Seq::<(String, Component)>::empty(),
            s.cache() == Seq::<(i32, u32, Vec<CalendarEvent>)>::empty(),
            s.colors() == Seq::<(String, String)>::empty(),
            s.monitored() == Seq::<Seq<char>>::empty(),
            s.events_signal().ids() == Seq::<u64>::empty(),
            s.events_signal().next_id() == 0,
    {
        let s = CalendarService {
            raw_components: Vec::new(),
            expanded_cache: Vec::new(),
            calendar_colors: Vec::new(),
            monitored_calendars: Vec::new(),
            events_changed: Signal::new(),
        };
        assert(s.monitored() =~= Seq::<Seq<char>>::empty());
        s
    }

    /// Connects a callback to the events-changed signal.
    pub fn connect_events_changed<F: Fn(()) + Send + 'static>(&mut self, callback: F) -> (h: SignalHandler)
        requires
            old(self).events_signal().next_id() < u64::MAX,
            forall|v: ()| call_requires(callback, (v,)),
        ensures
            h.spec_id() == old(self).events_signal().next_id(),
            final(self).events_signal().ids() == old(self).events_signal().ids().push(h.spec_id()),
            final(self).events_signal().next_id() == old(self).events_signal().next_id() + 1,
            final(self).raw() == old(self).raw(),
            final(self).cache() == old(self).cache(),
            final(self).colors() == old(self).colors(),
            final(self).monitored() == old(self).monitored(),
    {
        self.events_changed.connect(callback)
    }

    /// Disconnects a handler from the events-changed signal.
    pub fn disconnect(&mut self, handler: SignalHandler)
        ensures
            final(self).events_signal().ids() == without_id(old(self).events_signal().ids(), handler.spec_id()),
            final(self).events_signal().next_id() == old(self).events_signal().next_id(),
            final(self).raw() == old(self).raw(),
            final(self).cache() == old(self).cache(),
            final(self).colors() == old(self).colors(),
            final(self).monitored() == old(self).monitored(),
    {
        self.events_changed.disconnect(handler);
    }

    /// Forgets every expanded month.
    pub fn clear_cache(&mut self)
        ensures
            final(self).cache() == Seq::<(i32, u32, Vec<CalendarEvent>)>::empty(),
            final(self).raw() == old(self).raw(),
            final(self).colors() == old(self).colors(),
            final(self).monitored() == old(self).monitored(),
            final(self).events_signal() == old(self).events_signal(),
    {
        self.expanded_cache = Vec::new();
    }

    fn cached_index(&self, year: i32, month: u32) -> (r: Option<usize>)
        ensures
            match r {
                Some(k) => k < self.cache().len() && cached_month(self.cache(), year, month) == Some(self.cache()[k as int].2@),
                None => cached_month(self.cache(), year, month) is None,
            },
    {
        let mut k: usize = 0;
        assert(self.expanded_cache@.skip(0) =~= self.expanded_cache@);
        while k < self.expanded_cache.len()
            invariant
                k <= self.expanded_cache@.len(),
                cached_month(self.cache(), year, month) == cached_month(self.expanded_cache@.skip(k as int), year, month),
            decreases self.expanded_cache.len() - k,
        {
            assert(self.expanded_cache@.skip(k as int).drop_first() =~= self.expanded_cache@.skip(k + 1));
            if self.expanded_cache[k].0 == year && self.expanded_cache[k].1 == month {
                return Some(k);
            }
            k = k + 1;
        }
        None
    }

    /// Makes sure the month is expanded in the cache. Nothing is cached while
    /// no component is stored.
    pub fn ensure_month_expanded(&mut self, year: i32, month: u32)
        requires
            month_ok(year, month),
        ensures
            final(self).raw() == old(self).raw(),
            final(self).colors() == old(self).colors(),
            final(self).monitored() == old(self).monitored(),
            final(self).events_signal() == old(self).events_signal(),
            cached_month(old(self).cache(), year, month) is Some ==> final(self).cache() == old(self).cache(),
            cached_month(old(self).cache(), year, month) is None && old(self).raw().len() == 0 ==> final(self).cache() == old(self).cache(),
            cached_month(old(self).cache(), year, month) is None && old(self).raw().len() > 0 ==> {
                &&& final(self).cache().drop_last() == old(self).cache()
                &&& final(self).cache().last().0 == year
                &&& final(self).cache().last().1 == month
                &&& forall|k: int| 0 <= k < final(self).cache().last().2@.len() ==> from_store(#[trigger] final(self).cache().last().2@[k], old(self).raw())
            },
            old(self).raw().len() > 0 ==> cached_month(final(self).cache(), year, month) is Some,
    {
        if self.cached_index(year, month).is_some() {
            return;
        }
        if self.raw_components.len() == 0 {
            return;
        }
        let events = Self::expand_month(&self.raw_components, &self.calendar_colors, year, month);
        let ghost old_cache = self.expanded_cache@;
        self.expanded_cache.push((year, month, events));
        proof {
            lemma_cached_month_push(old_cache, year, month, events);
        }
    }

    /// The events of a date, expanding its month where needed: all-day events
    /// first, then by start time; events equal in that order keep the order
    /// of the month's expansion.
    pub fn get_events_for_date(&mut self, date: Date) -> (r: Vec<CalendarEvent>)
        requires
            month_ok(date.year, date.month),
        ensures
            final(self).raw() == old(self).raw(),
            final(self).colors() == old(self).colors(),
            final(self).monitored() == old(self).monitored(),
            final(self).events_signal() == old(self).events_signal(),
            cached_month(old(self).cache(), date.year, date.month) is Some ==> final(self).cache() == old(self).cache(),
            match cached_month(final(self).cache(), date.year, date.month) {
                Some(evs) => r@ == sorted_events(events_on(evs, date)),
                None => r@.len() == 0 && old(self).raw().len() == 0,
            },
    {
        self.ensure_month_expanded(date.year, date.month);
        let found: Vec<CalendarEvent> = match self.cached_index(date.year, date.month) {
            Some(k) => {
                let evs = &self.expanded_cache[k].2;
                let mut out: Vec<CalendarEvent> = Vec::new();
                let mut i: usize = 0;
                while i < evs.len()
                    invariant
                        i <= evs@.len(),
                        out@ == events_on(evs@.take(i as int), date),
                    decreases evs.len() - i,
                {
                    assert(evs@.take(i + 1).drop_last() =~= evs@.take(i as int));
                    assert(evs@.take(i + 1).last() == evs@[i as int]);
                    let e = &evs[i];
                    if e.start.local.year == date.year && e.start.local.month == date.month
                        && e.start.local.day == date.day {
                        out.push(e.copy());
                    }
                    i = i + 1;
                }
                assert(evs@.take(evs@.len() as int) =~= evs@);
                out
            },
            None => Vec::new(),
        };
        Self::sort_day_events(found)
    }

    /// The days of the month on which some event starts, expanding the month
    /// where needed.
    pub fn get_days_with_events(&mut self, year: i32, month: u32) -> (r: HashSet<u32>)
        requires
            month_ok(year, month),
        ensures
            final(self).raw() == old(self).raw(),
            final(self).colors() == old(self).colors(),
            final(self).monitored() == old(self).monitored(),
            final(self).events_signal() == old(self).events_signal(),
            cached_month(old(self).cache(), year, month) is Some ==> final(self).cache() == old(self).cache(),
            match cached_month(final(self).cache(), year, month) {
                Some(evs) => r@ == event_days(evs),
                None => r@ == Set::<u32>::empty() && old(self).raw().len() == 0,
            },
    {
        broadcast use vstd::std_specs::hash::group_hash_axioms;
        self.ensure_month_expanded(year, month);
        let mut days: HashSet<u32> = HashSet::new();
        match self.cached_index(year, month) {
            Some(k) => {
                let evs = &self.expanded_cache[k].2;
                let mut i: usize = 0;
                while i < evs.len()
                    invariant
                        i <= evs@.len(),
                        days@ == Set::new(|d: u32| exists|j: int| 0 <= j < i && (#[trigger] evs@[j]).start.local.day == d),
                    decreases evs.len() - i,
                {
                    let ghost before = days@;
                    days.insert(evs[i].start.local.day);
                    proof {
                        assert(days@ =~= Set::new(|d: u32| exists|j: int| 0 <= j < i + 1 && (#[trigger] evs@[j]).start.local.day == d)) by {
                            assert forall|d: u32| days@.contains(d) implies exists|j: int| 0 <= j < i + 1 && (#[trigger] evs@[j]).start.local.day == d by {
                                if d != evs@[i as int].start.local.day {
                                    assert(before.contains(d));
                                }
                            }
                        }
                    }
                    i = i + 1;
                }
                proof {
                    assert(days@ =~= Set::new(|d: u32| exists|j: int| 0 <= j < evs@.len() && (#[trigger] evs@[j]).start.local.day == d));
                }
            },
            None => {
                assert(days@ =~= Set::<u32>::empty());
            },
        }
        days
    }

    /// The events of the current day: those of the local date that the clock
    /// reads, as `get_events_for_date` gives them; none where that date's
    /// month has no following month that `chrono` represents.
    pub fn get_today_events(&mut self) -> (r: Vec<CalendarEvent>)
        ensures
            final(self).raw() == old(self).raw(),
            final(self).colors() == old(self).colors(),
            final(self).monitored() == old(self).monitored(),
            final(self).events_signal() == old(self).events_signal(),
            exists|d: Date| #[trigger] day_result(final(self).cache(), d, r@),
    {
        let now = crate::calendar::moment::now_moment();
        let date = Date { year: now.local.year, month: now.local.month, day: now.local.day };
        if date.year < crate::calendar::moment::MIN_YEAR || date.year > crate::calendar::moment::MAX_YEAR
            || (date.year == crate::calendar::moment::MAX_YEAR && date.month >= 12) || date.month < 1
            || date.month > 12 {
            let r: Vec<CalendarEvent> = Vec::new();
            assert(day_result(self.cache(), date, r@));
            return r;
        }
        let r = self.get_events_for_date(date);
        assert(day_result(self.cache(), date, r@));
        r
    }

    /// Whether source data describes a calendar that the service follows: a
    /// `[Calendar]` section of a CalDAV or local backend.
    pub fn is_calendar_source(data: &str) -> (b: bool)
        ensures
            b == is_calendar_data(data@),
    {
        let d = chars_of(data);
        let sec = chars_of("[Calendar]");
        let caldav = chars_of("BackendName=caldav");
        let local = chars_of("BackendName=local");
        crate::text::contains_text(d.as_slice(), sec.as_slice()) && (crate::text::contains_text(
            d.as_slice(),
            caldav.as_slice(),
        ) || crate::text::contains_text(d.as_slice(), local.as_slice()))
    }

    /// The color of a calendar source: the trimmed value of the first
    /// `Color=` line of its `[Calendar]` section.
    pub fn extract_calendar_color(data: &str) -> (r: Option<String>)
        ensures
            opt_text(r) == calendar_color(data@),
    {
        let d = chars_of(data);
        let sec = chars_of("[Calendar]");
        let start = match find_text(d.as_slice(), sec.as_slice()) {
            Some(i) => i,
            None => {
                return None;
            },
        };
        let mut after: Vec<char> = Vec::new();
        let mut j: usize = start;
        while j < d.len()
            invariant
                start <= j <= d@.len(),
                after@ == d@.subrange(start as int, j as int),
            decreases d.len() - j,
        {
            after.push(d[j]);
            j = j + 1;
        }
        assert(after@ =~= data@.skip(start as int));
        assert(d@ == data@);
        let ls = lines_of(after.as_slice());
        let ghost gl = text_lines(after@);
        let color_key = chars_of("Color=");
        let open = chars_of("[");
        let header = chars_of("[Calendar]");
        let mut k: usize = 0;
        while k < ls.len()
            invariant
                ls@.len() == gl.len(),
                gl == text_lines(after@),
                forall|i: int| 0 <= i < ls@.len() ==> #[trigger] ls@[i]@ == gl[i],
                color_key@ == "Color="@,
                open@ == "["@,
                header@ == "[Calendar]"@,
                k <= ls@.len(),
                color_in_lines(gl, 0) == color_in_lines(gl, k as int),
                calendar_color(data@) == color_in_lines(gl, 0),
            decreases ls.len() - k,
        {
            let line = &ls[k];
            assert(ls@[k as int]@ == gl[k as int]);
            if crate::text::starts_with_text(line.as_slice(), color_key.as_slice()) {
                let mut rest: Vec<char> = Vec::new();
                let mut m: usize = 6;
                proof {
                    reveal_strlit("Color=");
                }
                while m < line.len()
                    invariant
                        6 <= m <= line@.len(),
                        rest@ == line@.subrange(6, m as int),
                    decreases line.len() - m,
                {
                    rest.push(line[m]);
                    m = m + 1;
                }
                assert(rest@ =~= gl[k as int].skip(6));
                let t = crate::text::trim_text(rest.as_slice());
                return Some(string_of(t.as_slice()));
            }
            if crate::text::starts_with_text(line.as_slice(), open.as_slice())
                && !crate::text::same_text(line.as_slice(), header.as_slice()) {
                return None;
            }
            k = k + 1;
        }
        None
    }

    /// Starts following a calendar: `false` where it is followed already;
    /// otherwise it is recorded, with its color where the source data names
    /// one.
    pub fn register_calendar_uid(&mut self, uid: &str, data: &str) -> (added: bool)
        ensures
            added == !old(self).monitored().contains(uid@),
            added ==> final(self).monitored() == old(self).monitored().push(uid@),
            !added ==> final(self).monitored() == old(self).monitored(),
            added && calendar_color(data@) is Some ==> final(self).colors().len() == old(self).colors().len() + 1
                && final(self).colors().last().0@ == uid@
                && Some(final(self).colors().last().1@) == calendar_color(data@)
                && final(self).colors().drop_last() == old(self).colors(),
            !(added && calendar_color(data@) is Some) ==> final(self).colors() == old(self).colors(),
            final(self).raw() == old(self).raw(),
            final(self).cache() == old(self).cache(),
            final(self).events_signal() == old(self).events_signal(),
    {
        let ghost old_mon = self.monitored_calendars@;
        match position_of_text(&self.monitored_calendars, uid) {
            Some(k) => {
                proof {
                    assert(self.monitored()[k as int] == uid@);
                }
                return false;
            },
            None => {},
        }
        proof {
            assert(!self.monitored().contains(uid@)) by {
                if self.monitored().contains(uid@) {
                    let k = choose|k: int| 0 <= k < self.monitored().len() && self.monitored()[k] == uid@;
                    assert(old_mon[k]@ == uid@);
                }
            }
        }
        self.monitored_calendars.push(uid.to_string());
        proof {
            assert(self.monitored() =~= old_mon.map_values(|s: String| s@).push(uid@));
        }
        match Self::extract_calendar_color(data) {
            Some(color) => {
                self.calendar_colors.push((uid.to_string(), color));
            },
            None => {},
        }
        true
    }
}

/// The stored components whose `UID` is not `u`, in order (components without
/// a `UID` stay).
pub open spec fn without_uid(s: Seq<(String, Component)>, u: Seq<char>) -> Seq<(String, Component)>
    decreases s.len(),
{
    if s.len() == 0 {
        s
    } else if text_value(s[0].1, Property::Uid) == Some(u) {
        without_uid(s.drop_first(), u)
    } else {
        seq![s[0]] + without_uid(s.drop_first(), u)
    }
}

/// The `VEVENT` components among `cs`, in order.
pub open spec fn event_components(cs: Seq<Component>) -> Seq<Component>
    decreases cs.len(),
{
    if cs.len() == 0 {
        Seq::empty()
    } else if cs.last().is_event {
        event_components(cs.drop_last()).push(cs.last())
    } else {
        event_components(cs.drop_last())
    }
}

/// The `VEVENT` components that the texts hold, as `ICalendar::parse` reads
/// them, text after text (a text that is no calendar holds none).
pub open spec fn events_in_texts(ts: Seq<String>) -> Seq<Component>
    decreases ts.len(),
{
    if ts.len() == 0 {
        Seq::empty()
    } else {
        events_in_texts(ts.drop_last()) + match ical_components(ts.last()@) {
            Some(cs) => event_components(cs),
            None => Seq::empty(),
        }
    }
}

/// The store after the first `n` modified components have removed the stored
/// components with their `UID`s.
pub open spec fn strip_uids(raw: Seq<(String, Component)>, comps: Seq<(String, Component)>, n: int) -> Seq<(String, Component)>
    decreases n,
{
    if n <= 0 {
        raw
    } else {
        let r = strip_uids(raw, comps, n - 1);
        match text_value(comps[n - 1].1, Property::Uid) {
            Some(u) => without_uid(r, u),
            None => r,
        }
    }
}

fn remove_uid(v: Vec<(String, Component)>, u: &str) -> (r: Vec<(String, Component)>)
    ensures
        r@ == without_uid(v@, u@),
{
    let ghost orig = v@;
    let mut rest = v;
    let mut out: Vec<(String, Component)> = Vec::new();
    while rest.len() > 0
        invariant
            without_uid(orig, u@) == out@ + without_uid(rest@, u@),
        decreases rest@.len(),
    {
        let ghost before = rest@;
        let x = rest.remove(0);
        assert(before.drop_first() =~= rest@);
        let keep = match get_component_uid(&x.1) {
            Some(id) => !crate::text::str_eq(id.as_str(), u),
            None => true,
        };
        if keep {
            let ghost o = out@;
            out.push(x);
            assert(o.push(x) + without_uid(rest@, u@) =~= o + (seq![x] + without_uid(rest@, u@)));
        } else {
            assert(out@ + without_uid(rest@, u@) =~= out@ + without_uid(before, u@));
        }
    }
    assert(without_uid(rest@, u@) =~= Seq::<(String, Component)>::empty());
    assert(out@ + Seq::<(String, Component)>::empty() =~= out@);
    out
}

/// Seconds in 365 days.
pub const ONE_YEAR_SECS: i64 = 31_536_000;

/// The calendar query for the objects that occur between the two UTC wall
/// clocks.
pub open spec fn range_query(start: WallClock, end: WallClock) -> Seq<char> {
    "(occur-in-time-range? (make-time \""@ + compact_stamp(start) + "Z\") (make-time \""@ + compact_stamp(end)
        + "Z\"))"@
}

/// The query for the objects that occur within 365 days of `now` (seconds
/// since the epoch), both bounds written in UTC; `None` where a bound lies
/// outside `chrono`'s range.
pub fn year_around(now: i64) -> (r: Option<String>)
    ensures
        (MIN_TIMESTAMP + ONE_YEAR_SECS <= now <= MAX_TIMESTAMP - ONE_YEAR_SECS) ==> r is Some,
        r matches Some(q) ==> exists|a: WallClock, b: WallClock|
            #![trigger range_query(a, b)]
            calendar_reading(a) && calendar_reading(b) && utc_timestamp(a) == now - ONE_YEAR_SECS && utc_timestamp(b)
                == now + ONE_YEAR_SECS && q@ == range_query(a, b),
{
    let lo = match now.checked_sub(ONE_YEAR_SECS) {
        Some(t) => t,
        None => {
            return None;
        },
    };
    let hi = match now.checked_add(ONE_YEAR_SECS) {
        Some(t) => t,
        None => {
            return None;
        },
    };
    let a = match utc_wall_clock(lo) {
        Some(w) => w,
        None => {
            return None;
        },
    };
    let b = match utc_wall_clock(hi) {
        Some(w) => w,
        None => {
            return None;
        },
    };
    let mut out: Vec<char> = Vec::new();
    push_str("(occur-in-time-range? (make-time \"", &mut out);
    push_compact_stamp(&a, &mut out);
    push_str("Z\") (make-time \"", &mut out);
    push_compact_stamp(&b, &mut out);
    push_str("Z\"))", &mut out);
    assert(out@ =~= range_query(a, b));
    Some(string_of(out.as_slice()))
}

impl CalendarService {
    /// The `VEVENT` components of some iCalendar texts, each with the calendar
    /// it came from: those the texts hold, in order. Texts that are no
    /// calendar give nothing.
    pub fn parse_raw_components(ical_strings: &Vec<String>, calendar_uid: &str) -> (r: Vec<(String, Component)>)
        ensures
            r@.map_values(|p: (String, Component)| p.1) == events_in_texts(ical_strings@),
            forall|k: int| 0 <= k < r@.len() ==> (#[trigger] r@[k]).0@ == calendar_uid@,
    {
        let mut out: Vec<(String, Component)> = Vec::new();
        let mut i: usize = 0;
        assert(ical_strings@.take(0) =~= Seq::<String>::empty());
        assert(out@.map_values(|p: (String, Component)| p.1) =~= Seq::<Component>::empty());
        while i < ical_strings.len()
            invariant
                i <= ical_strings@.len(),
                out@.map_values(|p: (String, Component)| p.1) == events_in_texts(ical_strings@.take(i as int)),
                forall|k: int| 0 <= k < out@.len() ==> (#[trigger] out@[k]).0@ == calendar_uid@,
            decreases ical_strings.len() - i,
        {
            let ghost base = out@.map_values(|p: (String, Component)| p.1);
            assert(ical_strings@.take(i + 1).drop_last() =~= ical_strings@.take(i as int));
            assert(ical_strings@.take(i + 1).last() == ical_strings@[i as int]);
            match parse_components(ical_strings[i].as_str()) {
                Some(cs) => {
                    let ghost all = cs@;
                    let ghost mut k: int = 0;
                    assert(all.skip(0) =~= all);
                    assert(all.take(0) =~= Seq::<Component>::empty());
                    assert(base + event_components(all.take(0)) =~= base);
                    let mut rest = cs;
                    while rest.len() > 0
                        invariant
                            0 <= k <= all.len(),
                            rest@ == all.skip(k),
                            out@.map_values(|p: (String, Component)| p.1) == base + event_components(all.take(k)),
                            forall|m: int| 0 <= m < out@.len() ==> (#[trigger] out@[m]).0@ == calendar_uid@,
                        decreases rest@.len(),
                    {
                        assert(rest@[0] == all[k]);
                        assert(all.take(k + 1).drop_last() =~= all.take(k));
                        assert(all.take(k + 1).last() == all[k]);
                        let c = rest.remove(0);
                        let ghost before = out@;
                        if c.is_event {
                            let u = calendar_uid.to_string();
                            out.push((u, c));
                            assert(out@.map_values(|p: (String, Component)| p.1) =~= before.map_values(
                                |p: (String, Component)| p.1,
                            ).push(c));
                        }
                        proof {
                            assert(rest@ =~= all.skip(k + 1));
                            k = k + 1;
                        }
                    }
                    assert(all.take(k) =~= all);
                },
                None => {},
            }
            assert(out@.map_values(|p: (String, Component)| p.1) =~= events_in_texts(ical_strings@.take(i + 1)));
            i = i + 1;
        }
        assert(ical_strings@.take(ical_strings@.len() as int) =~= ical_strings@);
        out
    }

    /// New components arrived: they are stored, the cache is cleared and the
    /// change is emitted. Nothing happens where there are none; returns
    /// whether anything changed.
    pub fn objects_added(&mut self, components: Vec<(String, Component)>) -> (changed: bool)
        ensures
            changed == (components@.len() > 0),
            changed ==> final(self).raw() == old(self).raw() + components@
                && final(self).cache() == Seq::<(i32, u32, Vec<CalendarEvent>)>::empty(),
            !changed ==> final(self).raw() == old(self).raw() && final(self).cache() == old(self).cache(),
            final(self).colors() == old(self).colors(),
            final(self).monitored() == old(self).monitored(),
            changed ==> emitted(old(self).events_signal(), final(self).events_signal(), ()),
            !changed ==> final(self).events_signal() == old(self).events_signal(),
    {
        if components.len() == 0 {
            return false;
        }
        let mut rest = components;
        let ghost comps = rest@;
        let ghost start = self.raw_components@;
        while rest.len() > 0
            invariant
                self.raw_components@ + rest@ == start + comps,
                self.calendar_colors@ == old(self).calendar_colors@,
                self.monitored_calendars@ == old(self).monitored_calendars@,
                self.events_changed == old(self).events_changed,
            decreases rest@.len(),
        {
            let ghost before = rest@;
            let c = rest.remove(0);
            let ghost r0 = self.raw_components@;
            self.raw_components.push(c);
            assert(r0.push(c) + rest@ =~= r0 + before);
        }
        assert(self.raw_components@ + rest@ =~= self.raw_components@);
        self.expanded_cache = Vec::new();
        self.events_changed.emit_sync(());
        true
    }

    /// Components were modified: every stored component with the `UID` of a
    /// modified one is dropped, the modified ones are stored, the cache is
    /// cleared and the change is emitted.
    pub fn objects_modified(&mut self, components: Vec<(String, Component)>)
        ensures
            final(self).raw() == strip_uids(old(self).raw(), components@, components@.len() as int) + components@,
            final(self).cache() == Seq::<(i32, u32, Vec<CalendarEvent>)>::empty(),
            final(self).colors() == old(self).colors(),
            final(self).monitored() == old(self).monitored(),
            emitted(old(self).events_signal(), final(self).events_signal(), ()),
    {
        let mut store: Vec<(String, Component)> = Vec::new();
        std::mem::swap(&mut store, &mut self.raw_components);
        let ghost orig = store@;
        let mut i: usize = 0;
        while i < components.len()
            invariant
                i <= components@.len(),
                store@ == strip_uids(orig, components@, i as int),
            decreases components.len() - i,
        {
            match get_component_uid(&components[i].1) {
                Some(u) => {
                    store = remove_uid(store, u.as_str());
                },
                None => {},
            }
            i = i + 1;
        }
        let mut rest = components;
        let ghost comps = rest@;
        let ghost start = store@;
        while rest.len() > 0
            invariant
                store@ + rest@ == start + comps,
            decreases rest@.len(),
        {
            let ghost before = rest@;
            let c = rest.remove(0);
            let ghost r0 = store@;
            store.push(c);
            assert(r0.push(c) + rest@ =~= r0 + before);
        }
        assert(store@ + rest@ =~= store@);
        self.raw_components = store;
        self.expanded_cache = Vec::new();
        self.events_changed.emit_sync(());
    }

    /// Components were removed: the cache is cleared and the change is
    /// emitted; the stored components stay.
    pub fn objects_removed(&mut self)
        ensures
            final(self).raw() == old(self).raw(),
            final(self).cache() == Seq::<(i32, u32, Vec<CalendarEvent>)>::empty(),
            final(self).colors() == old(self).colors(),
            final(self).monitored() == old(self).monitored(),
            emitted(old(self).events_signal(), final(self).events_signal(), ()),
    {
        self.expanded_cache = Vec::new();
        self.events_changed.emit_sync(());
    }
}

proof fn lemma_cached_month_push(cache: Seq<(i32, u32, Vec<CalendarEvent>)>, year: i32, month: u32, evs: Vec<CalendarEvent>)
    requires
        cached_month(cache, year, month) is None,
    ensures
        cached_month(cache.push((year, month, evs)), year, month) == Some(evs@),
        cache.push((year, month, evs)).drop_last() == cache,
    decreases cache.len(),
{
    assert(cache.push((year, month, evs)).drop_last() =~= cache);
    if cache.len() > 0 {
        lemma_cached_month_push(cache.drop_first(), year, month, evs);
        assert(cache.push((year, month, evs)).drop_first() =~= cache.drop_first().push((year, month, evs)));
    }
}

} // verus!
