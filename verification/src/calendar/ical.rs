//! The part of an iCalendar component that the calendar reads, as plain
//! values, and the calls into `calcard` that produce it.
use vstd::prelude::*;
use calcard::icalendar::{
    ICalendar, ICalendarComponentType, ICalendarEntry, ICalendarFrequency,
    ICalendarProperty, ICalendarRecurrenceRule, ICalendarValue, ICalendarWeekday,
};
use crate::text::{decimal, push_numeral, push_padded, push_signed, push_str, signed_decimal, zero_padded};

verus! {

/// A date-time as iCalendar writes it, each part possibly missing.
#[derive(Clone, Copy, Debug, PartialEq, Eq)]
pub struct DateParts {
    pub year: Option<u16>,
    pub month: Option<u8>,
    pub day: Option<u8>,
    pub hour: Option<u8>,
    pub minute: Option<u8>,
    pub second: Option<u8>,
    pub tz_hour: Option<u8>,
    pub tz_minute: Option<u8>,
}

/// `FREQ` of a recurrence rule.
#[derive(Clone, Copy, Debug, PartialEq, Eq, Structural)]
pub enum Frequency {
    Secondly,
    Minutely,
    Hourly,
    Daily,
    Weekly,
    Monthly,
    Yearly,
}

/// A day of the week.
#[derive(Clone, Copy, Debug, PartialEq, Eq, Structural)]
pub enum Weekday {
    Sunday,
    Monday,
    Tuesday,
    Wednesday,
    Thursday,
    Friday,
    Saturday,
}

/// One `BYDAY` item: an optional ordinal and a weekday.
#[derive(Clone, Copy, Debug, PartialEq, Eq)]
pub struct RuleDay {
    pub ordwk: Option<i16>,
    pub weekday: Weekday,
}

/// One `BYMONTH` item: a month number, possibly a leap month.
#[derive(Clone, Copy, Debug, PartialEq, Eq)]
pub struct RuleMonth {
    pub month: u8,
    pub leap: bool,
}

/// The parts of a recurrence rule that the calendar writes back out.
#[derive(Clone, Debug)]
pub struct RecurrenceRule {
    pub freq: Frequency,
    pub until: Option<DateParts>,
    pub count: Option<u32>,
    pub interval: Option<u16>,
    pub byday: Vec<RuleDay>,
    pub bymonthday: Vec<i8>,
    pub bymonth: Vec<RuleMonth>,
}

/// A property value.
#[derive(Clone, Debug)]
pub enum CalValue {
    Text(String),
    DateTime(DateParts),
    Rule(RecurrenceRule),
    Other,
}

/// The properties that the calendar reads; every other one is `Other`.
#[derive(Clone, Copy, Debug, PartialEq, Eq, Structural)]
pub enum Property {
    Uid,
    Summary,
    Description,
    Location,
    Color,
    Dtstart,
    Dtend,
    Rrule,
    RecurrenceId,
    Exdate,
    Other,
}

/// A property line: its name and its values.
#[derive(Clone, Debug)]
pub struct Entry {
    pub name: Property,
    pub values: Vec<CalValue>,
}

/// A calendar component: whether it is a `VEVENT`, and its property lines in
/// order.
#[derive(Clone, Debug)]
pub struct Component {
    pub is_event: bool,
    pub entries: Vec<Entry>,
}

// ---------------------------------------------------------------------------
// Reading properties
// ---------------------------------------------------------------------------
/// The first line of `es`, from index `i` on, named `p`.
pub open spec fn find_entry_from(es: Seq<Entry>, p: Property, i: int) -> Option<Entry>
    decreases es.len() - i,
{
    if i < 0 || i >= es.len() {
        None
    } else if es[i].name == p {
        Some(es[i])
    } else {
        find_entry_from(es, p, i + 1)
    }
}

/// The first line of a component named `p`.
pub open spec fn find_entry(c: Component, p: Property) -> Option<Entry> {
    find_entry_from(c.entries@, p, 0)
}

/// The first value of the first line named `p`.
pub open spec fn first_value(c: Component, p: Property) -> Option<CalValue> {
    match find_entry(c, p) {
        Some(e) => if e.values@.len() > 0 {
            Some(e.values@[0])
        } else {
            None
        },
        None => None,
    }
}

/// The text of the first value of the first line named `p`, where that value
/// is text.
pub open spec fn text_value(c: Component, p: Property) -> Option<Seq<char>> {
    match first_value(c, p) {
        Some(CalValue::Text(s)) => Some(s@),
        _ => None,
    }
}

/// The first line of a component with the given name.
pub fn property(c: &Component, p: Property) -> (r: Option<&Entry>)
    ensures
        match r {
            Some(e) => find_entry(*c, p) == Some(*e),
            None => find_entry(*c, p) is None,
        },
{
    let mut i: usize = 0;
    while i < c.entries.len()
        invariant
            i <= c.entries@.len(),
            find_entry(*c, p) == find_entry_from(c.entries@, p, i as int),
        decreases c.entries.len() - i,
    {
        if c.entries[i].name == p {
            return Some(&c.entries[i]);
        }
        i = i + 1;
    }
    None
}

/// The first value of the first line with the given name.
pub fn first_value_of(c: &Component, p: Property) -> (r: Option<&CalValue>)
    ensures
        match r {
            Some(v) => first_value(*c, p) == Some(*v),
            None => first_value(*c, p) is None,
        },
{
    match property(c, p) {
        Some(e) => if e.values.len() > 0 {
            Some(&e.values[0])
        } else {
            None
        },
        None => None,
    }
}

/// The text of the first value of the first line with the given name.
pub fn text_property(c: &Component, p: Property) -> (r: Option<String>)
    ensures
        crate::text::opt_text(r) == text_value(*c, p),
{
    match first_value_of(c, p) {
        Some(CalValue::Text(s)) => Some(s.clone()),
        _ => None,
    }
}

/// The `UID` of a component.
pub fn get_component_uid(c: &Component) -> (r: Option<String>)
    ensures
        crate::text::opt_text(r) == text_value(*c, Property::Uid),
{
    text_property(c, Property::Uid)
}

/// Whether the component has an `RRULE` line.
pub fn has_rrule(c: &Component) -> (b: bool)
    ensures
        b == find_entry(*c, Property::Rrule) is Some,
{
    property(c, Property::Rrule).is_some()
}

/// Whether the component has a `RECURRENCE-ID` line.
pub fn has_recurrence_id(c: &Component) -> (b: bool)
    ensures
        b == find_entry(*c, Property::RecurrenceId) is Some,
{
    property(c, Property::RecurrenceId).is_some()
}

// ---------------------------------------------------------------------------
// Writing a recurrence rule back as RRULE text
// ---------------------------------------------------------------------------
pub open spec fn freq_name(f: Frequency) -> Seq<char> {
    match f {
        Frequency::Secondly => "SECONDLY"@,
        Frequency::Minutely => "MINUTELY"@,
        Frequency::Hourly => "HOURLY"@,
        Frequency::Daily => "DAILY"@,
        Frequency::Weekly => "WEEKLY"@,
        Frequency::Monthly => "MONTHLY"@,
        Frequency::Yearly => "YEARLY"@,
    }
}

pub open spec fn weekday_code(w: Weekday) -> Seq<char> {
    match w {
        Weekday::Sunday => "SU"@,
        Weekday::Monday => "MO"@,
        Weekday::Tuesday => "TU"@,
        Weekday::Wednesday => "WE"@,
        Weekday::Thursday => "TH"@,
        Weekday::Friday => "FR"@,
        Weekday::Saturday => "SA"@,
    }
}

/// `{}{}` of a `BYDAY` item: its ordinal, if any, then its weekday code.
pub open spec fn day_text(d: RuleDay) -> Seq<char> {
    match d.ordwk {
        Some(n) => signed_decimal(n as int) + weekday_code(d.weekday),
        None => weekday_code(d.weekday),
    }
}

/// A `BYMONTH` item: its number, with `L` for a leap month.
pub open spec fn month_text(m: RuleMonth) -> Seq<char> {
    if m.leap {
        decimal(m.month as nat) + "L"@
    } else {
        decimal(m.month as nat)
    }
}

/// The items joined with commas.
pub open spec fn comma_join(items: Seq<Seq<char>>) -> Seq<char>
    decreases items.len(),
{
    if items.len() == 0 {
        Seq::empty()
    } else if items.len() == 1 {
        items[0]
    } else {
        comma_join(items.drop_last()) + seq![','] + items.last()
    }
}

/// `YYYYMMDDTHHMMSS`, each part zero-padded.
pub open spec fn stamp_text(y: nat, m: nat, d: nat, h: nat, mi: nat, s: nat) -> Seq<char> {
    zero_padded(decimal(y), 4) + zero_padded(decimal(m), 2) + zero_padded(decimal(d), 2) + "T"@
        + zero_padded(decimal(h), 2) + zero_padded(decimal(mi), 2) + zero_padded(decimal(s), 2)
}

/// `;UNTIL=YYYYMMDDTHHMMSSZ`, where year, month and day are all given; missing
/// time parts read as zero.
pub open spec fn until_part(u: Option<DateParts>) -> Seq<char> {
    match u {
        Some(p) => if p.year is Some && p.month is Some && p.day is Some {
            ";UNTIL="@ + stamp_text(
                p.year.unwrap() as nat,
                p.month.unwrap() as nat,
                p.day.unwrap() as nat,
                p.hour.unwrap_or(0) as nat,
                p.minute.unwrap_or(0) as nat,
                p.second.unwrap_or(0) as nat,
            ) + "Z"@
        } else {
            Seq::empty()
        },
        None => Seq::empty(),
    }
}

/// `;NAME=items` where there are items.
pub open spec fn list_part(name: Seq<char>, items: Seq<Seq<char>>) -> Seq<char> {
    if items.len() == 0 {
        Seq::empty()
    } else {
        seq![';'] + name + seq!['='] + comma_join(items)
    }
}

/// `;COUNT=n` where given.
pub open spec fn count_part(c: Option<u32>) -> Seq<char> {
    match c {
        Some(n) => ";COUNT="@ + decimal(n as nat),
        None => Seq::empty(),
    }
}

/// `;INTERVAL=n` where given.
pub open spec fn interval_part(i: Option<u16>) -> Seq<char> {
    match i {
        Some(n) => ";INTERVAL="@ + decimal(n as nat),
        None => Seq::empty(),
    }
}

pub open spec fn byday_part(r: RecurrenceRule) -> Seq<char> {
    list_part("BYDAY"@, r.byday@.map_values(|d: RuleDay| day_text(d)))
}

pub open spec fn bymonthday_part(r: RecurrenceRule) -> Seq<char> {
    list_part("BYMONTHDAY"@, r.bymonthday@.map_values(|x: i8| signed_decimal(x as int)))
}

pub open spec fn bymonth_part(r: RecurrenceRule) -> Seq<char> {
    list_part("BYMONTH"@, r.bymonth@.map_values(|m: RuleMonth| month_text(m)))
}

/// The RRULE text of a rule: `FREQ`, then `UNTIL`, `COUNT`, `INTERVAL`,
/// `BYDAY`, `BYMONTHDAY` and `BYMONTH` where present, separated by `;`.
pub open spec fn rule_text(r: RecurrenceRule) -> Seq<char> {
    "FREQ="@ + freq_name(r.freq) + until_part(r.until) + count_part(r.count) + interval_part(
        r.interval,
    ) + byday_part(r) + bymonthday_part(r) + bymonth_part(r)
}

fn freq_str(f: Frequency) -> (s: &'static str)
    ensures
        s@ == freq_name(f),
{
    match f {
        Frequency::Secondly => "SECONDLY",
        Frequency::Minutely => "MINUTELY",
        Frequency::Hourly => "HOURLY",
        Frequency::Daily => "DAILY",
        Frequency::Weekly => "WEEKLY",
        Frequency::Monthly => "MONTHLY",
        Frequency::Yearly => "YEARLY",
    }
}

fn weekday_str(w: Weekday) -> (s: &'static str)
    ensures
        s@ == weekday_code(w),
{
    match w {
        Weekday::Sunday => "SU",
        Weekday::Monday => "MO",
        Weekday::Tuesday => "TU",
        Weekday::Wednesday => "WE",
        Weekday::Thursday => "TH",
        Weekday::Friday => "FR",
        Weekday::Saturday => "SA",
    }
}

fn push_day(d: RuleDay, out: &mut Vec<char>)
    ensures
        final(out)@ == old(out)@ + day_text(d),
{
    let ghost start = out@;
    if let Some(n) = d.ordwk {
        push_signed(n as i64, out);
    }
    push_str(weekday_str(d.weekday), out);
    assert(out@ =~= start + day_text(d));
}

fn push_month(m: RuleMonth, out: &mut Vec<char>)
    ensures
        final(out)@ == old(out)@ + month_text(m),
{
    let ghost start = out@;
    push_numeral(m.month as u64, 10, out);
    if m.leap {
        push_str("L", out);
    }
    assert(out@ =~= start + month_text(m));
}

proof fn lemma_comma_join_push(items: Seq<Seq<char>>, x: Seq<char>)
    ensures
        comma_join(items.push(x)) == if items.len() == 0 {
            x
        } else {
            comma_join(items) + seq![','] + x
        },
{
    assert(items.push(x).drop_last() =~= items);
}

fn push_days(ds: &Vec<RuleDay>, out: &mut Vec<char>)
    ensures
        final(out)@ == old(out)@ + comma_join(ds@.map_values(|d: RuleDay| day_text(d))),
{
    let ghost start = out@;
    let ghost items = ds@.map_values(|d: RuleDay| day_text(d));
    let mut i: usize = 0;
    while i < ds.len()
        invariant
            i <= ds@.len(),
            items == ds@.map_values(|d: RuleDay| day_text(d)),
            out@ == start + comma_join(items.take(i as int)),
        decreases ds.len() - i,
    {
        proof {
            lemma_comma_join_push(items.take(i as int), items[i as int]);
            assert(items.take(i as int).push(items[i as int]) =~= items.take(i + 1));
        }
        if i > 0 {
            out.push(',');
        }
        push_day(ds[i], out);
        i = i + 1;
    }
    assert(items.take(ds@.len() as int) =~= items);
}

fn push_monthdays(ds: &Vec<i8>, out: &mut Vec<char>)
    ensures
        final(out)@ == old(out)@ + comma_join(ds@.map_values(|x: i8| signed_decimal(x as int))),
{
    let ghost start = out@;
    let ghost items = ds@.map_values(|x: i8| signed_decimal(x as int));
    let mut i: usize = 0;
    while i < ds.len()
        invariant
            i <= ds@.len(),
            items == ds@.map_values(|x: i8| signed_decimal(x as int)),
            out@ == start + comma_join(items.take(i as int)),
        decreases ds.len() - i,
    {
        proof {
            lemma_comma_join_push(items.take(i as int), items[i as int]);
            assert(items.take(i as int).push(items[i as int]) =~= items.take(i + 1));
        }
        if i > 0 {
            out.push(',');
        }
        push_signed(ds[i] as i64, out);
        i = i + 1;
    }
    assert(items.take(ds@.len() as int) =~= items);
}

fn push_months(ms: &Vec<RuleMonth>, out: &mut Vec<char>)
    ensures
        final(out)@ == old(out)@ + comma_join(ms@.map_values(|m: RuleMonth| month_text(m))),
{
    let ghost start = out@;
    let ghost items = ms@.map_values(|m: RuleMonth| month_text(m));
    let mut i: usize = 0;
    while i < ms.len()
        invariant
            i <= ms@.len(),
            items == ms@.map_values(|m: RuleMonth| month_text(m)),
            out@ == start + comma_join(items.take(i as int)),
        decreases ms.len() - i,
    {
        proof {
            lemma_comma_join_push(items.take(i as int), items[i as int]);
            assert(items.take(i as int).push(items[i as int]) =~= items.take(i + 1));
        }
        if i > 0 {
            out.push(',');
        }
        push_month(ms[i], out);
        i = i + 1;
    }
    assert(items.take(ms@.len() as int) =~= items);
}

fn push_stamp(y: u64, m: u64, d: u64, h: u64, mi: u64, sec: u64, out: &mut Vec<char>)
    ensures
        final(out)@ == old(out)@ + stamp_text(y as nat, m as nat, d as nat, h as nat, mi as nat, sec as nat),
{
    let ghost start = out@;
    push_padded(y, 10, 4, out);
    push_padded(m, 10, 2, out);
    push_padded(d, 10, 2, out);
    push_str("T", out);
    let ghost mid = out@;
    push_padded(h, 10, 2, out);
    push_padded(mi, 10, 2, out);
    push_padded(sec, 10, 2, out);
    assert(out@ =~= start + stamp_text(y as nat, m as nat, d as nat, h as nat, mi as nat, sec as nat));
}

fn push_until(u: Option<DateParts>, out: &mut Vec<char>)
    ensures
        final(out)@ == old(out)@ + until_part(u),
{
    let ghost start = out@;
    if let Some(p) = u {
        if let (Some(y), Some(m), Some(d)) = (p.year, p.month, p.day) {
            push_str(";UNTIL=", out);
            push_stamp(
                y as u64,
                m as u64,
                d as u64,
                p.hour.unwrap_or(0) as u64,
                p.minute.unwrap_or(0) as u64,
                p.second.unwrap_or(0) as u64,
                out,
            );
            push_str("Z", out);
        }
    }
    assert(out@ =~= start + until_part(u));
}

fn push_counts(r: &RecurrenceRule, out: &mut Vec<char>)
    ensures
        final(out)@ == old(out)@ + count_part(r.count) + interval_part(r.interval),
{
    let ghost start = out@;
    if let Some(c) = r.count {
        push_str(";COUNT=", out);
        push_numeral(c as u64, 10, out);
    }
    let ghost mid = out@;
    assert(mid =~= start + count_part(r.count));
    if let Some(i) = r.interval {
        push_str(";INTERVAL=", out);
        push_numeral(i as u64, 10, out);
    }
    assert(out@ =~= mid + interval_part(r.interval));
}

fn push_byday_part(r: &RecurrenceRule, out: &mut Vec<char>)
    ensures
        final(out)@ == old(out)@ + byday_part(*r),
{
    let ghost start = out@;
    if r.byday.len() > 0 {
        push_str(";BYDAY=", out);
        push_days(&r.byday, out);
    }
    assert(out@ =~= start + byday_part(*r)) by {
        reveal_strlit(";BYDAY=");
        reveal_strlit("BYDAY");
    }
}

fn push_bymonthday_part(r: &RecurrenceRule, out: &mut Vec<char>)
    ensures
        final(out)@ == old(out)@ + bymonthday_part(*r),
{
    let ghost start = out@;
    if r.bymonthday.len() > 0 {
        push_str(";BYMONTHDAY=", out);
        push_monthdays(&r.bymonthday, out);
    }
    assert(out@ =~= start + bymonthday_part(*r)) by {
        reveal_strlit(";BYMONTHDAY=");
        reveal_strlit("BYMONTHDAY");
    }
}

fn push_bymonth_part(r: &RecurrenceRule, out: &mut Vec<char>)
    ensures
        final(out)@ == old(out)@ + bymonth_part(*r),
{
    let ghost start = out@;
    if r.bymonth.len() > 0 {
        push_str(";BYMONTH=", out);
        push_months(&r.bymonth, out);
    }
    assert(out@ =~= start + bymonth_part(*r)) by {
        reveal_strlit(";BYMONTH=");
        reveal_strlit("BYMONTH");
    }
}

/// The RRULE text of a recurrence rule.
pub fn recurrence_rule_to_string(r: &RecurrenceRule) -> (s: String)
    ensures
        s@ == rule_text(*r),
{
    let mut out: Vec<char> = Vec::new();
    push_str("FREQ=", &mut out);
    push_str(freq_str(r.freq), &mut out);
    push_until(r.until, &mut out);
    push_counts(r, &mut out);
    push_byday_part(r, &mut out);
    push_bymonthday_part(r, &mut out);
    push_bymonth_part(r, &mut out);
    assert(out@ =~= rule_text(*r));
    crate::text::string_of(out.as_slice())
}

// ---------------------------------------------------------------------------
// Reading components out of iCalendar text through `calcard`
// ---------------------------------------------------------------------------
#[verifier::external_type_specification]
#[verifier::external_body]
pub struct ExICalendarEntry(calcard::icalendar::ICalendarEntry);

#[verifier::external_type_specification]
#[verifier::external_body]
pub struct ExICalendarValue(calcard::icalendar::ICalendarValue);

#[verifier::external_type_specification]
#[verifier::external_body]
pub struct ExICalendarRecurrenceRule(calcard::icalendar::ICalendarRecurrenceRule);

/// What `ICalendar::parse` makes of a text, as plain values: each component
/// of the calendar it reads, in order, with whether it is a `VEVENT` and its
/// property lines, each line with its name and its values read as
/// [`entry_of`] reads them; `None` where the text is no calendar. A function
/// of the text.
pub uninterp spec fn ical_components(text: Seq<char>) -> Option<Seq<Component>>;

/// Parses iCalendar text through `ICalendar::parse` and converts each
/// component of the calendar to plain values: whether its type is `VEVENT`,
/// and its property lines (the `entries` field) in order.
#[verifier::external_body]
fn parse_ical(text: &str) -> (r: Option<Vec<Component>>)
    ensures
        match r {
            Some(v) => ical_components(text@) == Some(v@),
            None => ical_components(text@) is None,
        },
{
    let parsed = ICalendar::parse(text).ok()?;
    Some(parsed.components.iter().map(|c| Component {
        is_event: matches!(c.component_type, ICalendarComponentType::VEvent),
        entries: c.entries.iter().map(entry_of).collect(),
    }).collect())
}

/// The name of a property line, as far as the calendar tells names apart.
#[verifier::external_body]
fn entry_property(e: &ICalendarEntry) -> Property {
    match e.name {
        ICalendarProperty::Uid => Property::Uid,
        ICalendarProperty::Summary => Property::Summary,
        ICalendarProperty::Description => Property::Description,
        ICalendarProperty::Location => Property::Location,
        ICalendarProperty::Color => Property::Color,
        ICalendarProperty::Dtstart => Property::Dtstart,
        ICalendarProperty::Dtend => Property::Dtend,
        ICalendarProperty::Rrule => Property::Rrule,
        ICalendarProperty::RecurrenceId => Property::RecurrenceId,
        ICalendarProperty::Exdate => Property::Exdate,
        _ => Property::Other,
    }
}

/// The values of a property line (its `values` field), in order.
#[verifier::external_body]
fn entry_values(e: &ICalendarEntry) -> Vec<ICalendarValue> {
    e.values.clone()
}

/// A value told apart by kind: text, a date-time, a recurrence rule (kept as
/// it is), or anything else.
pub enum RawValue {
    Text(String),
    DateTime(DateParts),
    Rule(ICalendarRecurrenceRule),
    Other,
}

/// Tells a value's kind apart, moving its fields out.
#[verifier::external_body]
fn value_kind(v: &ICalendarValue) -> RawValue {
    match v {
        ICalendarValue::Text(s) => RawValue::Text(s.clone()),
        ICalendarValue::PartialDateTime(p) => RawValue::DateTime(DateParts {
            year: p.year, month: p.month, day: p.day, hour: p.hour, minute: p.minute,
            second: p.second, tz_hour: p.tz_hour, tz_minute: p.tz_minute,
        }),
        ICalendarValue::RecurrenceRule(r) => RawValue::Rule(r.as_ref().clone()),
        _ => RawValue::Other,
    }
}

/// `FREQ` of a rule.
#[verifier::external_body]
fn rule_frequency(r: &ICalendarRecurrenceRule) -> Frequency {
    match r.freq {
        ICalendarFrequency::Secondly => Frequency::Secondly,
        ICalendarFrequency::Minutely => Frequency::Minutely,
        ICalendarFrequency::Hourly => Frequency::Hourly,
        ICalendarFrequency::Daily => Frequency::Daily,
        ICalendarFrequency::Weekly => Frequency::Weekly,
        ICalendarFrequency::Monthly => Frequency::Monthly,
        ICalendarFrequency::Yearly => Frequency::Yearly,
    }
}

/// `UNTIL`, `COUNT` and `INTERVAL` of a rule.
#[verifier::external_body]
fn rule_limits(r: &ICalendarRecurrenceRule) -> (Option<DateParts>, Option<u32>, Option<u16>) {
    let until = r.until.as_ref().map(|p| DateParts {
        year: p.year, month: p.month, day: p.day, hour: p.hour, minute: p.minute,
        second: p.second, tz_hour: p.tz_hour, tz_minute: p.tz_minute,
    });
    (until, r.count, r.interval)
}

/// `BYDAY` of a rule, item by item.
#[verifier::external_body]
fn rule_byday(r: &ICalendarRecurrenceRule) -> Vec<RuleDay> {
    r.byday.iter().map(|d| RuleDay {
        ordwk: d.ordwk,
        weekday: match d.weekday {
            ICalendarWeekday::Sunday => Weekday::Sunday,
            ICalendarWeekday::Monday => Weekday::Monday,
            ICalendarWeekday::Tuesday => Weekday::Tuesday,
            ICalendarWeekday::Wednesday => Weekday::Wednesday,
            ICalendarWeekday::Thursday => Weekday::Thursday,
            ICalendarWeekday::Friday => Weekday::Friday,
            ICalendarWeekday::Saturday => Weekday::Saturday,
        },
    }).collect()
}

/// `BYMONTHDAY` of a rule.
#[verifier::external_body]
fn rule_bymonthday(r: &ICalendarRecurrenceRule) -> Vec<i8> {
    r.bymonthday.clone()
}

/// `BYMONTH` of a rule, through `ICalendarMonth::month` and `is_leap`.
#[verifier::external_body]
fn rule_bymonth(r: &ICalendarRecurrenceRule) -> Vec<RuleMonth> {
    r.bymonth.iter().map(|m| RuleMonth { month: m.month(), leap: m.is_leap() }).collect()
}

/// The recurrence rule of `calcard`, as plain values.
pub fn rule_of(r: &ICalendarRecurrenceRule) -> RecurrenceRule {
    let (until, count, interval) = rule_limits(r);
    RecurrenceRule {
        freq: rule_frequency(r),
        until,
        count,
        interval,
        byday: rule_byday(r),
        bymonthday: rule_bymonthday(r),
        bymonth: rule_bymonth(r),
    }
}

/// A value of `calcard`, as plain values.
pub fn value_of(v: &ICalendarValue) -> CalValue {
    match value_kind(v) {
        RawValue::Text(s) => CalValue::Text(s),
        RawValue::DateTime(p) => CalValue::DateTime(p),
        RawValue::Rule(r) => CalValue::Rule(rule_of(&r)),
        RawValue::Other => CalValue::Other,
    }
}

/// A property line of `calcard`, as plain values.
pub fn entry_of(e: &ICalendarEntry) -> Entry {
    let raw = entry_values(e);
    let mut values: Vec<CalValue> = Vec::new();
    let mut i: usize = 0;
    while i < raw.len()
        invariant
            i <= raw@.len(),
            values@.len() == i,
        decreases raw.len() - i,
    {
        values.push(value_of(&raw[i]));
        i = i + 1;
    }
    Entry { name: entry_property(e), values }
}

/// The components of an iCalendar text, as plain values, one for each
/// component that `ICalendar::parse` reads, in order; `None` where the text
/// is no calendar.
pub fn parse_components(text: &str) -> (r: Option<Vec<Component>>)
    ensures
        match r {
            Some(v) => ical_components(text@) == Some(v@),
            None => ical_components(text@) is None,
        },
{
    parse_ical(text)
}

} // verus!
