//! Points in local time, and the calls into `chrono` and `rrule` that the
//! calendar needs.
use vstd::prelude::*;
use chrono::{DateTime, Datelike, Local, NaiveDate, TimeZone, Timelike};
use rrule::RRuleSet;
use crate::text::{decimal, push_padded, push_numeral, zero_padded, numeral};
use vstd::arithmetic::div_mod::{lemma_fundamental_div_mod, lemma_fundamental_div_mod_converse, lemma_mod_bound};

verus! {

/// Earliest second that `chrono` can represent.
pub const MIN_TIMESTAMP: i64 = -8_334_601_228_800;

/// Latest second that `chrono` can represent.
pub const MAX_TIMESTAMP: i64 = 8_210_266_876_799;

/// A wall-clock reading: a date and a time of day, without a zone.
#[derive(Clone, Copy, Debug, PartialEq, Eq, Structural)]
pub struct WallClock {
    pub year: i32,
    pub month: u32,
    pub day: u32,
    pub hour: u32,
    pub minute: u32,
    pub second: u32,
}

/// A calendar date.
#[derive(Clone, Copy, Debug, PartialEq, Eq, Structural)]
pub struct Date {
    pub year: i32,
    pub month: u32,
    pub day: u32,
}

/// `a` comes strictly before `b`.
pub open spec fn date_before(a: Date, b: Date) -> bool {
    a.year < b.year || (a.year == b.year && (a.month < b.month || (a.month == b.month && a.day
        < b.day)))
}

/// The date of a wall clock.
pub open spec fn date_of(w: WallClock) -> Date {
    Date { year: w.year, month: w.month, day: w.day }
}

/// Whether `a` comes strictly before `b`.
pub fn is_date_before(a: Date, b: Date) -> (r: bool)
    ensures
        r == date_before(a, b),
{
    a.year < b.year || (a.year == b.year && (a.month < b.month || (a.month == b.month && a.day
        < b.day)))
}

/// A point in time as the machine's local zone sees it: seconds since the
/// epoch, and the local wall clock at that instant.
#[derive(Clone, Copy, Debug, PartialEq, Eq, Structural)]
pub struct Moment {
    pub timestamp: i64,
    pub local: WallClock,
}

/// Whether `y` is a leap year of the proleptic Gregorian calendar.
pub open spec fn is_leap_year(y: int) -> bool {
    (y % 4 == 0 && y % 100 != 0) || y % 400 == 0
}

/// Number of days of month `m` in year `y`.
pub open spec fn days_in_month(y: int, m: int) -> int {
    if m == 2 {
        if is_leap_year(y) {
            29
        } else {
            28
        }
    } else if m == 4 || m == 6 || m == 9 || m == 11 {
        30
    } else {
        31
    }
}

/// Earliest year that `chrono` represents.
pub const MIN_YEAR: i32 = -262143;

/// Latest year that `chrono` represents.
pub const MAX_YEAR: i32 = 262142;

/// Whether the date exists and lies in `chrono`'s range of years.
pub open spec fn valid_date(y: int, m: int, d: int) -> bool {
    &&& MIN_YEAR <= y <= MAX_YEAR
    &&& 1 <= m <= 12
    &&& 1 <= d <= days_in_month(y, m)
}

/// Whether the reading names an existing date and a time of day
/// (`hh < 24`, `mm < 60`, `ss < 60`).
pub open spec fn valid_wall_clock(w: WallClock) -> bool {
    &&& valid_date(w.year as int, w.month as int, w.day as int)
    &&& w.hour < 24
    &&& w.minute < 60
    &&& w.second < 60
}

/// Whether the instant lies in the range that `chrono` represents.
pub open spec fn moment_ok(m: Moment) -> bool {
    MIN_TIMESTAMP <= m.timestamp <= MAX_TIMESTAMP
}

/// Whether the date `(y, m, d)` exists.
pub fn is_valid_date(y: i32, m: u32, d: u32) -> (b: bool)
    ensures
        b == valid_date(y as int, m as int, d as int),
{
    if y < MIN_YEAR || y > MAX_YEAR || m < 1 || m > 12 || d < 1 {
        return false;
    }
    let leap = (y % 4 == 0 && y % 100 != 0) || y % 400 == 0;
    let dim: u32 = if m == 2 {
        if leap {
            29
        } else {
            28
        }
    } else if m == 4 || m == 6 || m == 9 || m == 11 {
        30
    } else {
        31
    };
    d <= dim
}

/// Whether the reading is a valid date and time of day.
pub fn is_valid_wall_clock(w: &WallClock) -> (b: bool)
    ensures
        b == valid_wall_clock(*w),
{
    is_valid_date(w.year, w.month, w.day) && w.hour < 24 && w.minute < 60 && w.second < 60
}

/// The number of days from 1970-01-01 to the date `(y, m, d)` of the
/// proleptic Gregorian calendar (negative before it). The year is counted
/// from March, so that the leap day comes last.
pub open spec fn days_from_civil(y: int, m: int, d: int) -> int {
    let yy = if m <= 2 { y - 1 } else { y };
    let era = yy / 400;
    let yoe = yy - era * 400;
    let mp = if m > 2 { m - 3 } else { m + 9 };
    let doy = (153 * mp + 2) / 5 + d - 1;
    let doe = yoe * 365 + yoe / 4 - yoe / 100 + doy;
    era * 146097 + doe - 719468
}

/// The instant that a UTC wall clock names, in seconds since the epoch.
pub open spec fn utc_timestamp(w: WallClock) -> int {
    days_from_civil(w.year as int, w.month as int, w.day as int) * 86400 + w.hour * 3600 + w.minute * 60
        + w.second
}

/// The local moment of a wall clock read in the machine's zone, through
/// `NaiveDateTime::and_local_timezone(Local).single()`.
///
/// Where the reading is `Some`, its local wall clock is the given one and its
/// instant lies in `chrono`'s range. Which instant that is depends on the
/// machine's zone and is not stated; `None` (a reading skipped or repeated by
/// a zone change) is left to the zone as well.
#[verifier::external_body]
pub fn local_moment(w: &WallClock) -> (r: Option<Moment>)
    requires
        valid_wall_clock(*w),
    ensures
        r matches Some(m) ==> m.local == *w && moment_ok(m),
{
    let naive = NaiveDate::from_ymd_opt(w.year, w.month, w.day)
        .and_then(|d| d.and_hms_opt(w.hour, w.minute, w.second));
    naive.and_then(|n| n.and_local_timezone(Local).single()).map(|dt| Moment {
        timestamp: dt.timestamp(),
        local: WallClock {
            year: dt.year(),
            month: dt.month(),
            day: dt.day(),
            hour: dt.hour(),
            minute: dt.minute(),
            second: dt.second(),
        },
    })
}

/// The local moment of a wall clock read in UTC, through
/// `NaiveDateTime::and_utc().with_timezone(&Local)`.
///
/// The instant is `utc_timestamp(*w)`, in `chrono`'s range. The local wall
/// clock at it depends on the machine's zone; since a zone's offset from UTC
/// is under a day (`FixedOffset` holds only such offsets), that wall clock,
/// read as UTC, lies less than a day from the instant; like every
/// `NaiveDateTime` it names a day of its month and a time of day.
#[verifier::external_body]
pub fn utc_moment(w: &WallClock) -> (m: Moment)
    requires
        valid_wall_clock(*w),
    ensures
        m.timestamp == utc_timestamp(*w),
        moment_ok(m),
        calendar_reading(m.local),
        -86400 < utc_timestamp(m.local) - m.timestamp < 86400,
{
    let naive = NaiveDate::from_ymd_opt(w.year, w.month, w.day).unwrap();
    let dt = naive.and_hms_opt(w.hour, w.minute, w.second).unwrap().and_utc().with_timezone(&Local);
    Moment {
        timestamp: dt.timestamp(),
        local: WallClock {
            year: dt.year(),
            month: dt.month(),
            day: dt.day(),
            hour: dt.hour(),
            minute: dt.minute(),
            second: dt.second(),
        },
    }
}

/// The moment `secs` seconds after `m`, through
/// `DateTime::<Local>::checked_add_signed`.
///
/// Where it is `Some`, its instant is `m.timestamp + secs`, in `chrono`'s
/// range; its local wall clock depends on the machine's zone. `None` comes
/// when the result leaves `chrono`'s range; where exactly that edge lies is
/// not stated.
#[verifier::external_body]
pub fn moment_plus(m: &Moment, secs: i64) -> (r: Option<Moment>)
    requires
        moment_ok(*m),
    ensures
        r matches Some(x) ==> x.timestamp == m.timestamp + secs && moment_ok(x),
{
    let start = Local.timestamp_opt(m.timestamp, 0).single()?;
    let dt = start.checked_add_signed(chrono::TimeDelta::try_seconds(secs)?)?;
    Some(Moment {
        timestamp: dt.timestamp(),
        local: WallClock {
            year: dt.year(),
            month: dt.month(),
            day: dt.day(),
            hour: dt.hour(),
            minute: dt.minute(),
            second: dt.second(),
        },
    })
}

/// The UTC wall clock of an instant, through `DateTime::from_timestamp`:
/// where the instant lies in `chrono`'s range, the wall clock that names it
/// read as UTC (a valid day and time); `None` outside that range.
#[verifier::external_body]
pub fn utc_wall_clock(ts: i64) -> (r: Option<WallClock>)
    ensures
        MIN_TIMESTAMP <= ts <= MAX_TIMESTAMP ==> r is Some,
        r matches Some(w) ==> calendar_reading(w) && utc_timestamp(w) == ts,
{
    let dt = DateTime::from_timestamp(ts, 0)?;
    Some(WallClock {
        year: dt.year(), month: dt.month(), day: dt.day(),
        hour: dt.hour(), minute: dt.minute(), second: dt.second(),
    })
}

/// The current moment, through `Local::now()`; nothing is stated of which
/// moment that is but that it lies in `chrono`'s range.
#[verifier::external_body]
pub fn now_moment() -> (m: Moment)
    ensures
        moment_ok(m),
{
    let dt = Local::now();
    Moment {
        timestamp: dt.timestamp(),
        local: WallClock {
            year: dt.year(),
            month: dt.month(),
            day: dt.day(),
            hour: dt.hour(),
            minute: dt.minute(),
            second: dt.second(),
        },
    }
}

/// The outside type of a parsed recurrence set.
#[verifier::external_type_specification]
#[verifier::external_body]
pub struct ExRRuleSet(rrule::RRuleSet);

/// Parses `DTSTART`/`RRULE`/`EXDATE` lines into a recurrence set, through
/// `<RRuleSet as FromStr>::from_str`. Nothing is stated of the result: a
/// `DTSTART` without a zone is read in the machine's zone.
#[verifier::external_body]
pub fn parse_rule_set(text: &str) -> (r: Option<RRuleSet>) {
    text.parse::<RRuleSet>().ok()
}

/// The occurrences of a recurrence set from `from` to `to`, both included, in
/// the order the set yields them, through `RRuleSet::after`, `before` and
/// `all_unchecked` (no cap on their number). Each lies between the two
/// bounds and in `chrono`'s range; which occurrences come out, and their
/// local wall clocks, is not stated.
#[verifier::external_body]
pub fn occurrences_between(set: RRuleSet, from: &Moment, to: &Moment) -> (r: Vec<Moment>)
    requires
        moment_ok(*from),
        moment_ok(*to),
    ensures
        forall|i: int|
            0 <= i < r@.len() ==> from.timestamp <= #[trigger] r@[i].timestamp <= to.timestamp
                && moment_ok(r@[i]),
{
    let a = DateTime::from_timestamp(from.timestamp, 0).unwrap().with_timezone(&rrule::Tz::LOCAL);
    let b = DateTime::from_timestamp(to.timestamp, 0).unwrap().with_timezone(&rrule::Tz::LOCAL);
    let dates = set.after(a).before(b).all_unchecked();
    dates.iter().map(|d| d.with_timezone(&Local)).map(|dt| Moment {
        timestamp: dt.timestamp(),
        local: WallClock {
            year: dt.year(), month: dt.month(), day: dt.day(),
            hour: dt.hour(), minute: dt.minute(), second: dt.second(),
        },
    }).collect()
}

/// `%Y` of `chrono`: four digits, zero-padded, with a sign outside 0..=9999.
pub open spec fn year_text(y: int) -> Seq<char> {
    if 0 <= y <= 9999 {
        zero_padded(decimal(y as nat), 4)
    } else if y > 9999 {
        seq!['+'] + decimal(y as nat)
    } else {
        seq!['-'] + zero_padded(decimal((-y) as nat), 4)
    }
}

/// Two decimal digits, zero-padded.
pub open spec fn two_digits(n: int) -> Seq<char> {
    zero_padded(decimal(n as nat), 2)
}

/// `%m%d` of a wall clock.
pub open spec fn month_day_text(w: WallClock) -> Seq<char> {
    two_digits(w.month as int) + two_digits(w.day as int)
}

/// `T%H%M%S` of a wall clock.
pub open spec fn time_text(w: WallClock) -> Seq<char> {
    seq!['T'] + two_digits(w.hour as int) + two_digits(w.minute as int) + two_digits(w.second as int)
}

/// `%Y%m%dT%H%M%S` of a wall clock.
pub open spec fn compact_stamp(w: WallClock) -> Seq<char> {
    year_text(w.year as int) + month_day_text(w) + time_text(w)
}

/// Appends `%Y` of a year.
pub fn push_year(y: i32, out: &mut Vec<char>)
    ensures
        final(out)@ == old(out)@ + year_text(y as int),
{
    if 0 <= y && y <= 9999 {
        push_padded(y as u64, 10, 4, out);
    } else if y > 9999 {
        out.push('+');
        push_numeral(y as u64, 10, out);
        assert(old(out)@ + year_text(y as int) =~= old(out)@ + seq!['+'] + numeral(y as nat, 10));
    } else {
        out.push('-');
        let mag: u64 = (0 - (y as i64)) as u64;
        push_padded(mag, 10, 4, out);
        assert(old(out)@ + year_text(y as int) =~= old(out)@ + seq!['-'] + zero_padded(
            numeral(mag as nat, 10),
            4,
        ));
    }
}

fn push_month_day(w: &WallClock, out: &mut Vec<char>)
    ensures
        final(out)@ == old(out)@ + month_day_text(*w),
{
    let ghost start = out@;
    push_padded(w.month as u64, 10, 2, out);
    push_padded(w.day as u64, 10, 2, out);
    assert(out@ =~= start + month_day_text(*w));
}

fn push_time(w: &WallClock, out: &mut Vec<char>)
    ensures
        final(out)@ == old(out)@ + time_text(*w),
{
    let ghost start = out@;
    out.push('T');
    push_padded(w.hour as u64, 10, 2, out);
    push_padded(w.minute as u64, 10, 2, out);
    push_padded(w.second as u64, 10, 2, out);
    assert(out@ =~= start + time_text(*w));
}

/// Appends `%Y%m%dT%H%M%S` of a wall clock.
pub fn push_compact_stamp(w: &WallClock, out: &mut Vec<char>)
    ensures
        final(out)@ == old(out)@ + compact_stamp(*w),
{
    let ghost start = out@;
    push_year(w.year, out);
    push_month_day(w, out);
    push_time(w, out);
    assert(out@ =~= start + compact_stamp(*w));
}

/// A wall clock that names a day of its month and a time of day; its year
/// may lie anywhere.
pub open spec fn calendar_reading(w: WallClock) -> bool {
    &&& 1 <= w.month <= 12
    &&& 1 <= w.day <= days_in_month(w.year as int, w.month as int)
    &&& w.hour < 24
    &&& w.minute < 60
    &&& w.second < 60
}

/// The days before the March that begins the counting year `yy`, shifted
/// as [`days_from_civil`] counts.
spec fn year_start(yy: int) -> int {
    let era = yy / 400;
    let yoe = yy - era * 400;
    era * 146097 + yoe * 365 + yoe / 4 - yoe / 100
}

/// Adding one to `x` adds one to `x / d` exactly where `x + 1` is a
/// multiple of `d`.
proof fn lemma_div_step(x: int, d: int)
    requires
        d > 0,
    ensures
        (x + 1) / d - x / d == if (x + 1) % d == 0 {
            1int
        } else {
            0int
        },
{
    let q = x / d;
    let r = x % d;
    lemma_fundamental_div_mod(x, d);
    lemma_mod_bound(x, d);
    if r == d - 1 {
        assert((q + 1) * d + 0 == x + 1) by (nonlinear_arith)
            requires
                x == d * q + r,
                r == d - 1,
        ;
        lemma_fundamental_div_mod_converse(x + 1, d, q + 1, 0);
    } else {
        assert(q * d + (r + 1) == x + 1) by (nonlinear_arith)
            requires
                x == d * q + r,
        ;
        lemma_fundamental_div_mod_converse(x + 1, d, q, r + 1);
    }
}

/// A counting year (March to February) has 366 days where the February it
/// ends with is a leap one, else 365.
proof fn lemma_year_length(yy: int)
    ensures
        year_start(yy + 1) - year_start(yy) == if is_leap_year(yy + 1) {
            366int
        } else {
            365int
        },
{
    let era = yy / 400;
    let yoe = yy - era * 400;
    lemma_fundamental_div_mod(yy, 400);
    lemma_mod_bound(yy, 400);
    assert(0 <= yoe < 400);
    if yoe == 399 {
        lemma_fundamental_div_mod_converse(yy + 1, 400, era + 1, 0);
        lemma_fundamental_div_mod_converse(yy + 1, 4, 100 * (era + 1), 0);
        assert(year_start(yy + 1) == (era + 1) * 146097);
        assert(399int / 4 == 99 && 399int / 100 == 3);
    } else {
        lemma_fundamental_div_mod_converse(yy + 1, 400, era, yoe + 1);
        lemma_div_step(yoe, 4);
        lemma_div_step(yoe, 100);
        lemma_fundamental_div_mod(yoe + 1, 4);
        lemma_mod_bound(yoe + 1, 4);
        lemma_fundamental_div_mod_converse(yy + 1, 4, 100 * era + (yoe + 1) / 4, (yoe + 1) % 4);
        lemma_fundamental_div_mod(yoe + 1, 100);
        lemma_mod_bound(yoe + 1, 100);
        lemma_fundamental_div_mod_converse(yy + 1, 100, 4 * era + (yoe + 1) / 100, (yoe + 1) % 100);
        assert(year_start(yy + 1) == era * 146097 + (yoe + 1) * 365 + (yoe + 1) / 4 - (yoe + 1) / 100);
    }
}

/// [`days_from_civil`] counts from the start of the counting year.
proof fn lemma_days_split(y: int, m: int, d: int)
    ensures
        days_from_civil(y, m, d) == year_start(if m <= 2 { y - 1 } else { y }) + (153 * (if m > 2 {
            m - 3
        } else {
            m + 9
        }) + 2) / 5 + d - 1 - 719468,
{
}

/// The first day of the month after `(y, m)` comes `days_in_month(y, m)`
/// days after the first day of `(y, m)`.
proof fn lemma_month_step(y: int, m: int)
    requires
        1 <= m <= 12,
    ensures
        m < 12 ==> days_from_civil(y, m + 1, 1) == days_from_civil(y, m, 1) + days_in_month(y, m),
        m == 12 ==> days_from_civil(y + 1, 1, 1) == days_from_civil(y, 12, 1) + 31,
{
    lemma_days_split(y, m, 1);
    if m < 12 {
        lemma_days_split(y, m + 1, 1);
    } else {
        lemma_days_split(y + 1, 1, 1);
    }
    if m == 2 {
        lemma_year_length(y - 1);
    }
}

/// A month ends no later than any later month begins.
proof fn lemma_months_ordered(y: int, m: int, y2: int, m2: int)
    requires
        1 <= m <= 12,
        1 <= m2 <= 12,
        y < y2 || (y == y2 && m < m2),
    ensures
        days_from_civil(y, m, 1) + days_in_month(y, m) <= days_from_civil(y2, m2, 1),
    decreases 12 * y2 + m2 - 12 * y - m,
{
    lemma_month_step(y, m);
    let (ny, nm) = if m < 12 {
        (y, m + 1)
    } else {
        (y + 1, 1)
    };
    if !(ny == y2 && nm == m2) {
        lemma_months_ordered(ny, nm, y2, m2);
    }
}

/// Earlier days of the calendar have fewer days since the epoch.
proof fn lemma_days_ordered(a: Date, b: Date)
    requires
        1 <= a.month <= 12,
        1 <= a.day <= days_in_month(a.year as int, a.month as int),
        1 <= b.month <= 12,
        1 <= b.day <= days_in_month(b.year as int, b.month as int),
        date_before(a, b),
    ensures
        days_from_civil(a.year as int, a.month as int, a.day as int) < days_from_civil(
            b.year as int,
            b.month as int,
            b.day as int,
        ),
{
    lemma_days_split(a.year as int, a.month as int, a.day as int);
    lemma_days_split(a.year as int, a.month as int, 1);
    lemma_days_split(b.year as int, b.month as int, b.day as int);
    lemma_days_split(b.year as int, b.month as int, 1);
    if !(a.year == b.year && a.month == b.month) {
        lemma_months_ordered(a.year as int, a.month as int, b.year as int, b.month as int);
    }
}

/// A wall clock, read as UTC, falls before the midnight that begins a date
/// exactly where its date comes before that date.
pub proof fn lemma_utc_orders_dates(l: WallClock, d: Date)
    requires
        calendar_reading(l),
        1 <= d.month <= 12,
        1 <= d.day <= days_in_month(d.year as int, d.month as int),
    ensures
        date_before(date_of(l), d) <==> utc_timestamp(l) < utc_timestamp(
            WallClock { year: d.year, month: d.month, day: d.day, hour: 0, minute: 0, second: 0 },
        ),
{
    let a = date_of(l);
    if date_before(a, d) {
        lemma_days_ordered(a, d);
    } else if a != d {
        assert(date_before(d, a));
        lemma_days_ordered(d, a);
    }
}

/// Day numbers count days from the epoch: 1970-01-01 is day 0, the next day
/// of a month is one day later, and the first of each month comes as many
/// days after the first of the month before as that month has (31 from
/// December 1 to January 1 of the next year). February has 29 days in a
/// leap year (every fourth year, but not a century unless it is a fourth
/// century) and 28 otherwise.
pub proof fn law_days_count_from_epoch(y: int, m: int, d: int)
    requires
        1 <= m <= 12,
    ensures
        days_from_civil(1970, 1, 1) == 0,
        days_from_civil(y, m, d + 1) == days_from_civil(y, m, d) + 1,
        m < 12 ==> days_from_civil(y, m + 1, 1) == days_from_civil(y, m, 1) + days_in_month(y, m),
        m == 12 ==> days_from_civil(y + 1, 1, 1) == days_from_civil(y, 12, 1) + 31,
        (y % 4 == 0 && y % 100 != 0) ==> days_in_month(y, 2) == 29,
        y % 400 == 0 ==> days_in_month(y, 2) == 29,
        (y % 100 == 0 && y % 400 != 0) ==> days_in_month(y, 2) == 28,
        y % 4 != 0 ==> days_in_month(y, 2) == 28,
{
    lemma_month_step(y, m);
    assert(days_from_civil(1970, 1, 1) == 0);
    if y % 400 == 0 {
        assert(y % 100 == 0 && y % 4 == 0) by (nonlinear_arith)
            requires
                y % 400 == 0,
        ;
    }
    if y % 4 != 0 {
        assert(y % 100 != 0 && y % 400 != 0) by (nonlinear_arith)
            requires
                y % 4 != 0,
        ;
    }
}

} // verus!
