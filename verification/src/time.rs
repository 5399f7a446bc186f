//! Time service: which units of the clock changed since the last tick, and
//! the signals that announce them.
use vstd::prelude::*;
use chrono::{Datelike, Local, Timelike};
use crate::calendar::moment::{Date, Moment, WallClock, date_of};
use crate::signal::{emitted, Signal, SignalHandler};

verus! {

/// The units a subscriber can follow.
#[derive(Debug, Clone, Copy, PartialEq, Eq, Structural)]
pub enum TimeUnit {
    Second,
    Minute,
    Hour,
    Day,
    Week,
    Month,
    Year,
}

/// A reading of the local clock: the instant, and the fields compared
/// between ticks.
#[derive(Debug, Clone, Copy, PartialEq, Eq, Structural)]
pub struct ClockReading {
    pub now: Moment,
    pub second: u32,
    pub minute: u32,
    pub hour: u32,
    pub day: Date,
    pub week_year: i32,
    pub week: u32,
    pub month_year: i32,
    pub month: u32,
    pub year: i32,
}

/// Which units changed.
#[derive(Debug, Clone, Copy, PartialEq, Eq, Structural)]
pub struct Changes {
    pub second: bool,
    pub minute: bool,
    pub hour: bool,
    pub day: bool,
    pub week: bool,
    pub month: bool,
    pub year: bool,
}

/// The units that differ between two readings: the ISO week by week-year and
/// week, the month by year and month.
pub open spec fn changes_between(a: ClockReading, b: ClockReading) -> Changes {
    Changes {
        second: a.second != b.second,
        minute: a.minute != b.minute,
        hour: a.hour != b.hour,
        day: a.day != b.day,
        week: a.week_year != b.week_year || a.week != b.week,
        month: a.month_year != b.month_year || a.month != b.month,
        year: a.year != b.year,
    }
}

/// The local clock now, through `Local::now()` and `iso_week()`. Which
/// instant is read is not stated; the fields compared between ticks are
/// those of the instant read (the ISO week is not stated).
#[verifier::external_body]
pub fn read_clock() -> (r: ClockReading)
    ensures
        r.second == r.now.local.second,
        r.minute == r.now.local.minute,
        r.hour == r.now.local.hour,
        r.day == date_of(r.now.local),
        r.month_year == r.now.local.year,
        r.month == r.now.local.month,
        r.year == r.now.local.year,
{
    let dt = Local::now();
    let w = dt.iso_week();
    ClockReading {
        now: Moment {
            timestamp: dt.timestamp(),
            local: WallClock {
                year: dt.year(), month: dt.month(), day: dt.day(),
                hour: dt.hour(), minute: dt.minute(), second: dt.second(),
            },
        },
        second: dt.second(), minute: dt.minute(), hour: dt.hour(),
        day: Date { year: dt.year(), month: dt.month(), day: dt.day() },
        week_year: w.year(), week: w.week(), month_year: dt.year(), month: dt.month(), year: dt.year(),
    }
}

/// Whether `unit` is among the changes.
pub open spec fn unit_changed(c: Changes, unit: TimeUnit) -> bool {
    match unit {
        TimeUnit::Second => c.second,
        TimeUnit::Minute => c.minute,
        TimeUnit::Hour => c.hour,
        TimeUnit::Day => c.day,
        TimeUnit::Week => c.week,
        TimeUnit::Month => c.month,
        TimeUnit::Year => c.year,
    }
}

/// What a tick does to the signal of one unit: where the unit changed and
/// the signal has handlers, the instant is emitted to them once; otherwise
/// the signal is left as it was.
pub open spec fn announced(before: Signal<Moment>, after: Signal<Moment>, changed: bool, now: Moment) -> bool {
    if changed && before.ids().len() > 0 {
        emitted(before, after, now)
    } else {
        after == before
    }
}

/// Emits `now` on `sig` where `changed` holds and `sig` has handlers.
fn announce(sig: &mut Signal<Moment>, changed: bool, now: Moment)
    ensures
        announced(*old(sig), *final(sig), changed, now),
{
    if changed && sig.handler_count() > 0 {
        sig.emit_sync(now);
    }
}

/// The time service: the last reading and one signal per unit.
pub struct TimeService {
    state: ClockReading,
    started: bool,
    second_changed: Signal<Moment>,
    minute_changed: Signal<Moment>,
    hour_changed: Signal<Moment>,
    day_changed: Signal<Moment>,
    week_changed: Signal<Moment>,
    month_changed: Signal<Moment>,
    year_changed: Signal<Moment>,
}

impl TimeService {
    pub closed spec fn last_reading(&self) -> ClockReading {
        self.state
    }

    /// Whether the ticker was started.
    pub closed spec fn is_started(&self) -> bool {
        self.started
    }

    /// Marks the ticker started; returns whether this was the first start
    /// (only then is a ticker to be spawned).
    pub fn start(&mut self) -> (first: bool)
        ensures
            first == !old(self).is_started(),
            final(self).is_started(),
            final(self).last_reading() == old(self).last_reading(),
            forall|u: TimeUnit| #[trigger] final(self).signal_of(u) == old(self).signal_of(u),
    {
        let first = !self.started;
        self.started = true;
        first
    }

    /// The signal of a unit.
    pub closed spec fn signal_of(&self, unit: TimeUnit) -> Signal<Moment> {
        match unit {
            TimeUnit::Second => self.second_changed,
            TimeUnit::Minute => self.minute_changed,
            TimeUnit::Hour => self.hour_changed,
            TimeUnit::Day => self.day_changed,
            TimeUnit::Week => self.week_changed,
            TimeUnit::Month => self.month_changed,
            TimeUnit::Year => self.year_changed,
        }
    }

    /// A service that starts from a reading, with no subscriber.
    pub fn with_reading(reading: ClockReading) -> (s: Self)
        ensures
            s.last_reading() == reading,
            !s.is_started(),
            forall|u: TimeUnit| #[trigger] s.signal_of(u).ids() == Seq::<u64>::empty() && s.signal_of(u).next_id() == 0
                && s.signal_of(u).emissions().len() == 0,
    {
        TimeService {
            state: reading,
            started: false,
            second_changed: Signal::new(),
            minute_changed: Signal::new(),
            hour_changed: Signal::new(),
            day_changed: Signal::new(),
            week_changed: Signal::new(),
            month_changed: Signal::new(),
            year_changed: Signal::new(),
        }
    }

    /// A service that starts from the current time.
    pub fn new() -> (s: Self)
        ensures
            forall|u: TimeUnit| #[trigger] s.signal_of(u).ids() == Seq::<u64>::empty(),
    {
        Self::with_reading(read_clock())
    }

    /// Subscribes to the changes of a unit.
    pub fn subscribe<F: Fn(Moment) + Send + 'static>(&mut self, unit: TimeUnit, callback: F) -> (h: SignalHandler)
        requires
            old(self).signal_of(unit).next_id() < u64::MAX,
            forall|v: Moment| call_requires(callback, (v,)),
        ensures
            h.spec_id() == old(self).signal_of(unit).next_id(),
            final(self).signal_of(unit).ids() == old(self).signal_of(unit).ids().push(h.spec_id()),
            final(self).signal_of(unit).emissions() == old(self).signal_of(unit).emissions(),
            forall|u: TimeUnit| u != unit ==> #[trigger] final(self).signal_of(u) == old(self).signal_of(u),
            final(self).last_reading() == old(self).last_reading(),
    {
        match unit {
            TimeUnit::Second => self.second_changed.connect(callback),
            TimeUnit::Minute => self.minute_changed.connect(callback),
            TimeUnit::Hour => self.hour_changed.connect(callback),
            TimeUnit::Day => self.day_changed.connect(callback),
            TimeUnit::Week => self.week_changed.connect(callback),
            TimeUnit::Month => self.month_changed.connect(callback),
            TimeUnit::Year => self.year_changed.connect(callback),
        }
    }

    /// A tick with a reading: the reading is stored, and each unit that
    /// changed is announced, with the reading's instant, to the unit's
    /// subscribers (where it has any). Returns the changes.
    pub fn tick_with(&mut self, reading: ClockReading) -> (c: Changes)
        ensures
            c == changes_between(reading, old(self).last_reading()),
            final(self).last_reading() == reading,
            forall|u: TimeUnit|
                announced(
                    #[trigger] old(self).signal_of(u),
                    final(self).signal_of(u),
                    unit_changed(c, u),
                    reading.now,
                ),
    {
        let old_state = self.state;
        let c = Changes {
            second: reading.second != old_state.second,
            minute: reading.minute != old_state.minute,
            hour: reading.hour != old_state.hour,
            day: reading.day != old_state.day,
            week: reading.week_year != old_state.week_year || reading.week != old_state.week,
            month: reading.month_year != old_state.month_year || reading.month != old_state.month,
            year: reading.year != old_state.year,
        };
        self.state = reading;
        announce(&mut self.second_changed, c.second, reading.now);
        announce(&mut self.minute_changed, c.minute, reading.now);
        announce(&mut self.hour_changed, c.hour, reading.now);
        announce(&mut self.day_changed, c.day, reading.now);
        announce(&mut self.week_changed, c.week, reading.now);
        announce(&mut self.month_changed, c.month, reading.now);
        announce(&mut self.year_changed, c.year, reading.now);
        assert forall|u: TimeUnit|
            announced(
                #[trigger] old(self).signal_of(u),
                self.signal_of(u),
                unit_changed(c, u),
                reading.now,
            ) by {
            match u {
                TimeUnit::Second => {},
                TimeUnit::Minute => {},
                TimeUnit::Hour => {},
                TimeUnit::Day => {},
                TimeUnit::Week => {},
                TimeUnit::Month => {},
                TimeUnit::Year => {},
            }
        }
        c
    }

    /// A tick with the current time.
    pub fn tick(&mut self) -> (c: Changes)
        ensures
            c == changes_between(final(self).last_reading(), old(self).last_reading()),
            forall|u: TimeUnit|
                announced(
                    #[trigger] old(self).signal_of(u),
                    final(self).signal_of(u),
                    unit_changed(c, u),
                    final(self).last_reading().now,
                ),
    {
        let r = read_clock();
        self.tick_with(r)
    }
}

/// A tick with the same reading changes nothing.
pub proof fn law_same_reading_changes_nothing(r: ClockReading)
    ensures
        changes_between(r, r) == (Changes {
            second: false,
            minute: false,
            hour: false,
            day: false,
            week: false,
            month: false,
            year: false,
        }),
{
}

} // verus!
