//! Points in time, in whole seconds and nanoseconds since the Unix epoch, and
//! the clock that the router reads.
use std::sync::Arc;
use vstd::prelude::*;

verus! {

/// First second of the calendar, the start of the year 262144 BCE.
pub const CALENDAR_FIRST_SEC: i64 = -8_334_601_228_800;

/// Last second of the calendar, the end of the year 262142 CE.
pub const CALENDAR_LAST_SEC: i64 = 8_210_266_876_799;

/// The longest span, in whole seconds, that a cool-down can last. A longer one
/// counts as none.
pub const LONGEST_SPAN_SECS: u64 = 9_223_372_036_854_775;

/// A point in time: `secs` whole seconds since the Unix epoch, and `nanos`
/// nanoseconds on top.
#[derive(Clone, Copy, Debug, PartialEq, Eq, Structural)]
pub struct Timestamp {
    pub secs: i64,
    pub nanos: u32,
}

/// Whether the calendar has a date for this second.
pub open spec fn in_calendar(secs: int) -> bool {
    CALENDAR_FIRST_SEC <= secs <= CALENDAR_LAST_SEC
}

/// The whole seconds that a cool-down of `secs` lasts.
pub open spec fn span_secs(secs: u64) -> int {
    if secs <= LONGEST_SPAN_SECS {
        secs as int
    } else {
        0
    }
}

/// The later of two points in time.
pub open spec fn later_of(a: Timestamp, b: Timestamp) -> Timestamp {
    if a.before(b) {
        b
    } else {
        a
    }
}

/// Whole seconds from `now` until `until`, rounded down, and 0 where `until`
/// is not ahead.
pub open spec fn secs_until(now: Timestamp, until: Timestamp) -> int {
    if !now.before(until) {
        0
    } else if until.nanos < now.nanos {
        until.secs - now.secs - 1
    } else {
        until.secs - now.secs
    }
}

/// `chrono::DateTime::from_timestamp`, at a full second: there is a date for
/// exactly the seconds of the calendar, and it stands for that very second.
#[verifier::external_body]
fn date_at(secs: i64) -> (date: Option<Timestamp>)
    ensures
        date == (if in_calendar(secs as int) {
            Some(Timestamp { secs, nanos: 0 })
        } else {
            None
        }),
{
    let date = chrono::DateTime::from_timestamp(secs, 0)?;
    Some(Timestamp { secs: date.timestamp(), nanos: date.timestamp_subsec_nanos() })
}

/// `chrono::TimeDelta::from_std` of a span in whole seconds, with the empty
/// span where chrono holds it to be too long.
#[verifier::external_body]
fn delta_secs(secs: u64) -> (delta: i64)
    ensures
        delta == span_secs(secs),
{
    let span = std::time::Duration::from_secs(secs);
    chrono::TimeDelta::from_std(span).unwrap_or_default().num_seconds()
}

/// `chrono::Utc::now`: the time of the machine. Nothing is claimed of it but
/// that the calendar holds it.
#[verifier::external_body]
fn utc_now() -> (now: Timestamp)
    ensures
        in_calendar(now.secs as int),
{
    let now = chrono::Utc::now();
    Timestamp { secs: now.timestamp(), nanos: now.timestamp_subsec_nanos() }
}

impl Timestamp {
    /// Strictly earlier than `other`.
    pub open spec fn before(self, other: Timestamp) -> bool {
        self.secs < other.secs || (self.secs == other.secs && self.nanos < other.nanos)
    }

    /// This point moved by `delta` seconds.
    pub open spec fn moved(self, delta: int) -> Timestamp {
        Timestamp { secs: (self.secs + delta) as i64, nanos: self.nanos }
    }

    /// The start of a second of the calendar.
    pub fn from_secs(secs: i64) -> (t: Option<Timestamp>)
        ensures
            t == (if in_calendar(secs as int) {
                Some(Timestamp { secs, nanos: 0 })
            } else {
                None
            }),
    {
        date_at(secs)
    }

    /// Whether this point is strictly earlier than `other`.
    pub fn is_before(&self, other: &Timestamp) -> (b: bool)
        ensures
            b == self.before(*other),
    {
        self.secs < other.secs || (self.secs == other.secs && self.nanos < other.nanos)
    }

    /// The later of the two.
    pub fn max(self, other: Timestamp) -> (t: Timestamp)
        ensures
            t == later_of(self, other),
    {
        if self.is_before(&other) {
            other
        } else {
            self
        }
    }

    /// The point at `nanos` nanoseconds into a second, if the calendar holds it.
    pub fn at(secs: i128, nanos: u32) -> (t: Option<Timestamp>)
        ensures
            t == (if in_calendar(secs as int) {
                Some(Timestamp { secs: secs as i64, nanos })
            } else {
                None
            }),
    {
        if secs > CALENDAR_LAST_SEC as i128 || secs < CALENDAR_FIRST_SEC as i128 {
            return None;
        }
        match date_at(secs as i64) {
            Some(date) => Some(Timestamp { secs: date.secs, nanos }),
            None => None,
        }
    }

    /// This point moved ahead by `delta` seconds, if the calendar holds that
    /// second.
    pub fn plus_secs(self, delta: u64) -> (t: Option<Timestamp>)
        ensures
            t == (if in_calendar(self.secs + delta) {
                Some(self.moved(delta as int))
            } else {
                None
            }),
    {
        Timestamp::at(self.secs as i128 + delta as i128, self.nanos)
    }

    /// The end of a cool-down of `secs` seconds that starts here.
    pub fn after_cooldown(self, secs: u64) -> (t: Option<Timestamp>)
        ensures
            t == (if in_calendar(self.secs + span_secs(secs)) {
                Some(self.moved(span_secs(secs)))
            } else {
                None
            }),
    {
        Timestamp::at(self.secs as i128 + delta_secs(secs) as i128, self.nanos)
    }

    /// Whole seconds from here until `until`, 0 if that is not ahead.
    pub fn secs_until(&self, until: &Timestamp) -> (secs: u64)
        ensures
            secs == secs_until(*self, *until),
    {
        if !self.is_before(until) {
            return 0;
        }
        let whole: i128 = until.secs as i128 - self.secs as i128;
        if until.nanos < self.nanos {
            (whole - 1) as u64
        } else {
            whole as u64
        }
    }
}

/// A source of the current time.
pub trait Clock {
    fn now(&self) -> Timestamp;
}

/// The clock of the machine.
#[derive(Clone, Copy, Debug)]
pub struct SystemClock;

impl Clock for SystemClock {
    fn now(&self) -> (now: Timestamp)
        ensures
            in_calendar(now.secs as int),
    {
        utc_now()
    }
}

impl<C: Clock> Clock for Arc<C> {
    /// What the clock inside shows.
    fn now(&self) -> (now: Timestamp)
        ensures
            call_ensures(C::now, (&**self,), now),
    {
        let inner: &C = &**self;
        inner.now()
    }
}

} // verus!
