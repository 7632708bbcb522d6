//! Spans and points of time.
use chrono::Timelike;
use vstd::prelude::*;

use crate::double::Double;

verus! {

/// A span of time: whole seconds, and nanoseconds below one second.
#[derive(Clone, Copy, Debug, PartialEq, Eq, Structural)]
pub struct Duration {
    pub secs: u64,
    pub nanos: u32,
}

impl Duration {
    pub open spec fn spec_as_secs(self) -> Double {
        Double::whole(self.secs).plus(
            Double::whole(self.nanos as u64).over(Double::whole(1_000_000_000)),
        )
    }

    pub fn from_secs(secs: u64) -> (d: Duration)
        ensures
            d == (Duration { secs, nanos: 0 }),
    {
        Duration { secs, nanos: 0 }
    }

    pub fn from_millis(millis: u64) -> (d: Duration)
        ensures
            d.secs == millis / 1000,
            d.nanos == (millis % 1000) * 1_000_000,
    {
        Duration { secs: millis / 1000, nanos: (millis % 1000) as u32 * 1_000_000 }
    }

    /// The span in seconds.
    #[verifier::when_used_as_spec(spec_as_secs)]
    pub fn as_secs(self) -> (s: Double)
        ensures
            s == self.as_secs(),
    {
        Double::whole(self.secs).plus(
            Double::whole(self.nanos as u64).over(Double::whole(1_000_000_000)),
        )
    }
}

/// The length of a simulation step as the simulation states it, which may be negative:
/// whole seconds, and nanoseconds to add to them.
#[derive(Clone, Copy, Debug, PartialEq, Eq, Structural)]
pub struct TimeStep {
    pub secs: i64,
    pub nanos: u32,
}

/// The longest step, in whole seconds.
pub const MAX_STEP_SECS: i64 = 9_000_000_000_000_000;

impl TimeStep {
    /// Nanoseconds below one second, and no more than `i64::MAX` milliseconds in all.
    pub open spec fn wf(self) -> bool {
        &&& self.nanos < 1_000_000_000
        &&& -MAX_STEP_SECS <= self.secs <= MAX_STEP_SECS
    }

    pub open spec fn total_nanos(self) -> int {
        self.secs * 1_000_000_000 + self.nanos
    }

    pub fn seconds(secs: i64) -> (t: TimeStep)
        ensures
            t == (TimeStep { secs, nanos: 0 }),
    {
        TimeStep { secs, nanos: 0 }
    }

    pub open spec fn spec_length_s(self) -> Double {
        let millis = toward_zero(self.total_nanos(), 1_000_000);
        Double::whole(
            if millis > 0 {
                millis as u64
            } else {
                0
            },
        ).over(Double::whole(1000))
    }

    /// The step in seconds, to the millisecond; a negative step counts as none.
    #[verifier::when_used_as_spec(spec_length_s)]
    pub fn length_s(self) -> (s: Double)
        requires
            self.wf(),
        ensures
            s == self.length_s(),
    {
        let millis: i64 = num_milliseconds(self.secs, self.nanos);
        let count: u64 = if millis > 0 {
            millis as u64
        } else {
            0
        };
        Double::whole(count).over(Double::whole(1000))
    }

    pub open spec fn spec_is_coarse(self) -> bool {
        toward_zero(self.total_nanos(), 1_000_000_000) >= 300
    }

    /// Whether the step is five minutes or more.
    #[verifier::when_used_as_spec(spec_is_coarse)]
    pub fn is_coarse(self) -> (r: bool)
        requires
            self.wf(),
        ensures
            r == self.is_coarse(),
    {
        num_seconds(self.secs, self.nanos) >= 300
    }
}

/// `n / d`, cut off towards zero.
pub open spec fn toward_zero(n: int, d: int) -> int {
    if n >= 0 {
        n / d
    } else {
        -((-n) / d)
    }
}

/// `chrono::TimeDelta::num_milliseconds`: the whole milliseconds of a span of `secs`
/// seconds and `nanos` nanoseconds, cut off towards zero.
#[verifier::external_body]
fn num_milliseconds(secs: i64, nanos: u32) -> (r: i64)
    requires
        (TimeStep { secs, nanos }).wf(),
    ensures
        r == toward_zero((TimeStep { secs, nanos }).total_nanos(), 1_000_000),
{
    chrono::TimeDelta::new(secs, nanos).unwrap().num_milliseconds()
}

/// `chrono::TimeDelta::num_seconds`: the whole seconds of a span of `secs` seconds and
/// `nanos` nanoseconds, cut off towards zero.
#[verifier::external_body]
fn num_seconds(secs: i64, nanos: u32) -> (r: i64)
    requires
        (TimeStep { secs, nanos }).wf(),
    ensures
        r == toward_zero((TimeStep { secs, nanos }).total_nanos(), 1_000_000_000),
{
    chrono::TimeDelta::new(secs, nanos).unwrap().num_seconds()
}

/// A point in time: seconds since 1970 began in UTC, and the seconds by which local
/// time is ahead of UTC.
#[derive(Clone, Copy, Debug, PartialEq, Eq, Structural)]
pub struct CivilTime {
    pub unix_secs: i64,
    pub offset_secs: i32,
}

impl CivilTime {
    /// An offset of less than a day, and a date that the calendar holds.
    pub open spec fn wf(self) -> bool {
        &&& -86_400 < self.offset_secs < 86_400
        &&& -8_200_000_000_000 <= self.unix_secs <= 8_200_000_000_000
    }

    pub open spec fn spec_hour(self) -> u32 {
        (((self.unix_secs + self.offset_secs) % 86_400) / 3600) as u32
    }

    /// The hour of the local day, from 0 to 23.
    #[verifier::when_used_as_spec(spec_hour)]
    pub fn hour(self) -> (h: u32)
        requires
            self.wf(),
        ensures
            h == self.hour(),
            h < 24,
    {
        local_hour(self.unix_secs, self.offset_secs)
    }
}

/// `chrono::DateTime::hour`: the hour of the local day of a point in time at a fixed
/// offset from UTC.
#[verifier::external_body]
fn local_hour(unix_secs: i64, offset_secs: i32) -> (h: u32)
    requires
        (CivilTime { unix_secs, offset_secs }).wf(),
    ensures
        h == (CivilTime { unix_secs, offset_secs }).spec_hour(),
{
    let offset = chrono::FixedOffset::east_opt(offset_secs).unwrap();
    chrono::DateTime::from_timestamp(unix_secs, 0).unwrap().with_timezone(&offset).hour()
}

/// A span is a finite, nonnegative number of seconds.
pub proof fn durations_are_nonnegative(d: Duration)
    ensures
        d.as_secs().is_finite(),
        d.as_secs().ge(Double::zero()),
{
    crate::double_laws::whole_is_small(d.secs);
    crate::double_laws::whole_is_small(d.nanos as u64);
    crate::double_laws::whole_is_small(1_000_000_000);
    let fraction = Double::whole(d.nanos as u64).over(Double::whole(1_000_000_000));
    crate::double_laws::over_at_most(
        Double::whole(d.nanos as u64),
        64,
        Double::whole(1_000_000_000),
        0,
    );
    crate::double_laws::plus_at_most(Double::whole(d.secs), fraction, 64);
}

/// The length of a step is a finite, nonnegative number of seconds.
pub proof fn step_lengths_are_nonnegative(t: TimeStep)
    ensures
        t.length_s().is_finite(),
        t.length_s().ge(Double::zero()),
{
    let millis = toward_zero(t.total_nanos(), 1_000_000);
    let count = if millis > 0 {
        millis as u64
    } else {
        0
    };
    crate::double_laws::whole_is_small(count);
    crate::double_laws::whole_is_small(1000);
    crate::double_laws::over_at_most(Double::whole(count), 64, Double::whole(1000), 0);
}

} // verus!
