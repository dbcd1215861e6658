//! Points in time, as seconds and nanoseconds since the Unix epoch in UTC.

use vstd::prelude::*;
use crate::plain::Plain;

verus! {

/// The first second that a calendar date can be given for.
pub const MIN_SECS: i64 = -8_334_601_228_800;

/// The last second that a calendar date can be given for.
pub const MAX_SECS: i64 = 8_210_266_876_799;

/// A point in time.
#[derive(Clone, Copy, Debug, PartialEq, Eq, Structural)]
pub struct Instant {
    /// Whole seconds since the epoch.
    pub secs: i64,
    /// Nanoseconds within the second.
    pub nanos: u32,
}

/// A length of time: `secs` seconds and then `nanos` nanoseconds.
#[derive(Clone, Copy, Debug, PartialEq, Eq, Structural)]
pub struct TimeSpan {
    pub secs: i64,
    pub nanos: u32,
}

impl DeepView for Instant {
    type V = Instant;

    open spec fn deep_view(&self) -> Instant {
        *self
    }
}

impl Plain for Instant {
    fn equals(&self, other: &Self) -> (same: bool) {
        self.secs == other.secs && self.nanos == other.nanos
    }

    fn copy_of(&self) -> (out: Self) {
        *self
    }
}

impl DeepView for TimeSpan {
    type V = TimeSpan;

    open spec fn deep_view(&self) -> TimeSpan {
        *self
    }
}

impl Plain for TimeSpan {
    fn equals(&self, other: &Self) -> (same: bool) {
        self.secs == other.secs && self.nanos == other.nanos
    }

    fn copy_of(&self) -> (out: Self) {
        *self
    }
}

impl Instant {
    /// Whether the point has a calendar date and is no leap second.
    pub open spec fn wf(self) -> bool {
        MIN_SECS <= self.secs <= MAX_SECS && self.nanos < 1_000_000_000
    }

    /// Nanoseconds since the epoch.
    pub open spec fn in_nanos(self) -> int {
        self.secs * 1_000_000_000 + self.nanos
    }

    /// Whole microseconds since the epoch.
    pub open spec fn in_micros(self) -> int {
        self.secs * 1_000_000 + self.nanos / 1_000
    }

    /// The second at which the hour of this point began.
    pub open spec fn hour_start(self) -> int {
        self.secs - self.secs as int % 3_600
    }
}

impl TimeSpan {
    /// Whether the span is one that a calendar can hold.
    pub open spec fn wf(self) -> bool {
        &&& self.nanos < 1_000_000_000
        &&& -9_223_372_036_854_776 <= self.secs <= 9_223_372_036_854_775
        &&& self.secs == 9_223_372_036_854_775 ==> self.nanos <= 807_000_000
        &&& self.secs == -9_223_372_036_854_776 ==> self.nanos >= 193_000_000
    }

    /// Whole seconds, rounded towards zero.
    pub open spec fn whole_seconds(self) -> int {
        if self.secs < 0 && self.nanos > 0 {
            self.secs + 1
        } else {
            self.secs as int
        }
    }
}

/// Whole seconds from `start` to `end`, rounded towards zero.
pub open spec fn seconds_between(end: Instant, start: Instant) -> int {
    let nanos = end.in_nanos() - start.in_nanos();
    if nanos >= 0 {
        nanos / 1_000_000_000
    } else {
        -((-nanos) / 1_000_000_000)
    }
}

/// `DateTime::timestamp_micros` of the point: the seconds in microseconds and
/// the microseconds within the second.
#[verifier::external_body]
pub(crate) fn timestamp_micros(at: Instant) -> (out: i64)
    requires
        at.wf(),
    ensures
        out == at.in_micros(),
{
    chrono::DateTime::from_timestamp(at.secs, at.nanos).unwrap().timestamp_micros()
}

/// `DateTime::signed_duration_since` and `TimeDelta::num_seconds`: the whole
/// seconds between two points, rounded towards zero.
#[verifier::external_body]
pub(crate) fn signed_seconds_between(end: Instant, start: Instant) -> (out: i64)
    requires
        end.wf(),
        start.wf(),
    ensures
        out == seconds_between(end, start),
{
    let end = chrono::DateTime::from_timestamp(end.secs, end.nanos).unwrap();
    let start = chrono::DateTime::from_timestamp(start.secs, start.nanos).unwrap();
    end.signed_duration_since(start).num_seconds()
}

/// `Timelike::hour` of the point: the hour of its day in UTC, from 0 to 23.
#[verifier::external_body]
pub(crate) fn hour_of_day(at: Instant) -> (out: u32)
    requires
        at.wf(),
    ensures
        out == at.secs as int % 86_400 / 3_600,
{
    chrono::Timelike::hour(&chrono::DateTime::from_timestamp(at.secs, at.nanos).unwrap())
}

/// `DateTime::date_naive`, `NaiveDate::and_hms_opt` and `NaiveDateTime::and_utc`:
/// the second at which the given hour of the point's day begins.
#[verifier::external_body]
pub(crate) fn hour_on_day_of(at: Instant, hour: u32) -> (out: i64)
    requires
        at.wf(),
        hour < 24,
    ensures
        out == at.secs - at.secs as int % 86_400 + hour * 3_600,
{
    let day = chrono::DateTime::from_timestamp(at.secs, at.nanos).unwrap().date_naive();
    day.and_hms_opt(hour, 0, 0).unwrap().and_utc().timestamp()
}

/// `TimeDelta::num_seconds` of the span: its whole seconds, rounded towards
/// zero.
#[verifier::external_body]
pub(crate) fn num_seconds(span: TimeSpan) -> (out: i64)
    requires
        span.wf(),
    ensures
        out == span.whole_seconds(),
{
    chrono::TimeDelta::new(span.secs, span.nanos).unwrap().num_seconds()
}

/// The second at which the hour of a point began.
pub fn start_of_hour(at: Instant) -> (out: i64)
    requires
        at.wf(),
    ensures
        out == at.hour_start(),
{
    let hour: u32 = hour_of_day(at);
    proof {
        lemma_hour_of_day(at.secs as int);
    }
    hour_on_day_of(at, hour)
}

/// Taking whole days off a second, and adding the whole hours of what is left,
/// is the same as taking off what is left of the hour.
proof fn lemma_hour_of_day(secs: int)
    ensures
        0 <= secs % 86_400 / 3_600 < 24,
        secs - secs % 86_400 + (secs % 86_400 / 3_600) * 3_600 == secs - secs % 3_600,
{
    let day = secs / 86_400;
    let rest = secs % 86_400;
    let hour = rest / 3_600;
    let left = rest % 3_600;
    assert(rest == hour * 3_600 + left);
    assert(secs == (day * 24 + hour) * 3_600 + left);
    vstd::arithmetic::div_mod::lemma_fundamental_div_mod_converse(
        secs,
        3_600,
        day * 24 + hour,
        left,
    );
}

/// A point lies within the hour that begins at its start of hour.
pub proof fn law_hour_holds_its_points(at: Instant)
    ensures
        at.hour_start() <= at.secs < at.hour_start() + 3_600,
        at.hour_start() % 3_600 == 0,
{
}

/// The time between two points is counted in whole seconds toward zero: it is
/// within a second of the exact time, never over it, and turns its sign when the
/// points change places.
pub proof fn law_time_between_is_whole_seconds(a: Instant, b: Instant)
    ensures
        seconds_between(a, b) == -seconds_between(b, a),
        a.in_nanos() >= b.in_nanos() ==> seconds_between(a, b) * 1_000_000_000 <= a.in_nanos()
            - b.in_nanos() < (seconds_between(a, b) + 1) * 1_000_000_000,
        a.nanos == b.nanos ==> seconds_between(a, b) == a.secs - b.secs,
        seconds_between(a, a) == 0,
{
}

/// A point in time is as many microseconds as its whole seconds and the whole
/// microseconds of the rest.
pub proof fn law_micros_drop_less_than_one(at: Instant)
    ensures
        at.in_micros() * 1_000 <= at.in_nanos() < (at.in_micros() + 1) * 1_000,
{
}

/// The whole seconds of a span are those toward zero.
pub proof fn law_span_is_cut_toward_zero(span: TimeSpan)
    requires
        span.nanos < 1_000_000_000,
    ensures
        ({
            let exact = span.secs * 1_000_000_000 + span.nanos;
            let whole = span.whole_seconds() * 1_000_000_000;
            &&& exact >= 0 ==> whole <= exact < whole + 1_000_000_000
            &&& exact <= 0 ==> whole - 1_000_000_000 < exact <= whole
        }),
{
}

} // verus!
