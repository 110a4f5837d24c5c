//! Spans of time, as whole nanoseconds, and the one reading of the clock.

use vstd::prelude::*;

verus! {

/// A span of time.
#[derive(Debug, Clone, Copy, PartialEq, Eq, Structural)]
pub struct Duration {
    pub nanos: u128,
}

impl Duration {
    pub fn from_secs(secs: u64) -> (span: Duration)
        ensures
            span.nanos == secs * 1_000_000_000,
    {
        Duration { nanos: secs as u128 * 1_000_000_000 }
    }

    pub fn from_millis(millis: u64) -> (span: Duration)
        ensures
            span.nanos == millis * 1_000_000,
    {
        Duration { nanos: millis as u128 * 1_000_000 }
    }

    /// Whole milliseconds, at most `u64::MAX`.
    pub fn saturating_millis(&self) -> (millis: u64)
        ensures
            millis == self.millis(),
    {
        clamp(self.nanos / 1_000_000)
    }

    /// Whole microseconds, at most `u64::MAX`.
    pub fn saturating_micros(&self) -> (micros: u64)
        ensures
            micros == self.micros(),
    {
        clamp(self.nanos / 1_000)
    }

    /// Whole milliseconds, at most `u64::MAX`.
    pub open spec fn millis(&self) -> u64 {
        clamped((self.nanos / 1_000_000) as nat)
    }

    /// Whole microseconds, at most `u64::MAX`.
    pub open spec fn micros(&self) -> u64 {
        clamped((self.nanos / 1_000) as nat)
    }

    /// How much longer `self` is than `earlier`; zero where it is not.
    pub fn since(&self, earlier: Duration) -> (span: Duration)
        ensures
            span.nanos == self.after(earlier),
    {
        if self.nanos >= earlier.nanos {
            Duration { nanos: self.nanos - earlier.nanos }
        } else {
            Duration { nanos: 0 }
        }
    }

    /// The nanoseconds by which `self` is longer than `earlier`, or zero.
    pub open spec fn after(&self, earlier: Duration) -> nat {
        if self.nanos >= earlier.nanos {
            (self.nanos - earlier.nanos) as nat
        } else {
            0
        }
    }

    pub fn is_zero(&self) -> (zero: bool)
        ensures
            zero == (self.nanos == 0),
    {
        self.nanos == 0
    }
}

/// `n`, or `u64::MAX` where `n` is larger.
pub open spec fn clamped(n: nat) -> u64 {
    if n <= u64::MAX {
        n as u64
    } else {
        u64::MAX
    }
}

fn clamp(n: u128) -> (r: u64)
    ensures
        r == clamped(n as nat),
{
    if n <= u64::MAX as u128 {
        n as u64
    } else {
        u64::MAX
    }
}

/// Whole microseconds and milliseconds keep the order of spans, also where they are
/// at their limit: as long as the clock does not run backwards, neither does what is
/// counted by it.
pub proof fn law_counting_keeps_the_order(earlier: Duration, later: Duration)
    requires
        earlier.nanos <= later.nanos,
    ensures
        earlier.micros() <= later.micros(),
        earlier.millis() <= later.millis(),
{
    assert(earlier.nanos / 1_000 <= later.nanos / 1_000);
    assert(earlier.nanos / 1_000_000 <= later.nanos / 1_000_000);
}

/// A count is the number of whole units in a span, and `u64::MAX` where there are more.
pub proof fn law_counts_are_whole_units(span: Duration)
    ensures
        span.nanos < 1_000 * (u64::MAX + 1) ==> 1_000 * span.micros() <= span.nanos < 1_000 * (
        span.micros() + 1),
        span.nanos >= 1_000 * (u64::MAX + 1) ==> span.micros() == u64::MAX,
        span.nanos < 1_000_000 * (u64::MAX + 1) ==> 1_000_000 * span.millis() <= span.nanos
            < 1_000_000 * (span.millis() + 1),
        span.nanos >= 1_000_000 * (u64::MAX + 1) ==> span.millis() == u64::MAX,
{
}

/// A span made of units has that many of them, and is that many nanoseconds long.
pub proof fn law_units_make_spans(n: u64, seconds: Duration, millis: Duration)
    requires
        call_ensures(Duration::from_secs, (n,), seconds),
        call_ensures(Duration::from_millis, (n,), millis),
    ensures
        seconds.nanos == 1_000 * millis.nanos,
        millis.nanos == 1_000_000 * n,
        millis.millis() == n,
{
}

/// What a span is longer than another one by makes up the difference.
pub proof fn law_the_difference_makes_up(earlier: Duration, later: Duration, span: Duration)
    requires
        call_ensures(Duration::since, (&later, earlier), span),
    ensures
        earlier.nanos <= later.nanos ==> earlier.nanos + span.nanos == later.nanos,
        earlier.nanos > later.nanos ==> span.nanos == 0,
        later.after(earlier) == span.nanos,
{
}

#[verifier::external_type_specification]
#[verifier::external_body]
pub struct ExInstant(std::time::Instant);

/// Calls `std::time::Instant::elapsed`. What the clock reads is not stated, nor how
/// two readings compare: that rests on the clock of the machine.
#[verifier::external_body]
fn elapsed(start: &std::time::Instant) -> Duration {
    Duration { nanos: start.elapsed().as_nanos() }
}

/// Whether `span` may be what the clock reads: a result of a call of
/// `std::time::Instant::elapsed` for `start`.
pub closed spec fn may_read(start: std::time::Instant, span: Duration) -> bool {
    call_ensures(elapsed, (&start,), span)
}

/// The time since `start`, by one reading of the clock.
pub(crate) fn read_clock(start: &std::time::Instant) -> (span: Duration)
    ensures
        may_read(*start, span),
{
    let clock = elapsed;
    clock(start)
}

/// Counting a span, call by call.
pub proof fn law_counting_call_by_call(span: Duration, millis: u64, micros: u64, zero: bool)
    requires
        call_ensures(Duration::saturating_millis, (&span,), millis),
        call_ensures(Duration::saturating_micros, (&span,), micros),
        call_ensures(Duration::is_zero, (&span,), zero),
    ensures
        span.nanos / 1_000_000 <= u64::MAX ==> millis == span.nanos / 1_000_000,
        span.nanos / 1_000_000 > u64::MAX ==> millis == u64::MAX,
        span.nanos / 1_000 <= u64::MAX ==> micros == span.nanos / 1_000,
        span.nanos / 1_000 > u64::MAX ==> micros == u64::MAX,
        zero <==> span.nanos == 0,
{
}

} // verus!
