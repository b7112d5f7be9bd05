//! Monotonic time as the blink, type-ahead and poll timers read it.
use std::time::{Duration, Instant};
use vstd::prelude::*;

verus! {

#[verifier::external_type_specification]
#[verifier::external_body]
pub struct ExInstant(Instant);

/// Nanoseconds in a millisecond.
pub const NANOS_PER_MILLI: u128 = 1_000_000;

/// The time from `earlier` to `later`, zero when `earlier` is the later of the
/// two.
pub uninterp spec fn elapsed(later: Instant, earlier: Instant) -> Duration;

/// The length of a duration in nanoseconds.
pub uninterp spec fn duration_nanos(duration: Duration) -> nat;

/// The time from `earlier` to `later` in nanoseconds, zero when `earlier` is
/// the later of the two.
pub open spec fn nanos_between(later: Instant, earlier: Instant) -> nat {
    duration_nanos(elapsed(later, earlier))
}

/// Whether at least `millis` milliseconds lie between `earlier` and `later`.
pub open spec fn millis_reached(later: Instant, earlier: Instant, millis: nat) -> bool {
    nanos_between(later, earlier) >= millis * NANOS_PER_MILLI
}

/// Whether more than `millis` milliseconds lie between `earlier` and `later`.
pub open spec fn millis_exceeded(later: Instant, earlier: Instant, millis: nat) -> bool {
    nanos_between(later, earlier) > millis * NANOS_PER_MILLI
}

/// Whether `moment` lies before `later`.
pub open spec fn is_before(moment: Instant, later: Instant) -> bool {
    nanos_between(later, moment) > 0
}

/// Calls `Instant::now`. Nothing is claimed of the moment it reads.
#[verifier::external_body]
pub(crate) fn now() -> (moment: Instant) {
    Instant::now()
}

/// Calls `Instant::saturating_duration_since`. The result depends on the two
/// moments alone and is named `elapsed`.
#[verifier::external_body]
fn duration_since(later: Instant, earlier: Instant) -> (duration: Duration)
    ensures
        duration == elapsed(later, earlier),
{
    later.saturating_duration_since(earlier)
}

/// Calls `Duration::as_nanos`. The result depends on the duration alone and is
/// named `duration_nanos`.
#[verifier::external_body]
fn as_nanos(duration: Duration) -> (nanos: u128)
    ensures
        nanos == duration_nanos(duration),
{
    duration.as_nanos()
}

/// Calls `Duration::from_millis`, which makes a duration of that many
/// milliseconds.
#[verifier::external_body]
pub(crate) fn from_millis(millis: u64) -> (duration: Duration)
    ensures
        duration_nanos(duration) == millis * NANOS_PER_MILLI,
{
    Duration::from_millis(millis)
}

/// The moment that lies a number of nanoseconds after `start`, where the clock
/// can represent it.
pub uninterp spec fn moment_after(start: Instant, nanos: nat) -> Option<Instant>;

/// Calls `Instant::checked_add`. The result depends on the start and on the
/// length of the duration alone and is named `moment_after`; where the clock can
/// represent the moment, it lies that long after `start`, and a moment lies
/// before it exactly when less than that time has passed since `start`. Which
/// moments a clock cannot represent is not stated.
#[verifier::external_body]
pub(crate) fn checked_add(start: Instant, duration: Duration) -> (moment: Option<Instant>)
    ensures
        moment == moment_after(start, duration_nanos(duration)),
        moment matches Some(at) ==> nanos_between(at, start) == duration_nanos(duration),
        moment matches Some(at) ==> duration_nanos(duration) > 0 ==> forall|now: Instant| #[trigger]
            is_before(now, at) == (nanos_between(now, start) < duration_nanos(duration)),
{
    start.checked_add(duration)
}

/// The time from `earlier` to `later` in nanoseconds.
pub(crate) fn nanos_since(later: Instant, earlier: Instant) -> (nanos: u128)
    ensures
        nanos == nanos_between(later, earlier),
{
    as_nanos(duration_since(later, earlier))
}

/// Whether `moment` lies before `later`.
pub(crate) fn before(moment: Instant, later: Instant) -> (earlier: bool)
    ensures
        earlier == is_before(moment, later),
{
    nanos_since(later, moment) > 0
}

/// A millisecond is a million nanoseconds. A span is reached from its last nanosecond on
/// and exceeded after it.
pub proof fn spans_are_in_milliseconds(later: Instant, earlier: Instant, millis: nat)
    ensures
        millis_reached(later, earlier, millis) <==> nanos_between(later, earlier) >= millis
            * 1_000_000,
        millis_exceeded(later, earlier, millis) <==> nanos_between(later, earlier) > millis
            * 1_000_000,
        is_before(earlier, later) <==> nanos_between(later, earlier) != 0,
{
}

} // verus!
