//! Points in time and durations, as the system gives them.

use std::time::{Duration, SystemTime, UNIX_EPOCH};
use vstd::prelude::*;

verus! {

/// A point in time, by its distance from the Unix epoch in nanoseconds.
#[derive(Debug, Clone, Copy, PartialEq, Eq, Structural)]
pub enum Timestamp {
    SinceEpoch(u128),
    BeforeEpoch(u128),
}

impl View for Timestamp {
    type V = int;

    /// The nanoseconds since the Unix epoch, negative before it.
    open spec fn view(&self) -> int {
        match *self {
            Timestamp::SinceEpoch(nanos) => nanos as int,
            Timestamp::BeforeEpoch(nanos) => -(nanos as int),
        }
    }
}

/// What the system clock gives, `std::time::SystemTime`, as an opaque type.
#[verifier::external_type_specification]
#[verifier::external_body]
pub struct ExSystemTime(std::time::SystemTime);

/// How far a time is from the Unix epoch: after it, or, as an error, before it.
pub uninterp spec fn epoch_distance(time: SystemTime) -> Result<Duration, Duration>;

/// The number of nanoseconds in a duration.
pub uninterp spec fn duration_nanos(duration: Duration) -> u128;

/// `std::time::SystemTime::now`: what the system clock says. Of what a clock says, nothing
/// is known.
#[verifier::external_body]
fn system_now() -> SystemTime {
    SystemTime::now()
}

/// `std::time::SystemTime::duration_since` the Unix epoch: how far `time` is from it. The
/// error, for a time before the epoch, is taken by the distance that it carries.
#[verifier::external_body]
fn since_epoch(time: &SystemTime) -> (distance: Result<Duration, Duration>)
    ensures
        distance == epoch_distance(*time),
{
    time.duration_since(UNIX_EPOCH).map_err(|error| error.duration())
}

/// `std::time::Duration::as_nanos`: the number of nanoseconds in `duration`.
#[verifier::external_body]
fn as_nanos(duration: &Duration) -> (nanos: u128)
    ensures
        nanos == duration_nanos(*duration),
{
    duration.as_nanos()
}

/// `std::time::Duration::as_micros`: the number of whole microseconds in `duration`, each of
/// a thousand nanoseconds.
#[verifier::external_body]
pub(crate) fn as_micros(duration: &Duration) -> (micros: u128)
    ensures
        micros == duration_nanos(*duration) / 1_000,
{
    duration.as_micros()
}

/// The nanoseconds from the Unix epoch to `time`, negative before it.
pub open spec fn nanos_since_epoch(time: SystemTime) -> int {
    match epoch_distance(time) {
        Ok(distance) => duration_nanos(distance) as int,
        Err(distance) => -(duration_nanos(distance) as int),
    }
}

impl Timestamp {
    /// The point in time that the system clock gives as `time`.
    pub fn from_system_time(time: &SystemTime) -> (timestamp: Timestamp)
        ensures
            timestamp@ == nanos_since_epoch(*time),
    {
        match since_epoch(time) {
            Ok(distance) => Timestamp::SinceEpoch(as_nanos(&distance)),
            Err(distance) => Timestamp::BeforeEpoch(as_nanos(&distance)),
        }
    }

    /// What the system clock says.
    pub fn now() -> (timestamp: Timestamp)
        ensures
            exists|time: SystemTime| timestamp@ == #[trigger] nanos_since_epoch(time),
    {
        Timestamp::from_system_time(&system_now())
    }

    /// Whether `now` is not before this time, and less than `seconds` after it.
    pub fn elapsed_is_less_than(&self, now: Timestamp, seconds: u64) -> (less: bool)
        ensures
            less == (self@ <= now@ && now@ - self@ < seconds * 1_000_000_000),
    {
        let limit: u128 = seconds as u128 * 1_000_000_000;
        match (*self, now) {
            (Timestamp::SinceEpoch(then), Timestamp::SinceEpoch(nanos)) => then <= nanos && nanos
                - then < limit,
            (Timestamp::BeforeEpoch(then), Timestamp::SinceEpoch(nanos)) => then < limit && nanos
                < limit - then,
            (Timestamp::BeforeEpoch(then), Timestamp::BeforeEpoch(nanos)) => nanos <= then && then
                - nanos < limit,
            (Timestamp::SinceEpoch(then), Timestamp::BeforeEpoch(nanos)) => then == 0 && nanos == 0
                && 0 < limit,
        }
    }
}

/// A point in time counts the nanoseconds from the epoch, negative before it.
pub proof fn law_timestamps_are_distances_from_the_epoch(nanos: u128)
    ensures
        Timestamp::SinceEpoch(nanos)@ == nanos,
        Timestamp::BeforeEpoch(nanos)@ == -nanos,
{
}

/// A time of the system clock is counted from the epoch: forward if it lies after it, and
/// back if before.
pub proof fn law_system_time_is_its_distance_from_the_epoch(time: SystemTime)
    ensures
        epoch_distance(time) matches Ok(after) ==> nanos_since_epoch(time) == duration_nanos(after),
        epoch_distance(time) matches Err(before) ==> nanos_since_epoch(time) == -duration_nanos(
            before,
        ),
{
}

} // verus!
