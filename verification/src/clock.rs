//! Access to the system clock, the random number generator, random
//! identifiers and the representation of durations in milliseconds and
//! nanoseconds.

use std::time::Duration;
use vstd::prelude::*;

verus! {

/// The number of whole milliseconds in a duration, as `Duration::as_millis` reports it.
pub uninterp spec fn duration_millis(d: Duration) -> u128;

/// The whole milliseconds in a duration, saturated to the range of `u64`.
pub open spec fn saturated_ms(d: Duration) -> u64 {
    if duration_millis(d) > u64::MAX as u128 { u64::MAX } else { duration_millis(d) as u64 }
}

/// `Duration` is `Copy`: its `clone` returns the same duration.
pub assume_specification[ <Duration as Clone>::clone ](d: &Duration) -> (r: Duration)
    ensures
        r == *d,
;

#[verifier::external_type_specification]
#[verifier::external_body]
pub struct ExSystemTime(std::time::SystemTime);

/// `SystemTime::now`: the wall clock's reading. Nothing is stated of it:
/// it depends on the time of the call.
#[verifier::external_body]
fn system_now() -> std::time::SystemTime {
    std::time::SystemTime::now()
}

/// `SystemTime::duration_since` the UNIX epoch: the time since it, or
/// `None` for a reading before it. Nothing is stated of it, as the reading
/// is opaque here.
#[verifier::external_body]
fn since_epoch(t: std::time::SystemTime) -> Option<Duration> {
    match t.duration_since(std::time::UNIX_EPOCH) {
        Ok(d) => Some(d),
        Err(_) => None,
    }
}

/// Reads the wall clock: milliseconds since the UNIX epoch (wrapping past
/// the range of `u64`), or 0 if the clock is set before the epoch. Nothing
/// is stated of the value: it depends on the time of the call.
pub fn now_ms() -> u64 {
    match since_epoch(system_now()) {
        Some(d) => millis_of(d) as u64,
        None => 0,
    }
}

/// The number of whole nanoseconds in a duration, as `Duration::as_nanos` reports it.
pub uninterp spec fn duration_nanos(d: Duration) -> u128;

/// `Duration::as_nanos`: the whole nanoseconds in `d`.
#[verifier::external_body]
fn nanos_of(d: Duration) -> (r: u128)
    ensures
        r == duration_nanos(d),
{
    d.as_nanos()
}

/// Reads the wall clock: nanoseconds since the UNIX epoch (wrapping past
/// the range of `u64`), or 0 if the clock is set before the epoch. Nothing
/// is stated of the value: it depends on the time of the call.
pub fn now_ns() -> u64 {
    match since_epoch(system_now()) {
        Some(d) => nanos_of(d) as u64,
        None => 0,
    }
}

/// `Duration::from_nanos`: a duration of `ns` nanoseconds; as the
/// documentation of it and of `as_nanos` shows, `as_nanos` gives `ns` back.
#[verifier::external_body]
pub fn duration_from_ns(ns: u64) -> (d: Duration)
    ensures
        duration_nanos(d) == ns,
{
    Duration::from_nanos(ns)
}

/// `Duration::as_millis`: the whole milliseconds in `d`.
#[verifier::external_body]
pub fn millis_of(d: Duration) -> (r: u128)
    ensures
        r == duration_millis(d),
{
    d.as_millis()
}

/// `Duration::from_millis`: a duration of `ms` milliseconds; as the
/// documentation of both functions shows, `as_millis` gives `ms` back.
#[verifier::external_body]
pub fn duration_from_ms(ms: u64) -> (d: Duration)
    ensures
        duration_millis(d) == ms,
{
    Duration::from_millis(ms)
}

/// `rand::random::<u64>()`: a uniformly random 64-bit number. Nothing is
/// stated of the value.
#[verifier::external_body]
pub fn random_u64() -> u64 {
    rand::random::<u64>()
}

/// `uuid::Uuid::new_v4().to_string()`: a fresh random identifier. Nothing
/// is stated of it: it is random.
#[verifier::external_body]
pub fn new_uuid() -> String {
    uuid::Uuid::new_v4().to_string()
}

/// A duration in milliseconds, saturated to the range of `u64`.
pub fn duration_to_ms(d: Duration) -> (r: u64)
    ensures
        r == saturated_ms(d),
{
    let m = millis_of(d);
    if m > u64::MAX as u128 { u64::MAX } else { m as u64 }
}

} // verus!
