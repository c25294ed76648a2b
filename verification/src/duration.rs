//! Durations in the unit of the host: nanoseconds, as 64 bits.

use std::time::Duration;
use vstd::prelude::*;

verus! {

/// The length of a duration in nanoseconds.
pub uninterp spec fn duration_nanos(dur: Duration) -> u128;

/// `Duration::as_nanos` gives the whole length of the duration, in nanoseconds.
pub assume_specification[ Duration::as_nanos ](dur: &Duration) -> (res: u128)
    ensures
        res == duration_nanos(*dur),
;

/// The low 64 bits of a number of nanoseconds.
pub fn truncated_nanos(nanos: u128) -> (res: u64)
    ensures
        res == nanos % 0x1_0000_0000_0000_0000,
{
    assert(nanos as u64 == nanos % 0x1_0000_0000_0000_0000) by (bit_vector);
    nanos as u64
}

/// A number of nanoseconds, or the largest number there is where it is more.
pub fn saturated_nanos(nanos: u128) -> (res: u64)
    ensures
        nanos <= u64::MAX ==> res == nanos,
        nanos > u64::MAX ==> res == u64::MAX,
{
    if nanos <= u64::MAX as u128 {
        nanos as u64
    } else {
        u64::MAX
    }
}

/// The idle time that TCP keep-alive is set to: the length of the duration,
/// cut to its low 64 bits.
pub fn keep_alive_nanos(dur: Duration) -> (res: u64)
    ensures
        res == duration_nanos(dur) % 0x1_0000_0000_0000_0000,
{
    truncated_nanos(dur.as_nanos())
}

/// The time after which a timer is asked to fire: the length of the duration,
/// or the longest time there is where that is more.
pub fn timer_nanos(dur: Duration) -> (res: u64)
    ensures
        duration_nanos(dur) <= u64::MAX ==> res == duration_nanos(dur),
        duration_nanos(dur) > u64::MAX ==> res == u64::MAX,
{
    saturated_nanos(dur.as_nanos())
}

} // verus!
