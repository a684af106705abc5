//! The arithmetic of the bandwidth limiter: a token bucket that holds up to
//! one second's worth of bytes and is topped up every 100 ms.
use vstd::prelude::*;

verus! {

/// How many tokens each 100 ms refill adds: a tenth of the rate, at least 1.
pub fn refill_amount(bytes_per_sec: u64) -> (n: u64)
    ensures
        n == if bytes_per_sec / 10 > 1 {
            bytes_per_sec / 10
        } else {
            1
        },
{
    let tenth = bytes_per_sec / 10;
    if tenth > 1 {
        tenth
    } else {
        1
    }
}

/// How many tokens a refill adds to a bucket holding `current` of at most
/// `capacity`: the refill amount, cut so that the bucket does not overflow.
pub fn refill_permits(current: u64, capacity: u64, refill: u64) -> (add: u64)
    ensures
        add == if capacity <= current {
            0
        } else if refill < capacity - current {
            refill as int
        } else {
            capacity - current
        },
{
    let room = if capacity > current {
        capacity - current
    } else {
        0
    };
    if refill < room {
        refill
    } else {
        room
    }
}

/// How many tokens the next acquisition of a consumption takes: what is
/// still to consume, at most one second's worth.
pub fn next_chunk(remaining: u64, bytes_per_sec: u64) -> (take: u64)
    ensures
        take == if remaining < bytes_per_sec {
            remaining
        } else {
            bytes_per_sec
        },
{
    if remaining < bytes_per_sec {
        remaining
    } else {
        bytes_per_sec
    }
}

/// Law: a refill never lifts a bucket above its capacity.
pub proof fn law_refill_within_capacity(current: u64, capacity: u64, refill: u64)
    requires
        current <= capacity,
    ensures
        current + (if refill < capacity - current {
            refill as int
        } else {
            capacity - current
        }) <= capacity,
{
}

/// Law: with a positive rate, each acquisition of a consumption takes at
/// least one token and at most what is left, so the consumption ends.
pub proof fn law_chunks_progress(remaining: u64, bytes_per_sec: u64)
    requires
        remaining > 0,
        bytes_per_sec > 0,
    ensures
        0 < (if remaining < bytes_per_sec {
            remaining
        } else {
            bytes_per_sec
        }) <= remaining,
{
}

} // verus!
