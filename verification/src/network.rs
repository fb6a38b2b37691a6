//! The decisions of the network send path: the bounded queue's capacity and
//! the per-second rate limiter. The sockets and workers that act on them
//! live outside the library.

use vstd::prelude::*;

verus! {

/// Capacity of the bounded send queue: the probing rate clamped to
/// [1000, 400000].
pub open spec fn spec_send_queue_capacity(probing_rate: u64) -> u64 {
    if probing_rate > 400000 {
        400000u64
    } else if probing_rate < 1000 {
        1000u64
    } else {
        probing_rate
    }
}

pub fn send_queue_capacity(probing_rate: u64) -> (r: usize)
    ensures
        r == spec_send_queue_capacity(probing_rate),
{
    if probing_rate > 400000 {
        400000
    } else if probing_rate < 1000 {
        1000
    } else {
        probing_rate as usize
    }
}

/// What the rate limiter does before one more probe is sent, given the count
/// already sent in the current window and the milliseconds elapsed since the
/// window started: every 128th probe it samples the clock — a window older
/// than a second restarts (`.0`), and an over-budget window sleeps out the
/// remainder of its second (`.1`).
pub open spec fn spec_rate_limit_step(sent_this_sec: u64, elapsed_ms: u64, probing_rate: u64) -> (
    bool,
    u64,
) {
    if sent_this_sec % 128 == 0 {
        if elapsed_ms >= 1000 {
            (true, 0u64)
        } else if sent_this_sec > probing_rate {
            (false, (1000 - elapsed_ms) as u64)
        } else {
            (false, 0u64)
        }
    } else {
        (false, 0u64)
    }
}

/// Rate limiter step: `.0` says whether to restart the one-second window
/// (zeroing the counter), `.1` how many milliseconds to sleep first.
pub fn rate_limit_step(sent_this_sec: u64, elapsed_ms: u64, probing_rate: u64) -> (r: (bool, u64))
    ensures
        r == spec_rate_limit_step(sent_this_sec, elapsed_ms, probing_rate),
{
    if sent_this_sec % 128 == 0 {
        if elapsed_ms >= 1000 {
            (true, 0)
        } else if sent_this_sec > probing_rate {
            (false, 1000 - elapsed_ms)
        } else {
            (false, 0)
        }
    } else {
        (false, 0)
    }
}

/// Round pacing of the main scheduler: a round must last at least 20 ms per
/// remaining destination, capped at one second.
pub open spec fn spec_round_pace_ms(remaining: int) -> u64 {
    if remaining >= 50 {
        1000u64
    } else {
        (20 * remaining) as u64
    }
}

pub fn round_pace_ms(remaining: usize) -> (r: u64)
    ensures
        r == spec_round_pace_ms(remaining as int),
{
    if remaining >= 50 {
        1000
    } else {
        20 * (remaining as u64)
    }
}

} // verus!
