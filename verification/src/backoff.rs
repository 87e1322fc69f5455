//! Adaptive retry pacing: how long to wait before the next convergence
//! cycle, given how the previous one went.

use vstd::prelude::*;

verus! {

/// The delay the scheduler owes after a cycle: the floor `min_sleep_s`
/// right after a success, otherwise the previous delay stepped up by one
/// increment of the floor and saturated at the ceiling `max_sleep_s`.
pub open spec fn next_delay(success: bool, last_s: u32, min_sleep_s: u32, max_sleep_s: u32) -> int {
    if success {
        min_sleep_s as int
    } else if last_s + min_sleep_s >= max_sleep_s {
        max_sleep_s as int
    } else {
        last_s + min_sleep_s
    }
}

/// Picks the delay before the next cycle. A success resets to the floor
/// regardless of how deep the backoff had climbed; a failure adds one
/// increment of the floor, never exceeding the ceiling and never
/// overflowing.
pub fn update_timer(success: bool, last_s: u32, min_sleep_s: u32, max_sleep_s: u32) -> (r: u32)
    ensures
        r == next_delay(success, last_s, min_sleep_s, max_sleep_s),
{
    if success {
        return min_sleep_s;
    }
    let stepped: u64 = last_s as u64 + min_sleep_s as u64;
    if stepped >= max_sleep_s as u64 {
        max_sleep_s
    } else {
        stepped as u32
    }
}

/// Repeated failures climb monotonically and saturate: a failure step
/// never drops below the previous delay (as long as that delay was at or
/// under the ceiling), never passes the ceiling, and once the ceiling is
/// reached it stays there; a single success resets to the floor at once.
pub proof fn lemma_backoff_saturates(last_s: u32, min_sleep_s: u32, max_sleep_s: u32)
    requires
        last_s <= max_sleep_s,
    ensures
        next_delay(false, last_s, min_sleep_s, max_sleep_s) >= last_s,
        next_delay(false, last_s, min_sleep_s, max_sleep_s) <= max_sleep_s,
        last_s == max_sleep_s ==> next_delay(false, last_s, min_sleep_s, max_sleep_s)
            == max_sleep_s,
        next_delay(true, last_s, min_sleep_s, max_sleep_s) == min_sleep_s,
{
}

} // verus!
