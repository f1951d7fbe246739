use vstd::prelude::*;

verus! {

/// How long the daemon waits after a drain that took `elapsed`, so that drains
/// start every `interval`: the remainder of the interval, or nothing when the
/// drain took the whole interval or longer.
pub open spec fn sleep_after(interval: nat, elapsed: nat) -> nat {
    if elapsed >= interval {
        0
    } else {
        (interval - elapsed) as nat
    }
}

/// The pause before the next drain, in the same unit as both arguments
/// (a saturating difference).
pub fn next_sleep(interval: u64, elapsed: u64) -> (r: u64)
    ensures
        r as nat == sleep_after(interval as nat, elapsed as nat),
{
    if elapsed >= interval {
        0
    } else {
        interval - elapsed
    }
}

} // verus!
