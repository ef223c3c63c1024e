//! How counters and clocks are reckoned in contracts.

use vstd::prelude::*;

verus! {

/// The time from `earlier` to `now`: none where the clock has gone back.
pub open spec fn elapsed(now: u64, earlier: u64) -> int {
    if now >= earlier {
        now - earlier
    } else {
        0
    }
}

/// A counter after `more` events: it stays at the largest number.
pub open spec fn saturating_sum(count: u64, more: int) -> u64 {
    if count + more > u64::MAX {
        u64::MAX
    } else {
        (count + more) as u64
    }
}

/// Elapsed time is what has to be added to the earlier time to get the later one, and a clock
/// that goes back lets no time pass.
pub proof fn law_elapsed_time_adds_up(now: u64, earlier: u64)
    ensures
        now >= earlier ==> earlier + elapsed(now, earlier) == now,
        now <= earlier ==> elapsed(now, earlier) == 0,
{
}

/// A counter counts exactly as long as it can, and never goes back.
pub proof fn law_counters_count(count: u64, more: int)
    requires
        more >= 0,
    ensures
        count + more <= u64::MAX ==> saturating_sum(count, more) == count + more,
        count + more > u64::MAX ==> saturating_sum(count, more) == u64::MAX,
{
}

} // verus!
