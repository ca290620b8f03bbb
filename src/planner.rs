//! Fetch-window planning for incremental crawls.
use vstd::prelude::*;

verus! {

/// Seconds in one day.
pub const SECONDS_PER_DAY: i64 = 86400;

/// The fetch-window start: one second past the checkpoint when the checkpoint
/// lies after the history floor, otherwise the floor itself. A checkpoint at
/// the largest representable time stays there.
pub open spec fn planned_start(last_seen: Option<i64>, floor: i64) -> i64 {
    match last_seen {
        Some(l) => if l > floor {
            if l < i64::MAX { (l + 1) as i64 } else { l }
        } else {
            floor
        },
        None => floor,
    }
}

/// Computes where the next fetch for an account starts.
pub fn plan_start_time(last_seen: Option<i64>, floor: i64) -> (r: i64)
    ensures
        r == planned_start(last_seen, floor),
        r >= floor,
{
    match last_seen {
        Some(l) => if l > floor {
            if l < i64::MAX { l + 1 } else { l }
        } else {
            floor
        },
        None => floor,
    }
}

/// The floor of the fetch window: `history_depth_days` days before `now`.
pub fn history_floor(now: i64, history_depth_days: u32) -> (r: i64)
    requires
        now - history_depth_days * SECONDS_PER_DAY >= i64::MIN,
    ensures
        r == now - history_depth_days * SECONDS_PER_DAY,
{
    now - (history_depth_days as i64) * SECONDS_PER_DAY
}

/// The planner starts at the floor without a checkpoint, one second past a
/// checkpoint that lies after the floor, and at the floor otherwise.
pub proof fn lemma_planner(last: i64, floor: i64)
    ensures
        planned_start(None, floor) == floor,
        last > floor && last < i64::MAX ==> planned_start(Some(last), floor) == last + 1,
        last <= floor ==> planned_start(Some(last), floor) == floor,
        planned_start(Some(last), floor) >= floor,
        planned_start(Some(last), floor) >= last,
{
}

} // verus!
