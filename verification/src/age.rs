//! Branch age in whole days from a commit timestamp.

use vstd::prelude::*;

verus! {

pub const SECONDS_PER_DAY: u64 = 86400;

/// Age in whole days of a commit made at `commit_seconds`, seen at time
/// `now` (both in seconds since the epoch). A commit dated in the future
/// relative to `now` has age zero rather than a wrapped-around value.
pub open spec fn spec_age_days(now: u64, commit_seconds: u64) -> u64 {
    if commit_seconds <= now {
        (((now - commit_seconds) as u64) / SECONDS_PER_DAY) as u64
    } else {
        0
    }
}

/// Computes `floor((now - commit_seconds) / 86400)`, clamped to zero when
/// the commit is dated after `now`.
pub fn age_days(now: u64, commit_seconds: u64) -> (age: u64)
    ensures
        age == spec_age_days(now, commit_seconds),
{
    if commit_seconds <= now {
        (now - commit_seconds) / SECONDS_PER_DAY
    } else {
        0
    }
}

/// With the commit timestamp fixed, a branch's age never decreases as the
/// scan time moves forward.
pub proof fn lemma_age_monotonic(now1: u64, now2: u64, commit_seconds: u64)
    requires
        now1 <= now2,
    ensures
        spec_age_days(now1, commit_seconds) <= spec_age_days(now2, commit_seconds),
{
    if commit_seconds <= now1 {
        vstd::arithmetic::div_mod::lemma_div_is_ordered(
            (now1 - commit_seconds) as int,
            (now2 - commit_seconds) as int,
            SECONDS_PER_DAY as int,
        );
    }
}

} // verus!
