//! Turning enumerated branches into aged branch records.

use vstd::prelude::*;
use crate::age::age_days;
use crate::branch::{BranchKind, BranchRecord, ScannedBranch, spec_record_of};
use crate::seqs::lemma_filter_push;

verus! {

/// Whether a scanned branch's tip commit resolved.
pub open spec fn has_tip(b: ScannedBranch) -> bool {
    b.tip_seconds is Some
}

/// The record set a scan produces: every branch whose tip commit resolved,
/// as a record aged at the single scan time `now`, in enumeration order.
/// Branches whose tip could not be resolved are excluded.
pub open spec fn spec_scan(branches: Seq<ScannedBranch>, now: u64) -> Seq<BranchRecord> {
    branches.filter(|b: ScannedBranch| has_tip(b)).map_values(
        |b: ScannedBranch| spec_record_of(b, now),
    )
}

/// Builds the record set for one scan pass. Every branch with a resolved
/// tip yields exactly one record whose age is computed against the one
/// `now` timestamp; branches with an unresolved tip are dropped.
pub fn scan_records(branches: Vec<ScannedBranch>, now: u64) -> (records: Vec<BranchRecord>)
    ensures
        records@ == spec_scan(branches@, now),
{
    let ghost all = branches@;
    let mut rest = branches;
    let mut records: Vec<BranchRecord> = Vec::new();
    let ghost mut k: int = 0;
    while rest.len() > 0
        invariant
            0 <= k <= all.len(),
            rest@ == all.skip(k),
            records@ == spec_scan(all.take(k), now),
        decreases rest@.len(),
    {
        let b = rest.remove(0);
        let ghost bg = b;
        proof {
            assert(all.skip(k)[0] == all[k]);
            assert(all.skip(k).skip(1) =~= all.skip(k + 1));
            assert(all.take(k + 1) =~= all.take(k).push(all[k]));
            lemma_filter_push(all.take(k), bg, |x: ScannedBranch| has_tip(x));
        }
        match b.tip_seconds {
            Some(tip) => {
                let record = BranchRecord {
                    name: b.name,
                    kind: b.kind,
                    age_days: age_days(now, tip),
                };
                records.push(record);
                proof {
                    let pred = |x: ScannedBranch| has_tip(x);
                    let f = |x: ScannedBranch| spec_record_of(x, now);
                    assert(all.take(k + 1).filter(pred) == all.take(k).filter(pred).push(bg));
                    assert(records@ =~= all.take(k + 1).filter(pred).map_values(f));
                }
            },
            None => {
                proof {
                    let pred = |x: ScannedBranch| has_tip(x);
                    assert(all.take(k + 1).filter(pred) == all.take(k).filter(pred));
                }
            },
        }
        proof {
            k = k + 1;
        }
    }
    proof {
        assert(all.take(k) =~= all);
    }
    records
}

} // verus!
