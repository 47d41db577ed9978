//! Selecting stale branches against an age threshold.

use vstd::prelude::*;
use crate::branch::BranchRecord;
use crate::seqs::{lemma_filter_push, lemma_filter_subset};

verus! {

/// The stale set: the records strictly older than the threshold, in
/// input order. A record exactly at the threshold is not stale.
pub open spec fn spec_stale(s: Seq<BranchRecord>, threshold: u64) -> Seq<BranchRecord> {
    s.filter(|r: BranchRecord| r.age_days > threshold)
}

/// Keeps exactly the records whose age strictly exceeds `threshold`.
pub fn filter_stale(records: Vec<BranchRecord>, threshold: u64) -> (stale: Vec<BranchRecord>)
    ensures
        stale@ == spec_stale(records@, threshold),
{
    let ghost all = records@;
    let ghost pred = |r: BranchRecord| r.age_days > threshold;
    let mut rest = records;
    let mut stale: Vec<BranchRecord> = Vec::new();
    let ghost mut k: int = 0;
    while rest.len() > 0
        invariant
            0 <= k <= all.len(),
            rest@ == all.skip(k),
            stale@ == all.take(k).filter(pred),
            pred == (|r: BranchRecord| r.age_days > threshold),
        decreases rest@.len(),
    {
        let r = rest.remove(0);
        let ghost rg = r;
        proof {
            assert(all.skip(k)[0] == all[k]);
            assert(all.skip(k).skip(1) =~= all.skip(k + 1));
            assert(all.take(k + 1) =~= all.take(k).push(all[k]));
            lemma_filter_push(all.take(k), rg, pred);
        }
        if r.age_days > threshold {
            stale.push(r);
        }
        proof {
            k = k + 1;
        }
    }
    proof {
        assert(all.take(k) =~= all);
    }
    stale
}

/// A record stands in the stale set iff it stands in the input and its
/// age strictly exceeds the threshold.
pub proof fn lemma_stale_membership(s: Seq<BranchRecord>, threshold: u64, r: BranchRecord)
    ensures
        spec_stale(s, threshold).contains(r) <==> s.contains(r) && r.age_days > threshold,
{
    let pred = |x: BranchRecord| x.age_days > threshold;
    broadcast use vstd::seq_lib::group_filter_ensures;

    lemma_filter_subset(s, pred);
    if spec_stale(s, threshold).contains(r) {
        let i = choose|i: int| 0 <= i < s.filter(pred).len() && s.filter(pred)[i] == r;
        assert(pred(s.filter(pred)[i]));
        assert(s.contains(s.filter(pred)[i]));
    }
    if s.contains(r) && r.age_days > threshold {
        let i = choose|i: int| 0 <= i < s.len() && s[i] == r;
        assert(s.filter(pred).contains(s[i]));
    }
}

} // verus!
