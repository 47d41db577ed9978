//! Stable sorting of branch records by age, oldest first.

use vstd::prelude::*;
use crate::branch::BranchRecord;
use crate::seqs::{lemma_filter_all_false, lemma_filter_push, lemma_filter_singleton};

verus! {

/// Descending order by age: every earlier record is at least as old as
/// every later one.
pub open spec fn sorted_desc(s: Seq<BranchRecord>) -> bool {
    forall|i: int, j: int| 0 <= i <= j < s.len() ==> s[i].age_days >= s[j].age_days
}

/// Insertion of `x` behind every record at least as old as `x`. A record
/// inserted later never overtakes an equally old record already placed,
/// which is what makes the sort stable.
pub open spec fn spec_insert_by_age(x: BranchRecord, s: Seq<BranchRecord>) -> Seq<BranchRecord>
    decreases s.len(),
{
    if s.len() == 0 {
        seq![x]
    } else if s[0].age_days >= x.age_days {
        seq![s[0]] + spec_insert_by_age(x, s.drop_first())
    } else {
        seq![x] + s
    }
}

/// Stable insertion sort by age, descending.
pub open spec fn spec_sort_by_age(s: Seq<BranchRecord>) -> Seq<BranchRecord>
    decreases s.len(),
{
    if s.len() == 0 {
        Seq::empty()
    } else {
        spec_insert_by_age(s.last(), spec_sort_by_age(s.drop_last()))
    }
}

/// Where the first `j` records of `s` are at least as old as `x` and the
/// record at `j` (if any) is younger, insertion places `x` exactly at `j`.
proof fn lemma_insert_at(x: BranchRecord, s: Seq<BranchRecord>, j: int)
    requires
        0 <= j <= s.len(),
        forall|m: int| 0 <= m < j ==> s[m].age_days >= x.age_days,
        j < s.len() ==> s[j].age_days < x.age_days,
    ensures
        spec_insert_by_age(x, s) == s.take(j) + seq![x] + s.skip(j),
    decreases j,
{
    if j == 0 {
        if s.len() == 0 {
            assert(s.take(0) + seq![x] + s.skip(0) =~= seq![x]);
        } else {
            assert(s.take(0) + seq![x] + s.skip(0) =~= seq![x] + s);
        }
    } else {
        assert(s[0].age_days >= x.age_days);
        let rest = s.drop_first();
        assert forall|m: int| 0 <= m < j - 1 implies rest[m].age_days >= x.age_days by {
            assert(rest[m] == s[m + 1]);
        }
        assert(j - 1 < rest.len() ==> rest[j - 1] == s[j]);
        lemma_insert_at(x, rest, j - 1);
        assert(rest.take(j - 1) =~= s.subrange(1, j));
        assert(rest.skip(j - 1) =~= s.skip(j));
        assert(seq![s[0]] + (s.subrange(1, j) + seq![x] + s.skip(j)) =~= s.take(j) + seq![x]
            + s.skip(j));
    }
}

/// The inserted sequence is one longer.
proof fn lemma_insert_len(x: BranchRecord, s: Seq<BranchRecord>)
    ensures
        spec_insert_by_age(x, s).len() == s.len() + 1,
    decreases s.len(),
{
    if s.len() > 0 && s[0].age_days >= x.age_days {
        lemma_insert_len(x, s.drop_first());
    }
}

/// Every record of the inserted sequence is `x` or comes from `s`.
proof fn lemma_insert_elems(x: BranchRecord, s: Seq<BranchRecord>, i: int)
    requires
        0 <= i < spec_insert_by_age(x, s).len(),
    ensures
        spec_insert_by_age(x, s)[i] == x || s.contains(spec_insert_by_age(x, s)[i]),
    decreases s.len(),
{
    lemma_insert_len(x, s);
    if s.len() == 0 {
    } else if s[0].age_days >= x.age_days {
        let rest = s.drop_first();
        if i == 0 {
            assert(spec_insert_by_age(x, s)[0] == s[0]);
        } else {
            lemma_insert_elems(x, rest, i - 1);
            assert(spec_insert_by_age(x, s)[i] == spec_insert_by_age(x, rest)[i - 1]);
            if rest.contains(spec_insert_by_age(x, rest)[i - 1]) {
                let m = choose|m: int|
                    0 <= m < rest.len() && rest[m] == spec_insert_by_age(x, rest)[i - 1];
                assert(s[m + 1] == rest[m]);
            }
        }
    } else {
        if i > 0 {
            assert(spec_insert_by_age(x, s)[i] == s[i - 1]);
        }
    }
}

/// Insertion into a sequence sorted by descending age keeps it sorted.
proof fn lemma_insert_sorted(x: BranchRecord, s: Seq<BranchRecord>)
    requires
        sorted_desc(s),
    ensures
        sorted_desc(spec_insert_by_age(x, s)),
    decreases s.len(),
{
    lemma_insert_len(x, s);
    if s.len() == 0 {
    } else if s[0].age_days >= x.age_days {
        let rest = s.drop_first();
        assert(sorted_desc(rest)) by {
            assert forall|i: int, j: int|
                0 <= i <= j < rest.len() implies rest[i].age_days >= rest[j].age_days by {
                assert(rest[i] == s[i + 1]);
                assert(rest[j] == s[j + 1]);
            }
        }
        lemma_insert_sorted(x, rest);
        lemma_insert_len(x, rest);
        let out = spec_insert_by_age(x, s);
        let ins = spec_insert_by_age(x, rest);
        assert forall|i: int, j: int|
            0 <= i <= j < out.len() implies out[i].age_days >= out[j].age_days by {
            if i == 0 && j > 0 {
                assert(out[j] == ins[j - 1]);
                lemma_insert_elems(x, rest, j - 1);
                if ins[j - 1] == x {
                    assert(out[0].age_days >= x.age_days);
                } else {
                    let m = choose|m: int| 0 <= m < rest.len() && rest[m] == ins[j - 1];
                    assert(rest[m] == s[m + 1]);
                    assert(s[0].age_days >= s[m + 1].age_days);
                }
            } else if i > 0 {
                assert(out[i] == ins[i - 1]);
                assert(out[j] == ins[j - 1]);
            }
        }
    } else {
        let out = spec_insert_by_age(x, s);
        assert forall|i: int, j: int|
            0 <= i <= j < out.len() implies out[i].age_days >= out[j].age_days by {
            if i == 0 && j > 0 {
                assert(out[j] == s[j - 1]);
                assert(x.age_days > s[0].age_days);
                assert(s[0].age_days >= s[j - 1].age_days);
            } else if i > 0 {
                assert(out[i] == s[i - 1]);
                assert(out[j] == s[j - 1]);
            }
        }
    }
}

/// The sorted sequence is sorted by descending age.
pub proof fn lemma_sort_sorted(s: Seq<BranchRecord>)
    ensures
        sorted_desc(spec_sort_by_age(s)),
    decreases s.len(),
{
    if s.len() > 0 {
        lemma_sort_sorted(s.drop_last());
        lemma_insert_sorted(s.last(), spec_sort_by_age(s.drop_last()));
    }
}

/// Inserting a record no older than everything present appends it.
proof fn lemma_insert_at_end(x: BranchRecord, s: Seq<BranchRecord>)
    requires
        forall|m: int| 0 <= m < s.len() ==> s[m].age_days >= x.age_days,
    ensures
        spec_insert_by_age(x, s) == s.push(x),
    decreases s.len(),
{
    if s.len() == 0 {
        assert(seq![x] =~= s.push(x));
    } else {
        let rest = s.drop_first();
        assert forall|m: int| 0 <= m < rest.len() implies rest[m].age_days >= x.age_days by {
            assert(rest[m] == s[m + 1]);
        }
        lemma_insert_at_end(x, rest);
        assert(seq![s[0]] + rest.push(x) =~= s.push(x));
    }
}

/// Insertion adds `x` to the records and moves nothing else.
proof fn lemma_insert_multiset(x: BranchRecord, s: Seq<BranchRecord>)
    ensures
        spec_insert_by_age(x, s).to_multiset() == s.to_multiset().insert(x),
    decreases s.len(),
{
    broadcast use vstd::seq_lib::group_to_multiset_ensures;

    if s.len() == 0 {
        assert(seq![x] =~= Seq::<BranchRecord>::empty().push(x));
        assert(Seq::<BranchRecord>::empty().push(x).to_multiset() =~= Seq::<
            BranchRecord,
        >::empty().to_multiset().insert(x));
    } else if s[0].age_days >= x.age_days {
        let rest = s.drop_first();
        lemma_insert_multiset(x, rest);
        vstd::seq_lib::lemma_multiset_commutative(seq![s[0]], spec_insert_by_age(x, rest));
        vstd::seq_lib::lemma_multiset_commutative(seq![s[0]], rest);
        assert(seq![s[0]] + rest =~= s);
        assert(seq![s[0]].to_multiset().add(rest.to_multiset().insert(x)) =~= (seq![
            s[0],
        ].to_multiset().add(rest.to_multiset())).insert(x));
    } else {
        vstd::seq_lib::lemma_multiset_commutative(seq![x], s);
        assert(seq![x] =~= Seq::<BranchRecord>::empty().push(x));
        assert(seq![x].to_multiset().add(s.to_multiset()) =~= s.to_multiset().insert(x));
    }
}

/// The sorted sequence is a permutation of the input: it holds exactly
/// the input's records, each as often as the input does.
pub proof fn lemma_sort_permutes(s: Seq<BranchRecord>)
    ensures
        spec_sort_by_age(s).to_multiset() == s.to_multiset(),
    decreases s.len(),
{
    broadcast use vstd::seq_lib::group_to_multiset_ensures;

    if s.len() > 0 {
        let front = s.drop_last();
        lemma_sort_permutes(front);
        lemma_insert_multiset(s.last(), spec_sort_by_age(front));
        assert(front.push(s.last()) =~= s);
    }
}

/// Sorting a sequence that is already sorted by descending age returns it
/// unchanged.
pub proof fn lemma_sort_of_sorted(s: Seq<BranchRecord>)
    requires
        sorted_desc(s),
    ensures
        spec_sort_by_age(s) == s,
    decreases s.len(),
{
    if s.len() == 0 {
        assert(spec_sort_by_age(s) =~= s);
    } else {
        let front = s.drop_last();
        assert(sorted_desc(front));
        lemma_sort_of_sorted(front);
        assert forall|m: int| 0 <= m < front.len() implies front[m].age_days
            >= s.last().age_days by {
            assert(front[m] == s[m]);
        }
        lemma_insert_at_end(s.last(), front);
        assert(front.push(s.last()) =~= s);
    }
}

/// Sorting by descending age is idempotent: sorting a second time changes
/// nothing.
pub proof fn lemma_sort_idempotent(s: Seq<BranchRecord>)
    ensures
        spec_sort_by_age(spec_sort_by_age(s)) == spec_sort_by_age(s),
{
    lemma_sort_sorted(s);
    lemma_sort_of_sorted(spec_sort_by_age(s));
}

/// Inserting into a sequence sorted by descending age leaves the records
/// of every fixed age in their relative order, with `x` joining at the
/// back of its age group.
proof fn lemma_insert_filter(x: BranchRecord, s: Seq<BranchRecord>, a: u64)
    requires
        sorted_desc(s),
    ensures
        spec_insert_by_age(x, s).filter(|r: BranchRecord| r.age_days == a) == if x.age_days == a {
            s.filter(|r: BranchRecord| r.age_days == a).push(x)
        } else {
            s.filter(|r: BranchRecord| r.age_days == a)
        },
    decreases s.len(),
{
    let pred = |r: BranchRecord| r.age_days == a;
    if s.len() == 0 {
        assert(Seq::<BranchRecord>::empty().push(x) =~= seq![x]);
        lemma_filter_push(Seq::<BranchRecord>::empty(), x, pred);
        assert(Seq::<BranchRecord>::empty().filter(pred) == Seq::<BranchRecord>::empty()) by {
            reveal(Seq::filter);
        }
    } else if s[0].age_days >= x.age_days {
        let rest = s.drop_first();
        assert(sorted_desc(rest)) by {
            assert forall|i: int, j: int|
                0 <= i <= j < rest.len() implies rest[i].age_days >= rest[j].age_days by {
                assert(rest[i] == s[i + 1]);
                assert(rest[j] == s[j + 1]);
            }
        }
        lemma_insert_filter(x, rest, a);
        Seq::filter_distributes_over_add(seq![s[0]], spec_insert_by_age(x, rest), pred);
        Seq::filter_distributes_over_add(seq![s[0]], rest, pred);
        assert(seq![s[0]] + rest =~= s);
        lemma_filter_singleton(s[0], pred);
        if x.age_days == a {
            Seq::push_distributes_over_add(seq![s[0]].filter(pred), rest.filter(pred), x);
        }
    } else {
        // x goes in front; sortedness makes every record of s younger than
        // x, so when x has age a no record of s does.
        Seq::filter_distributes_over_add(seq![x], s, pred);
        lemma_filter_singleton(x, pred);
        if x.age_days == a {
            assert forall|i: int| 0 <= i < s.len() implies !pred(s[i]) by {
                assert(s[0].age_days >= s[i].age_days);
            }
            lemma_filter_all_false(s, pred);
            assert(seq![x] =~= Seq::<BranchRecord>::empty().push(x));
            assert(seq![x].filter(pred) + s.filter(pred) =~= s.filter(pred).push(x));
        } else {
            assert(Seq::<BranchRecord>::empty() + s.filter(pred) =~= s.filter(pred));
        }
    }
}

/// The sort is stable: for every age, the records of that age stand in
/// the sorted sequence exactly in their relative order from the input.
pub proof fn lemma_sort_stable(s: Seq<BranchRecord>, a: u64)
    ensures
        spec_sort_by_age(s).filter(|r: BranchRecord| r.age_days == a) == s.filter(
            |r: BranchRecord| r.age_days == a,
        ),
    decreases s.len(),
{
    let pred = |r: BranchRecord| r.age_days == a;
    if s.len() > 0 {
        let front = s.drop_last();
        lemma_sort_stable(front, a);
        lemma_sort_sorted(front);
        lemma_insert_filter(s.last(), spec_sort_by_age(front), a);
        lemma_filter_push(front, s.last(), pred);
        assert(front.push(s.last()) =~= s);
    }
}

/// Sorts the records by age, oldest first; records of equal age keep
/// their relative order from the input.
pub fn sort_by_age_desc(records: Vec<BranchRecord>) -> (sorted: Vec<BranchRecord>)
    ensures
        sorted@ == spec_sort_by_age(records@),
{
    let ghost all = records@;
    let mut rest = records;
    let mut out: Vec<BranchRecord> = Vec::new();
    let ghost mut k: int = 0;
    while rest.len() > 0
        invariant
            0 <= k <= all.len(),
            rest@ == all.skip(k),
            out@ == spec_sort_by_age(all.take(k)),
        decreases rest@.len(),
    {
        let x = rest.remove(0);
        let ghost xg = x;
        let ghost before = out@;
        proof {
            assert(all.skip(k)[0] == all[k]);
            assert(all.skip(k).skip(1) =~= all.skip(k + 1));
        }
        let age = x.age_days;
        let mut j: usize = 0;
        while j < out.len() && out[j].age_days >= age
            invariant
                0 <= j <= out.len(),
                out@ == before,
                forall|m: int| 0 <= m < j ==> out@[m].age_days >= xg.age_days,
                age == xg.age_days,
            decreases out.len() - j,
        {
            j += 1;
        }
        proof {
            lemma_insert_at(xg, before, j as int);
        }
        out.insert(j, x);
        proof {
            assert(out@ =~= before.take(j as int) + seq![xg] + before.skip(j as int));
            assert(all.take(k + 1).drop_last() =~= all.take(k));
            assert(all.take(k + 1).last() == all[k]);
            k = k + 1;
        }
    }
    proof {
        assert(all.take(k) =~= all);
    }
    out
}

} // verus!
