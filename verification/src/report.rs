//! Rendering the branch report: column widths, the list-mode table and
//! the clean-mode lines.

use vstd::prelude::*;
use vstd::string::{StrSliceExecFns, StringExecFns};
use crate::branch::BranchRecord;
use crate::select::{filter_stale, spec_stale};
use crate::sort::{sort_by_age_desc, spec_sort_by_age};
use crate::text::{
    dashes, lemma_pad_width, pad_left, pad_right, spec_decimal, spec_pad_left, spec_pad_right,
    spec_repeat, u64_to_string,
};

verus! {

/// The name column width: the longest name over the records, never less
/// than 10.
pub open spec fn spec_max_name_len(s: Seq<BranchRecord>) -> nat
    decreases s.len(),
{
    if s.len() == 0 {
        10
    } else {
        let rest = spec_max_name_len(s.drop_last());
        if s.last().name@.len() > rest {
            s.last().name@.len()
        } else {
            rest
        }
    }
}

/// The column is at least 10 wide.
pub proof fn lemma_max_name_len_floor(s: Seq<BranchRecord>)
    ensures
        spec_max_name_len(s) >= 10,
    decreases s.len(),
{
    if s.len() > 0 {
        lemma_max_name_len_floor(s.drop_last());
    }
}

/// Every name fits in the computed column width.
pub proof fn lemma_max_name_len_bounds(s: Seq<BranchRecord>, i: int)
    requires
        0 <= i < s.len(),
    ensures
        s[i].name@.len() <= spec_max_name_len(s),
    decreases s.len(),
{
    if i < s.len() - 1 {
        lemma_max_name_len_bounds(s.drop_last(), i);
        assert(s.drop_last()[i] == s[i]);
    }
}

/// Every rendered name field is exactly as wide as the computed column
/// width.
pub proof fn lemma_name_field_width(s: Seq<BranchRecord>, i: int)
    requires
        0 <= i < s.len(),
    ensures
        spec_pad_right(s[i].name@, spec_max_name_len(s)).len() == spec_max_name_len(s),
{
    lemma_max_name_len_bounds(s, i);
    lemma_pad_width(s[i].name@, spec_max_name_len(s));
}

/// Computes the name column width for the records.
pub fn max_name_len(records: &Vec<BranchRecord>) -> (w: usize)
    ensures
        w == spec_max_name_len(records@),
{
    let mut w: usize = 10;
    let mut i: usize = 0;
    while i < records.len()
        invariant
            i <= records@.len(),
            w == spec_max_name_len(records@.take(i as int)),
        decreases records@.len() - i,
    {
        let l = records[i].name.as_str().unicode_len();
        if l > w {
            w = l;
        }
        proof {
            assert(records@.take(i + 1).drop_last() =~= records@.take(i as int));
            assert(records@.take(i + 1).last() == records@[i as int]);
        }
        i += 1;
    }
    proof {
        assert(records@.take(records@.len() as int) =~= records@);
    }
    w
}

/// One table row: the name left-aligned to `w`, a two-space gap, the age
/// right-aligned to 10.
pub open spec fn spec_table_row(name: Seq<char>, age: nat, w: nat) -> Seq<char> {
    spec_pad_right(name, w) + seq![' ', ' '] + spec_pad_left(spec_decimal(age), 10)
}

/// The header row over the same columns.
pub open spec fn spec_table_header(w: nat) -> Seq<char> {
    spec_pad_right("Branch"@, w) + seq![' ', ' '] + spec_pad_left("Age (days)"@, 10)
}

/// The separator row: dashes across each column.
pub open spec fn spec_table_separator(w: nat) -> Seq<char> {
    spec_repeat('-', w) + seq![' ', ' '] + spec_repeat('-', 10)
}

/// Renders one table row.
pub fn render_table_row(name: &str, age: u64, w: usize) -> (line: String)
    ensures
        line@ == spec_table_row(name@, age as nat, w as nat),
{
    let mut line = pad_right(name, w);
    line.append("  ");
    let num = u64_to_string(age);
    let field = pad_left(num.as_str(), 10);
    line.append(field.as_str());
    proof {
        reveal_strlit("  ");
        assert(line@ =~= spec_table_row(name@, age as nat, w as nat));
    }
    line
}

/// The list-mode report over the records: the records sorted by age
/// descending under a header and separator, all three column widths
/// shared.
pub open spec fn spec_list_report(s: Seq<BranchRecord>) -> Seq<Seq<char>> {
    let sorted = spec_sort_by_age(s);
    let w = spec_max_name_len(sorted);
    seq![spec_table_header(w), spec_table_separator(w)] + sorted.map_values(
        |r: BranchRecord| spec_table_row(r.name@, r.age_days as nat, w),
    )
}

/// Builds the list-mode report: sorts the records by age descending and
/// renders the full table, one line per element of the result.
pub fn list_report(records: Vec<BranchRecord>) -> (lines: Vec<String>)
    ensures
        lines@.map_values(|l: String| l@) == spec_list_report(records@),
{
    let sorted = sort_by_age_desc(records);
    let w = max_name_len(&sorted);
    let ghost wg = w as nat;
    let mut lines: Vec<String> = Vec::new();

    let mut header = pad_right("Branch", w);
    header.append("  ");
    let right = pad_left("Age (days)", 10);
    header.append(right.as_str());
    proof {
        reveal_strlit("  ");
        assert(header@ =~= spec_table_header(wg));
    }
    lines.push(header);

    let mut sep = dashes(w);
    sep.append("  ");
    let sep_right = dashes(10);
    sep.append(sep_right.as_str());
    proof {
        reveal_strlit("  ");
        assert(sep@ =~= spec_table_separator(wg));
    }
    lines.push(sep);

    let mut i: usize = 0;
    while i < sorted.len()
        invariant
            i <= sorted@.len(),
            wg == w as nat,
            wg == spec_max_name_len(sorted@),
            lines@.len() == i + 2,
            lines@[0]@ == spec_table_header(wg),
            lines@[1]@ == spec_table_separator(wg),
            forall|j: int|
                0 <= j < i ==> lines@[j + 2]@ == spec_table_row(
                    sorted@[j].name@,
                    sorted@[j].age_days as nat,
                    wg,
                ),
        decreases sorted@.len() - i,
    {
        let row = render_table_row(sorted[i].name.as_str(), sorted[i].age_days, w);
        lines.push(row);
        proof {
            assert(lines@[i + 2]@ == spec_table_row(
                sorted@[i as int].name@,
                sorted@[i as int].age_days as nat,
                wg,
            ));
        }
        i += 1;
    }
    proof {
        let m = lines@.map_values(|l: String| l@);
        let spec = spec_list_report(records@);
        assert forall|j: int| 0 <= j < m.len() implies m[j] == spec[j] by {
            if j >= 2 {
                assert(lines@[(j - 2) + 2]@ == spec_table_row(
                    sorted@[j - 2].name@,
                    sorted@[j - 2].age_days as nat,
                    wg,
                ));
            }
        }
        assert(m =~= spec);
    }
    lines
}

/// The stale branches, oldest first: the records strictly older than the
/// threshold, sorted by age descending with scan order kept among ties.
pub fn stale_branches(records: Vec<BranchRecord>, threshold: u64) -> (stale: Vec<BranchRecord>)
    ensures
        stale@ == spec_sort_by_age(spec_stale(records@, threshold)),
{
    sort_by_age_desc(filter_stale(records, threshold))
}

/// The clean-mode summary line.
pub open spec fn spec_summary(n: nat) -> Seq<char> {
    "Found "@ + spec_decimal(n) + " stale branches."@
}

/// Renders "Found N stale branches." for `n` stale branches.
pub fn summary_line(n: usize) -> (s: String)
    ensures
        s@ == spec_summary(n as nat),
{
    let mut s = String::from_str("Found ");
    let num = u64_to_string(n as u64);
    s.append(num.as_str());
    s.append(" stale branches.");
    proof {
        reveal_strlit("Found ");
        reveal_strlit(" stale branches.");
        assert(s@ =~= spec_summary(n as nat));
    }
    s
}

/// One clean-mode line: a bullet, the name left-aligned to `w`, a
/// four-space gap, and the age as "<age>d".
pub open spec fn spec_clean_line(name: Seq<char>, age: nat, w: nat) -> Seq<char> {
    "* "@ + spec_pad_right(name, w) + "    "@ + spec_decimal(age) + "d"@
}

/// Renders one clean-mode line.
pub fn render_clean_line(name: &str, age: u64, w: usize) -> (line: String)
    ensures
        line@ == spec_clean_line(name@, age as nat, w as nat),
{
    let mut line = String::from_str("* ");
    let field = pad_right(name, w);
    line.append(field.as_str());
    line.append("    ");
    let num = u64_to_string(age);
    line.append(num.as_str());
    line.append("d");
    proof {
        reveal_strlit("* ");
        reveal_strlit("    ");
        reveal_strlit("d");
        assert(line@ =~= spec_clean_line(name@, age as nat, w as nat));
    }
    line
}

/// The clean-mode report over the already-selected stale records: the
/// summary line, then one line per stale branch with a shared name
/// column width.
pub open spec fn spec_clean_report(stale: Seq<BranchRecord>) -> Seq<Seq<char>> {
    let w = spec_max_name_len(stale);
    seq![spec_summary(stale.len())] + stale.map_values(
        |r: BranchRecord| spec_clean_line(r.name@, r.age_days as nat, w),
    )
}

/// Renders the clean-mode report for the stale records.
pub fn clean_report(stale: &Vec<BranchRecord>) -> (lines: Vec<String>)
    ensures
        lines@.map_values(|l: String| l@) == spec_clean_report(stale@),
{
    let w = max_name_len(stale);
    let ghost wg = w as nat;
    let mut lines: Vec<String> = Vec::new();
    lines.push(summary_line(stale.len()));
    let mut i: usize = 0;
    while i < stale.len()
        invariant
            i <= stale@.len(),
            wg == w as nat,
            wg == spec_max_name_len(stale@),
            lines@.len() == i + 1,
            lines@[0]@ == spec_summary(stale@.len()),
            forall|j: int|
                0 <= j < i ==> lines@[j + 1]@ == spec_clean_line(
                    stale@[j].name@,
                    stale@[j].age_days as nat,
                    wg,
                ),
        decreases stale@.len() - i,
    {
        let line = render_clean_line(stale[i].name.as_str(), stale[i].age_days, w);
        lines.push(line);
        proof {
            assert(lines@[i + 1]@ == spec_clean_line(
                stale@[i as int].name@,
                stale@[i as int].age_days as nat,
                wg,
            ));
        }
        i += 1;
    }
    proof {
        let m = lines@.map_values(|l: String| l@);
        let spec = spec_clean_report(stale@);
        assert forall|j: int| 0 <= j < m.len() implies m[j] == spec[j] by {
            if j >= 1 {
                assert(lines@[(j - 1) + 1]@ == spec_clean_line(
                    stale@[j - 1].name@,
                    stale@[j - 1].age_days as nat,
                    wg,
                ));
            }
        }
        assert(m =~= spec);
    }
    lines
}

} // verus!
