//! The branch record data model.

use vstd::prelude::*;
use crate::age::spec_age_days;

verus! {

/// Whether a branch is local or remote-tracking.
#[derive(Clone, Copy, PartialEq, Eq, Structural, Debug)]
pub enum BranchKind {
    Local,
    Remote,
}

/// A branch as enumerated from the repository, before its tip commit has
/// been turned into an age: the tip timestamp is `None` when the branch's
/// tip could not be resolved to a commit.
pub struct ScannedBranch {
    pub name: String,
    pub kind: BranchKind,
    /// Seconds since the epoch of the tip commit, if the tip resolved.
    pub tip_seconds: Option<u64>,
}

/// A branch with its age in whole days, as reported and selected on.
/// Only branches whose tip commit resolved become records.
#[derive(PartialEq, Eq, Debug)]
pub struct BranchRecord {
    pub name: String,
    pub kind: BranchKind,
    pub age_days: u64,
}

/// The record a scanned branch with a resolved tip turns into, at scan
/// time `now`.
pub open spec fn spec_record_of(b: ScannedBranch, now: u64) -> BranchRecord {
    BranchRecord { name: b.name, kind: b.kind, age_days: spec_age_days(now, b.tip_seconds->0) }
}

} // verus!
