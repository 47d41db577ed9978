//! Deriving the repository's display name from its metadata path.

use vstd::prelude::*;
use vstd::string::{StrSliceExecFns, StringExecFns};

verus! {

/// Index of the last '/' in `s`, or -1 when there is none.
pub open spec fn last_slash(s: Seq<char>) -> int
    decreases s.len(),
{
    if s.len() == 0 {
        -1
    } else if s[s.len() - 1] == '/' {
        s.len() - 1
    } else {
        last_slash(s.drop_last())
    }
}

/// The fallback name when the path cannot be decomposed.
pub open spec fn spec_unknown_name() -> Seq<char> {
    seq!['U', 'n', 'k', 'n', 'o', 'w', 'n']
}

/// The repository name derived from the canonical '/'-separated path of
/// its metadata directory: the name of that directory's parent. Where
/// the path holds no separator, or the parent component is empty, the
/// name is "Unknown".
pub open spec fn spec_repo_name(path: Seq<char>) -> Seq<char> {
    let j = last_slash(path);
    if j < 0 {
        spec_unknown_name()
    } else {
        let parent = path.take(j);
        let i = last_slash(parent);
        let name = parent.skip(i + 1);
        if name.len() == 0 {
            spec_unknown_name()
        } else {
            name
        }
    }
}

/// Finds the last '/' strictly before index `end`, which is the last
/// slash of the prefix of that length.
fn find_last_slash(path: &str, end: usize) -> (found: Option<usize>)
    requires
        end <= path@.len(),
    ensures
        match found {
            Some(v) => v < end && last_slash(path@.take(end as int)) == v,
            None => last_slash(path@.take(end as int)) == -1,
        },
{
    let mut k: usize = end;
    while k > 0
        invariant
            k <= end <= path@.len(),
            last_slash(path@.take(end as int)) == last_slash(path@.take(k as int)),
        decreases k,
    {
        let c = path.get_char(k - 1);
        proof {
            assert(path@.take(k as int).last() == path@[k as int - 1]);
            assert(path@.take(k as int).drop_last() =~= path@.take(k as int - 1));
        }
        if c == '/' {
            return Some(k - 1);
        }
        k -= 1;
    }
    proof {
        assert(path@.take(0) =~= Seq::<char>::empty());
    }
    None
}

fn unknown_name() -> (name: String)
    ensures
        name@ == spec_unknown_name(),
{
    proof {
        reveal_strlit("Unknown");
        assert("Unknown"@ =~= spec_unknown_name());
    }
    String::from_str("Unknown")
}

/// Derives the repository name from the canonical path of its metadata
/// directory, falling back to "Unknown" when the path has no readable
/// parent component.
pub fn repo_name_from_path(path: &str) -> (name: String)
    ensures
        name@ == spec_repo_name(path@),
{
    let len = path.unicode_len();
    proof {
        assert(path@.take(len as int) =~= path@);
    }
    let j = match find_last_slash(path, len) {
        Some(j) => j,
        None => {
            return unknown_name();
        },
    };
    let ghost parent = path@.take(j as int);
    let i = match find_last_slash(path, j) {
        Some(i0) => {
            proof {
                assert(last_slash(parent) == i0);
            }
            i0 + 1
        },
        None => {
            proof {
                assert(last_slash(parent) == -1);
            }
            0
        },
    };
    proof {
        assert(parent.skip(i as int) =~= path@.subrange(i as int, j as int));
    }
    if i == j {
        return unknown_name();
    }
    let part = path.substring_char(i, j);
    String::from_str(part)
}

} // verus!
