//! Deciding an interactive confirmation from the typed response.

use vstd::prelude::*;
use vstd::string::StrSliceExecFns;

verus! {

/// The whitespace stripped from either end of a response line: blanks,
/// tabs and the line break left by reading a line.
pub open spec fn is_space(c: char) -> bool {
    c == ' ' || c == '\t' || c == '\n' || c == '\r'
}

/// The response with leading whitespace removed.
pub open spec fn trim_front(s: Seq<char>) -> Seq<char>
    decreases s.len(),
{
    if s.len() > 0 && is_space(s[0]) {
        trim_front(s.drop_first())
    } else {
        s
    }
}

/// The response with trailing whitespace removed.
pub open spec fn trim_back(s: Seq<char>) -> Seq<char>
    decreases s.len(),
{
    if s.len() > 0 && is_space(s[s.len() - 1]) {
        trim_back(s.drop_last())
    } else {
        s
    }
}

/// The response trimmed at both ends.
pub open spec fn spec_trimmed(s: Seq<char>) -> Seq<char> {
    trim_back(trim_front(s))
}

/// An affirmative response: exactly "y", once trimmed and lowercased.
/// Anything else — including an empty line — declines.
pub open spec fn is_affirmative(s: Seq<char>) -> bool {
    spec_trimmed(s) == seq!['y'] || spec_trimmed(s) == seq!['Y']
}

fn is_space_char(c: char) -> (r: bool)
    ensures
        r == is_space(c),
{
    c == ' ' || c == '\t' || c == '\n' || c == '\r'
}

/// Decides whether a typed response line is affirmative.
pub fn affirmative(input: &str) -> (r: bool)
    ensures
        r == is_affirmative(input@),
{
    let len = input.unicode_len();
    proof {
        assert(input@.skip(0) =~= input@);
    }
    let mut start: usize = 0;
    while start < len && is_space_char(input.get_char(start))
        invariant
            start <= len,
            len == input@.len(),
            trim_front(input@) == trim_front(input@.skip(start as int)),
        decreases len - start,
    {
        proof {
            assert(input@.skip(start as int)[0] == input@[start as int]);
            assert(input@.skip(start as int).drop_first() =~= input@.skip(start as int + 1));
        }
        start += 1;
    }
    proof {
        if start == len {
            assert(input@.skip(start as int) =~= Seq::<char>::empty());
        } else {
            assert(input@.skip(start as int)[0] == input@[start as int]);
        }
        assert(trim_front(input@) == input@.skip(start as int));
        assert(input@.subrange(start as int, len as int) =~= input@.skip(start as int));
    }
    let mut end: usize = len;
    while end > start && is_space_char(input.get_char(end - 1))
        invariant
            start <= end <= len,
            len == input@.len(),
            trim_front(input@) == input@.skip(start as int),
            trim_back(input@.skip(start as int)) == trim_back(
                input@.subrange(start as int, end as int),
            ),
        decreases end,
    {
        proof {
            let sub = input@.subrange(start as int, end as int);
            assert(sub[sub.len() - 1] == input@[end - 1]);
            assert(sub.drop_last() =~= input@.subrange(start as int, end as int - 1));
        }
        end -= 1;
    }
    proof {
        if end == start {
            assert(input@.subrange(start as int, end as int) =~= Seq::<char>::empty());
        } else {
            let sub = input@.subrange(start as int, end as int);
            assert(sub[sub.len() - 1] == input@[end as int - 1]);
        }
        assert(spec_trimmed(input@) == input@.subrange(start as int, end as int));
    }
    if end - start == 1 {
        let c = input.get_char(start);
        proof {
            assert(input@.subrange(start as int, end as int) =~= seq![input@[start as int]]);
            if input@[start as int] == 'y' {
                assert(seq![input@[start as int]] =~= seq!['y']);
            }
            if input@[start as int] == 'Y' {
                assert(seq![input@[start as int]] =~= seq!['Y']);
            }
            assert(seq![input@[start as int]][0] == input@[start as int]);
            assert(seq!['y'][0] == 'y');
            assert(seq!['Y'][0] == 'Y');
        }
        c == 'y' || c == 'Y'
    } else {
        proof {
            assert(input@.subrange(start as int, end as int).len() != 1);
            assert(seq!['y'].len() == 1);
            assert(seq!['Y'].len() == 1);
        }
        false
    }
}

/// Decides a confirmation. A true `default` confirms unconditionally —
/// the response is never consulted; otherwise only an affirmative
/// response confirms, and anything else declines.
pub fn confirm_decision(default: bool, response: &str) -> (r: bool)
    ensures
        r == (default || is_affirmative(response@)),
{
    if default {
        true
    } else {
        affirmative(response)
    }
}

} // verus!
