//! Verified text building blocks: repeated characters, decimal
//! rendering, and field padding.

use vstd::prelude::*;
use vstd::string::{StrSliceExecFns, StringExecFns};

verus! {

/// `n` copies of `c`.
pub open spec fn spec_repeat(c: char, n: nat) -> Seq<char>
    decreases n,
{
    if n == 0 {
        Seq::empty()
    } else {
        spec_repeat(c, (n - 1) as nat).push(c)
    }
}

pub proof fn lemma_repeat_len(c: char, n: nat)
    ensures
        spec_repeat(c, n).len() == n,
    decreases n,
{
    if n > 0 {
        lemma_repeat_len(c, (n - 1) as nat);
    }
}

/// Builds `n` copies of the single character in `part`.
fn repeat_str(part: &str, n: usize) -> (s: String)
    requires
        part@.len() == 1,
    ensures
        s@ == spec_repeat(part@[0], n as nat),
{
    let mut s = String::new();
    let mut i: usize = 0;
    while i < n
        invariant
            part@.len() == 1,
            i <= n,
            s@ == spec_repeat(part@[0], i as nat),
        decreases n - i,
    {
        s.append(part);
        proof {
            assert(s@ =~= spec_repeat(part@[0], (i + 1) as nat));
        }
        i += 1;
    }
    s
}

/// `n` spaces.
pub fn spaces(n: usize) -> (s: String)
    ensures
        s@ == spec_repeat(' ', n as nat),
{
    proof {
        reveal_strlit(" ");
    }
    repeat_str(" ", n)
}

/// `n` dashes.
pub fn dashes(n: usize) -> (s: String)
    ensures
        s@ == spec_repeat('-', n as nat),
{
    proof {
        reveal_strlit("-");
    }
    repeat_str("-", n)
}

/// The decimal digit character for `d` below ten.
pub open spec fn spec_digit_char(d: nat) -> char {
    if d == 0 {
        '0'
    } else if d == 1 {
        '1'
    } else if d == 2 {
        '2'
    } else if d == 3 {
        '3'
    } else if d == 4 {
        '4'
    } else if d == 5 {
        '5'
    } else if d == 6 {
        '6'
    } else if d == 7 {
        '7'
    } else if d == 8 {
        '8'
    } else {
        '9'
    }
}

/// Decimal digits of `n`, most significant first, without leading zeros;
/// zero itself is the single digit '0'.
pub open spec fn spec_decimal(n: nat) -> Seq<char>
    decreases n,
{
    if n < 10 {
        seq![spec_digit_char(n)]
    } else {
        spec_decimal(n / 10).push(spec_digit_char(n % 10))
    }
}

/// The one-character string for digit `d`.
fn digit_str(d: u64) -> (s: &'static str)
    requires
        d < 10,
    ensures
        s@ == seq![spec_digit_char(d as nat)],
{
    let s: &'static str = if d == 0 {
        "0"
    } else if d == 1 {
        "1"
    } else if d == 2 {
        "2"
    } else if d == 3 {
        "3"
    } else if d == 4 {
        "4"
    } else if d == 5 {
        "5"
    } else if d == 6 {
        "6"
    } else if d == 7 {
        "7"
    } else if d == 8 {
        "8"
    } else {
        "9"
    };
    proof {
        reveal_strlit("0");
        reveal_strlit("1");
        reveal_strlit("2");
        reveal_strlit("3");
        reveal_strlit("4");
        reveal_strlit("5");
        reveal_strlit("6");
        reveal_strlit("7");
        reveal_strlit("8");
        reveal_strlit("9");
        assert(s@ =~= seq![spec_digit_char(d as nat)]);
    }
    s
}

/// Renders `n` in decimal.
pub fn u64_to_string(n: u64) -> (s: String)
    ensures
        s@ == spec_decimal(n as nat),
    decreases n,
{
    if n < 10 {
        String::from_str(digit_str(n))
    } else {
        let mut s = u64_to_string(n / 10);
        s.append(digit_str(n % 10));
        proof {
            assert(s@ =~= spec_decimal(n as nat));
        }
        s
    }
}

/// `s` left-aligned in a field `width` wide; a longer value keeps its
/// full length.
pub open spec fn spec_pad_right(s: Seq<char>, width: nat) -> Seq<char> {
    if s.len() >= width {
        s
    } else {
        s + spec_repeat(' ', (width - s.len()) as nat)
    }
}

/// `s` right-aligned in a field `width` wide; a longer value keeps its
/// full length.
pub open spec fn spec_pad_left(s: Seq<char>, width: nat) -> Seq<char> {
    if s.len() >= width {
        s
    } else {
        spec_repeat(' ', (width - s.len()) as nat) + s
    }
}

/// A padded field is exactly `width` wide whenever the value fits.
pub proof fn lemma_pad_width(s: Seq<char>, width: nat)
    requires
        s.len() <= width,
    ensures
        spec_pad_right(s, width).len() == width,
        spec_pad_left(s, width).len() == width,
{
    lemma_repeat_len(' ', (width - s.len()) as nat);
}

pub fn pad_right(s: &str, width: usize) -> (r: String)
    ensures
        r@ == spec_pad_right(s@, width as nat),
{
    let l = s.unicode_len();
    if l >= width {
        String::from_str(s)
    } else {
        let mut r = String::from_str(s);
        let sp = spaces(width - l);
        r.append(sp.as_str());
        r
    }
}

pub fn pad_left(s: &str, width: usize) -> (r: String)
    ensures
        r@ == spec_pad_left(s@, width as nat),
{
    let l = s.unicode_len();
    if l >= width {
        String::from_str(s)
    } else {
        let mut r = spaces(width - l);
        r.append(s);
        r
    }
}

} // verus!
