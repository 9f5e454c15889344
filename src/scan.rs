use vstd::prelude::*;
use crate::text::{is_space, is_white_space};

verus! {

/// The first index in `[i, hi)` that holds no white space; `hi` when there is none.
pub open spec fn skip_spaces(s: Seq<char>, i: int, hi: int) -> int
    decreases hi - i,
{
    if 0 <= i < hi && i < s.len() && is_space(s[i]) {
        skip_spaces(s, i + 1, hi)
    } else {
        i
    }
}

/// The end of `s[lo..hi]` once its trailing white space is removed.
pub open spec fn trim_end(s: Seq<char>, lo: int, hi: int) -> int
    decreases hi - lo,
{
    if lo < hi && 0 < hi <= s.len() && is_space(s[hi - 1]) {
        trim_end(s, lo, hi - 1)
    } else {
        hi
    }
}

pub open spec fn is_digit(c: char) -> bool {
    '0' <= c <= '9'
}

/// How many decimal digits stand in a row from `i`, not reaching past `hi`.
pub open spec fn digit_run(s: Seq<char>, i: int, hi: int) -> nat
    decreases hi - i,
{
    if 0 <= i < hi && i < s.len() && is_digit(s[i]) {
        1 + digit_run(s, i + 1, hi)
    } else {
        0
    }
}

/// The end of the run of `>` and spaces that starts at `i`.
pub open spec fn quote_prefix_end(s: Seq<char>, i: int, hi: int) -> int
    decreases hi - i,
{
    if 0 <= i < hi && i < s.len() && (s[i] == '>' || s[i] == ' ') {
        quote_prefix_end(s, i + 1, hi)
    } else {
        i
    }
}

/// How many times `c` occurs in `s[lo..hi]`.
pub open spec fn count_char(s: Seq<char>, c: char, lo: int, hi: int) -> nat
    decreases hi - lo,
{
    if lo < hi && 0 < hi <= s.len() {
        count_char(s, c, lo, hi - 1) + if s[hi - 1] == c { 1nat } else { 0nat }
    } else {
        0
    }
}

pub fn skip_spaces_exec(s: &Vec<char>, i: usize, hi: usize) -> (r: usize)
    requires
        i <= hi <= s@.len(),
    ensures
        r == skip_spaces(s@, i as int, hi as int),
        i <= r <= hi,
{
    let mut j: usize = i;
    while j < hi && is_white_space(s[j])
        invariant
            i <= j <= hi <= s@.len(),
            skip_spaces(s@, i as int, hi as int) == skip_spaces(s@, j as int, hi as int),
        decreases hi - j,
    {
        j = j + 1;
    }
    j
}

pub fn trim_end_exec(s: &Vec<char>, lo: usize, hi: usize) -> (r: usize)
    requires
        lo <= hi <= s@.len(),
    ensures
        r == trim_end(s@, lo as int, hi as int),
        lo <= r <= hi,
{
    let mut j: usize = hi;
    while j > lo && is_white_space(s[j - 1])
        invariant
            lo <= j <= hi <= s@.len(),
            trim_end(s@, lo as int, hi as int) == trim_end(s@, lo as int, j as int),
        decreases j,
    {
        j = j - 1;
    }
    j
}

pub fn digit_run_exec(s: &Vec<char>, i: usize, hi: usize) -> (r: usize)
    requires
        i <= hi <= s@.len(),
    ensures
        r == digit_run(s@, i as int, hi as int),
        i + r <= hi,
{
    let mut j: usize = i;
    while j < hi && '0' <= s[j] && s[j] <= '9'
        invariant
            i <= j <= hi <= s@.len(),
            digit_run(s@, i as int, hi as int) == (j - i) + digit_run(s@, j as int, hi as int),
        decreases hi - j,
    {
        j = j + 1;
    }
    j - i
}

pub fn quote_prefix_end_exec(s: &Vec<char>, i: usize, hi: usize) -> (r: usize)
    requires
        i <= hi <= s@.len(),
    ensures
        r == quote_prefix_end(s@, i as int, hi as int),
        i <= r <= hi,
{
    let mut j: usize = i;
    while j < hi && (s[j] == '>' || s[j] == ' ')
        invariant
            i <= j <= hi <= s@.len(),
            quote_prefix_end(s@, i as int, hi as int) == quote_prefix_end(s@, j as int, hi as int),
        decreases hi - j,
    {
        j = j + 1;
    }
    j
}

pub fn count_char_exec(s: &Vec<char>, c: char, lo: usize, hi: usize) -> (r: usize)
    requires
        lo <= hi <= s@.len(),
    ensures
        r == count_char(s@, c, lo as int, hi as int),
{
    let mut j: usize = lo;
    let mut n: usize = 0;
    while j < hi
        invariant
            lo <= j <= hi <= s@.len(),
            n == count_char(s@, c, lo as int, j as int),
            n <= j - lo,
        decreases hi - j,
    {
        if s[j] == c {
            n = n + 1;
        }
        j = j + 1;
    }
    n
}

} // verus!
