use vstd::prelude::*;
use crate::text::{escape, escape_char, push_escaped, push_escaped_char, push_str};

verus! {

/// How many copies of `c` stand in a row from `i`, not reaching past `hi`.
pub open spec fn run_len(s: Seq<char>, c: char, i: int, hi: int) -> nat
    decreases hi - i,
{
    if 0 <= i < hi && i < s.len() && s[i] == c {
        1 + run_len(s, c, i + 1, hi)
    } else {
        0
    }
}

/// A run of exactly `k` copies of `c` that nothing of `c` precedes starts at `p`.
pub open spec fn run_at(s: Seq<char>, c: char, k: nat, p: int, hi: int) -> bool {
    &&& 0 <= p < hi
    &&& p < s.len()
    &&& s[p] == c
    &&& (p == 0 || s[p - 1] != c)
    &&& run_len(s, c, p, hi) == k
}

/// The first `p` in `[from, hi)` where such a run starts; `hi` when there is none.
pub open spec fn find_run(s: Seq<char>, c: char, k: nat, from: int, hi: int) -> int
    decreases hi - from,
{
    if from >= hi {
        hi
    } else if run_at(s, c, k, from, hi) {
        from
    } else {
        find_run(s, c, k, from + 1, hi)
    }
}

/// The first `p` in `[from, hi)` with `s[p] == c`; `hi` when there is none.
pub open spec fn find_char(s: Seq<char>, c: char, from: int, hi: int) -> int
    decreases hi - from,
{
    if from >= hi {
        hi
    } else if 0 <= from < s.len() && s[from] == c {
        from
    } else {
        find_char(s, c, from + 1, hi)
    }
}

pub open spec fn is_emphasis_char(c: char) -> bool {
    c == '*' || c == '_'
}

pub open spec fn emphasis_open(k: nat) -> Seq<char> {
    if k == 1 { "<em>"@ } else { "<strong>"@ }
}

pub open spec fn emphasis_close(k: nat) -> Seq<char> {
    if k == 1 { "</em>"@ } else { "</strong>"@ }
}

/// The HTML for the inline content `s[i..hi]`.
///
/// Code spans, emphasis and links are recognised from the left; a delimiter
/// that finds no partner within the range is rendered as literal text.
/// - A backtick run pairs with the next backtick run of the same length; what
///   lies between is escaped and not parsed further.
/// - A run of `*` or `_` pairs with the nearest later run of the same character
///   and the same length: one delimiter gives emphasis, two or more give strong.
/// - `[text](target)` gives a link; any other bracket is literal.
pub open spec fn inline_html(s: Seq<char>, i: int, hi: int) -> Seq<char>
    decreases hi - i,
{
    if i < 0 || i >= hi || hi > s.len() {
        Seq::empty()
    } else {
        let c = s[i];
        if c == '`' {
            let k = run_len(s, c, i, hi);
            let p = find_run(s, c, k, i + k, hi);
            if k < 1 || i + k > hi {
                Seq::empty()
            } else if i + k <= p < hi && p + k <= hi {
                "<code>"@ + escape(s.subrange(i + k, p)) + "</code>"@ + inline_html(s, p + k, hi)
            } else {
                escape(s.subrange(i, i + k)) + inline_html(s, i + k, hi)
            }
        } else if is_emphasis_char(c) {
            let k = run_len(s, c, i, hi);
            let p = find_run(s, c, k, i + k, hi);
            if k < 1 || i + k > hi {
                Seq::empty()
            } else if i + k <= p < hi && p + k <= hi {
                emphasis_open(k) + inline_html(s, i + k, p) + emphasis_close(k) + inline_html(s, p + k, hi)
            } else {
                s.subrange(i, i + k) + inline_html(s, i + k, hi)
            }
        } else if c == '[' {
            let q = find_char(s, ']', i + 1, hi);
            let r = find_char(s, ')', q + 2, hi);
            if i < q && q + 1 < hi && s[q + 1] == '(' && q + 2 <= r < hi {
                "<a href=\""@ + escape(s.subrange(q + 2, r)) + "\">"@ + inline_html(s, i + 1, q)
                    + "</a>"@ + inline_html(s, r + 1, hi)
            } else {
                seq!['['] + inline_html(s, i + 1, hi)
            }
        } else {
            escape_char(c) + inline_html(s, i + 1, hi)
        }
    }
}

pub(crate) proof fn lemma_run_len_bound(s: Seq<char>, c: char, i: int, hi: int)
    ensures
        run_len(s, c, i, hi) <= if i < hi { hi - i } else { 0 },
        forall|j: int| i <= j < i + run_len(s, c, i, hi) ==> s[j] == c,
    decreases hi - i,
{
    if 0 <= i < hi && i < s.len() && s[i] == c {
        lemma_run_len_bound(s, c, i + 1, hi);
    }
}

proof fn lemma_find_run_range(s: Seq<char>, c: char, k: nat, from: int, hi: int)
    ensures
        from < hi ==> from <= find_run(s, c, k, from, hi) <= hi,
        from >= hi ==> find_run(s, c, k, from, hi) == hi,
        find_run(s, c, k, from, hi) < hi ==> run_at(s, c, k, find_run(s, c, k, from, hi), hi),
    decreases hi - from,
{
    if from < hi && !run_at(s, c, k, from, hi) {
        lemma_find_run_range(s, c, k, from + 1, hi);
    }
    if from < hi && run_at(s, c, k, from, hi) {
        lemma_run_len_bound(s, c, from, hi);
    }
}

pub(crate) proof fn lemma_find_char_range(s: Seq<char>, c: char, from: int, hi: int)
    ensures
        from < hi ==> from <= find_char(s, c, from, hi) <= hi,
        from >= hi ==> find_char(s, c, from, hi) == hi,
    decreases hi - from,
{
    if from < hi && !(0 <= from < s.len() && s[from] == c) {
        lemma_find_char_range(s, c, from + 1, hi);
    }
}

pub(crate) fn run_len_exec(s: &Vec<char>, c: char, i: usize, hi: usize) -> (r: usize)
    requires
        i <= hi <= s@.len(),
    ensures
        r == run_len(s@, c, i as int, hi as int),
        i + r <= hi,
{
    let mut j: usize = i;
    while j < hi && s[j] == c
        invariant
            i <= j <= hi <= s@.len(),
            run_len(s@, c, i as int, hi as int) == (j - i) + run_len(s@, c, j as int, hi as int),
        decreases hi - j,
    {
        j = j + 1;
    }
    j - i
}

fn find_run_exec(s: &Vec<char>, c: char, k: usize, from: usize, hi: usize) -> (p: usize)
    requires
        from <= hi <= s@.len(),
    ensures
        p == find_run(s@, c, k as nat, from as int, hi as int),
        from <= p <= hi,
{
    let mut p: usize = from;
    while p < hi
        invariant
            from <= p <= hi <= s@.len(),
            find_run(s@, c, k as nat, from as int, hi as int) == find_run(s@, c, k as nat, p as int, hi as int),
        decreases hi - p,
    {
        if s[p] == c && (p == 0 || s[p - 1] != c) && run_len_exec(s, c, p, hi) == k {
            return p;
        }
        p = p + 1;
    }
    p
}

pub(crate) fn find_char_exec(s: &Vec<char>, c: char, from: usize, hi: usize) -> (p: usize)
    requires
        from <= hi <= s@.len(),
    ensures
        p == find_char(s@, c, from as int, hi as int),
        from <= p <= hi,
{
    let mut p: usize = from;
    while p < hi
        invariant
            from <= p <= hi <= s@.len(),
            find_char(s@, c, from as int, hi as int) == find_char(s@, c, p as int, hi as int),
        decreases hi - p,
    {
        if s[p] == c {
            return p;
        }
        p = p + 1;
    }
    p
}

/// Appends the HTML for the inline content `s[lo..hi]`.
pub(crate) fn push_inline(out: &mut String, s: &Vec<char>, lo: usize, hi: usize)
    requires
        lo <= hi <= s@.len(),
    ensures
        final(out)@ == old(out)@ + inline_html(s@, lo as int, hi as int),
    decreases hi - lo, 2nat,
{
    let mut i: usize = lo;
    while i < hi
        invariant
            lo <= i <= hi <= s@.len(),
            old(out)@ + inline_html(s@, lo as int, hi as int) == out@ + inline_html(s@, i as int, hi as int),
        decreases hi - i,
    {
        i = push_token(out, s, i, hi);
    }
}

/// Appends the HTML for the token that starts at `i`; returns where the next one starts.
fn push_token(out: &mut String, s: &Vec<char>, i: usize, hi: usize) -> (next: usize)
    requires
        i < hi <= s@.len(),
    ensures
        i < next <= hi,
        final(out)@ + inline_html(s@, next as int, hi as int) == old(out)@ + inline_html(s@, i as int, hi as int),
    decreases hi - i, 1nat,
{
    let c = s[i];
    if c == '`' || c == '*' || c == '_' {
        push_delimited(out, s, c, i, hi)
    } else if c == '[' {
        push_link(out, s, i, hi)
    } else {
        push_escaped_char(out, c);
        assert(out@ + inline_html(s@, i as int + 1, hi as int) =~= old(out)@ + inline_html(s@, i as int, hi as int));
        i + 1
    }
}

/// A code span or an emphasis span opened by the run of `c` at `i`.
fn push_delimited(out: &mut String, s: &Vec<char>, c: char, i: usize, hi: usize) -> (next: usize)
    requires
        i < hi <= s@.len(),
        s@[i as int] == c,
        c == '`' || is_emphasis_char(c),
    ensures
        i < next <= hi,
        final(out)@ + inline_html(s@, next as int, hi as int) == old(out)@ + inline_html(s@, i as int, hi as int),
    decreases hi - i, 0nat,
{
    let k = run_len_exec(s, c, i, hi);
    let p = find_run_exec(s, c, k, i + k, hi);
    proof {
        lemma_run_len_bound(s@, c, i as int, hi as int);
        lemma_find_run_range(s@, c, k as nat, (i + k) as int, hi as int);
        if p < hi {
            lemma_run_len_bound(s@, c, p as int, hi as int);
        }
    }
    if p < hi {
        if c == '`' {
            push_str(out, "<code>");
            push_escaped(out, s, i + k, p);
            push_str(out, "</code>");
        } else {
            if k == 1 {
                push_str(out, "<em>");
            } else {
                push_str(out, "<strong>");
            }
            push_inline(out, s, i + k, p);
            if k == 1 {
                push_str(out, "</em>");
            } else {
                push_str(out, "</strong>");
            }
        }
        assert(out@ + inline_html(s@, (p + k) as int, hi as int) =~= old(out)@ + inline_html(s@, i as int, hi as int));
        p + k
    } else {
        let j = i + k;
        if c == '`' {
            push_escaped(out, s, i, j);
        } else {
            push_literal(out, s, c, i, j);
        }
        assert(out@ + inline_html(s@, j as int, hi as int) =~= old(out)@ + inline_html(s@, i as int, hi as int));
        j
    }
}

/// A link `[text](target)` opened by the bracket at `i`, or a literal bracket.
fn push_link(out: &mut String, s: &Vec<char>, i: usize, hi: usize) -> (next: usize)
    requires
        i < hi <= s@.len(),
        s@[i as int] == '[',
    ensures
        i < next <= hi,
        final(out)@ + inline_html(s@, next as int, hi as int) == old(out)@ + inline_html(s@, i as int, hi as int),
    decreases hi - i, 0nat,
{
    let q = find_char_exec(s, ']', i + 1, hi);
    if q < hi && hi - q > 1 && s[q + 1] == '(' {
        let r = find_char_exec(s, ')', q + 2, hi);
        if r < hi {
            push_str(out, "<a href=\"");
            push_escaped(out, s, q + 2, r);
            push_str(out, "\">");
            push_inline(out, s, i + 1, q);
            push_str(out, "</a>");
            assert(out@ + inline_html(s@, r as int + 1, hi as int) =~= old(out)@ + inline_html(s@, i as int, hi as int));
            return r + 1;
        }
    } else {
        proof {
            lemma_find_char_range(s@, ')', q as int + 2, hi as int);
        }
    }
    push_str(out, "[");
    proof {
        reveal_strlit("[");
    }
    assert(out@ + inline_html(s@, i as int + 1, hi as int) =~= old(out)@ + inline_html(s@, i as int, hi as int));
    i + 1
}

/// Appends `s[lo..hi]` unchanged.
fn push_literal(out: &mut String, s: &Vec<char>, c: char, lo: usize, hi: usize)
    requires
        lo <= hi <= s@.len(),
        is_emphasis_char(c),
        forall|j: int| lo <= j < hi ==> s@[j] == c,
    ensures
        final(out)@ == old(out)@ + s@.subrange(lo as int, hi as int),
{
    let mut i: usize = lo;
    while i < hi
        invariant
            lo <= i <= hi <= s@.len(),
            is_emphasis_char(c),
            forall|j: int| lo <= j < hi ==> s@[j] == c,
            out@ == old(out)@ + s@.subrange(lo as int, i as int),
        decreases hi - i,
    {
        if c == '*' {
            push_str(out, "*");
        } else {
            push_str(out, "_");
        }
        proof {
            reveal_strlit("*");
            reveal_strlit("_");
        }
        i = i + 1;
        assert(out@ =~= old(out)@ + s@.subrange(lo as int, i as int));
    }
}

} // verus!

verus! {

/// The HTML for a piece of inline Markdown text.
pub fn render_inline(text: &str) -> (r: String)
    ensures
        r@ == inline_html(text@, 0, text@.len() as int),
{
    let s = crate::text::chars_of(text);
    let mut out = String::new();
    push_inline(&mut out, &s, 0, s.len());
    out
}

} // verus!
