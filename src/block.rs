use vstd::prelude::*;
use crate::context::{initial_view, ContextView, ListKind, ListLevel, TableState};
use crate::spans::{inline_html, run_len};
use crate::scan::{count_char, digit_run, quote_prefix_end, skip_spaces, trim_end};
use crate::text::{escape, is_space};

verus! {

/// What a rendered line was recognised as.
#[derive(Clone, Copy, Debug, PartialEq, Eq, Structural)]
pub enum LineKind {
    Blank,
    Heading,
    Paragraph,
    FenceOpen,
    FenceClose,
    Code,
    ListItem,
    Quote,
    TableRow,
    TableDelimiter,
}

/// The mathematical value of a rendered line.
pub struct LineOutcome {
    pub html: Seq<char>,
    pub context: ContextView,
    pub kind: LineKind,
}

/// The inline HTML of `s[a..hi]` with its surrounding white space removed.
pub open spec fn content_html(s: Seq<char>, a: int, hi: int) -> Seq<char> {
    let b = skip_spaces(s, a, hi);
    inline_html(s, b, trim_end(s, b, hi))
}

/// A line that is empty or holds only white space.
pub open spec fn is_blank(s: Seq<char>) -> bool {
    forall|j: int| 0 <= j < s.len() ==> is_space(#[trigger] s[j])
}

pub open spec fn indent_of(s: Seq<char>) -> nat {
    run_len(s, ' ', 0, s.len() as int)
}

// ---- fences ----

pub open spec fn is_fence_char(c: char) -> bool {
    c == '`' || c == '~'
}

/// At most three spaces, then a run of three or more backticks or tildes.
pub open spec fn opens_fence(s: Seq<char>) -> bool {
    let ind = indent_of(s);
    &&& ind <= 3
    &&& ind < s.len()
    &&& is_fence_char(s[ind as int])
    &&& run_len(s, s[ind as int], ind as int, s.len() as int) >= 3
}

/// At most three spaces, a run of at least `len` copies of `c`, then only white space.
pub open spec fn closes_fence(s: Seq<char>, c: char, len: nat) -> bool {
    let ind = indent_of(s) as int;
    let k = run_len(s, c, ind, s.len() as int) as int;
    &&& ind <= 3
    &&& ind < s.len()
    &&& s[ind as int] == c
    &&& k >= len
    &&& skip_spaces(s, ind + k, s.len() as int) == s.len()
}

/// The language tag written after an opening fence marker, if any.
pub open spec fn fence_lang(s: Seq<char>) -> Option<Seq<char>> {
    let ind = indent_of(s) as int;
    let k = run_len(s, s[ind], ind, s.len() as int) as int;
    let a = skip_spaces(s, ind + k, s.len() as int);
    let b = trim_end(s, a, s.len() as int);
    if a < b { Some(s.subrange(a, b)) } else { None }
}

pub open spec fn fence_open_outcome(s: Seq<char>) -> LineOutcome {
    let ind = indent_of(s);
    let c = s[ind as int];
    let lang = fence_lang(s);
    LineOutcome {
        html: match lang {
            Some(l) => "<pre><code class=\"language-"@ + escape(l) + "\">"@,
            None => "<pre><code>"@,
        },
        context: ContextView {
            in_fence: true,
            fence_char: c,
            fence_len: run_len(s, c, ind as int, s.len() as int),
            fence_lang: lang,
            ..initial_view()
        },
        kind: LineKind::FenceOpen,
    }
}

// ---- headings ----

pub open spec fn heading_level(s: Seq<char>) -> nat {
    run_len(s, '#', 0, s.len() as int)
}

/// One to six `#`, then a space.
pub open spec fn is_heading(s: Seq<char>) -> bool {
    let h = heading_level(s);
    1 <= h <= 6 && h < s.len() && s[h as int] == ' '
}

pub open spec fn heading_open(h: nat) -> Seq<char> {
    if h == 1 { "<h1>"@ } else if h == 2 { "<h2>"@ } else if h == 3 { "<h3>"@ }
    else if h == 4 { "<h4>"@ } else if h == 5 { "<h5>"@ } else { "<h6>"@ }
}

pub open spec fn heading_close(h: nat) -> Seq<char> {
    if h == 1 { "</h1>"@ } else if h == 2 { "</h2>"@ } else if h == 3 { "</h3>"@ }
    else if h == 4 { "</h4>"@ } else if h == 5 { "</h5>"@ } else { "</h6>"@ }
}

pub open spec fn heading_outcome(s: Seq<char>) -> LineOutcome {
    let h = heading_level(s);
    LineOutcome {
        html: heading_open(h) + content_html(s, h as int, s.len() as int) + heading_close(h),
        context: initial_view(),
        kind: LineKind::Heading,
    }
}

// ---- blockquotes ----

pub open spec fn repeat(t: Seq<char>, n: nat) -> Seq<char>
    decreases n,
{
    if n == 0 { Seq::empty() } else { repeat(t, (n - 1) as nat) + t }
}

/// The number of `>` markers at the start of a quote line.
pub open spec fn quote_depth_of(s: Seq<char>) -> nat {
    count_char(s, '>', 0, quote_prefix_end(s, 0, s.len() as int))
}

pub open spec fn quote_outcome(s: Seq<char>) -> LineOutcome {
    let m = quote_prefix_end(s, 0, s.len() as int);
    let d = quote_depth_of(s);
    LineOutcome {
        html: repeat("<blockquote>"@, d) + content_html(s, m, s.len() as int) + repeat("</blockquote>"@, d),
        context: ContextView { quote_depth: d, ..initial_view() },
        kind: LineKind::Quote,
    }
}

// ---- list items ----

pub open spec fn is_bullet_char(c: char) -> bool {
    c == '-' || c == '*' || c == '+'
}

/// Indent, then `-`, `*` or `+`, then a space.
pub open spec fn is_bullet_item(s: Seq<char>) -> bool {
    let w = indent_of(s) as int;
    w + 1 < s.len() && is_bullet_char(s[w]) && s[w + 1] == ' '
}

/// Indent, then one to nine digits, then `.` or `)`, then a space.
pub open spec fn is_ordered_item(s: Seq<char>) -> bool {
    let w = indent_of(s) as int;
    let d = digit_run(s, w, s.len() as int) as int;
    &&& 1 <= d <= 9
    &&& w + d + 1 < s.len()
    &&& (s[w + d] == '.' || s[w + d] == ')')
    &&& s[w + d + 1] == ' '
}

pub open spec fn is_list_item(s: Seq<char>) -> bool {
    is_bullet_item(s) || is_ordered_item(s)
}

/// The stack with every level indented deeper than `w` closed.
pub open spec fn pop_deeper(st: Seq<ListLevel>, w: usize) -> Seq<ListLevel>
    decreases st.len(),
{
    if st.len() > 0 && st.last().indent > w {
        pop_deeper(st.drop_last(), w)
    } else {
        st
    }
}

/// The stack after an item of level `l`: deeper levels close; a level of the
/// same indent is replaced; otherwise `l` opens a new, deeper level.
pub open spec fn enter_level(st: Seq<ListLevel>, l: ListLevel) -> Seq<ListLevel> {
    let t = pop_deeper(st, l.indent);
    if t.len() > 0 && t.last().indent == l.indent {
        t.drop_last().push(l)
    } else {
        t.push(l)
    }
}

pub open spec fn list_outcome(s: Seq<char>, ctx: ContextView) -> LineOutcome {
    let w = indent_of(s) as int;
    let d = digit_run(s, w, s.len() as int) as int;
    let n = s.len() as int;
    let bullet = is_bullet_item(s);
    let level = ListLevel { kind: if bullet { ListKind::Bullet } else { ListKind::Ordered }, indent: w as usize };
    LineOutcome {
        html: if bullet {
            "<li>"@ + content_html(s, w + 2, n) + "</li>"@
        } else {
            "<li value=\""@ + s.subrange(w, w + d) + "\">"@ + content_html(s, w + d + 2, n) + "</li>"@
        },
        context: ContextView { list_stack: enter_level(ctx.list_stack, level), ..initial_view() },
        kind: LineKind::ListItem,
    }
}

// ---- tables ----

pub open spec fn is_table_row(s: Seq<char>) -> bool {
    s.len() > 0 && s[0] == '|'
}

pub open spec fn is_delimiter_char(c: char) -> bool {
    c == '|' || c == '-' || c == ':' || c == ' '
}

/// A row of pipes, dashes, colons and spaces with at least one dash.
pub open spec fn is_delimiter_row(s: Seq<char>) -> bool {
    &&& forall|j: int| 0 <= j < s.len() ==> is_delimiter_char(#[trigger] s[j])
    &&& exists|j: int| 0 <= j < s.len() && #[trigger] s[j] == '-'
}

/// The end of a row's cells: before a closing pipe, if there is one.
pub open spec fn row_end(s: Seq<char>) -> int {
    if s.len() >= 2 && s[s.len() - 1] == '|' { s.len() - 1 } else { s.len() as int }
}

pub open spec fn cell_open(header: bool) -> Seq<char> {
    if header { "<th>"@ } else { "<td>"@ }
}

pub open spec fn cell_close(header: bool) -> Seq<char> {
    if header { "</th>"@ } else { "</td>"@ }
}

/// The cells of `s[lo..hi]`, split at each pipe.
pub open spec fn cells(s: Seq<char>, lo: int, hi: int, header: bool) -> Seq<char>
    decreases hi - lo,
{
    let p = crate::spans::find_char(s, '|', lo, hi);
    let cell = cell_open(header) + content_html(s, lo, p) + cell_close(header);
    if lo <= p < hi { cell + cells(s, p + 1, hi, header) } else { cell }
}

pub open spec fn table_outcome(s: Seq<char>, ctx: ContextView) -> LineOutcome {
    if ctx.table == TableState::Header && is_delimiter_row(s) {
        LineOutcome {
            html: Seq::empty(),
            context: ContextView { table: TableState::Body, ..initial_view() },
            kind: LineKind::TableDelimiter,
        }
    } else {
        let header = ctx.table != TableState::Body;
        LineOutcome {
            html: "<tr>"@ + cells(s, 1, row_end(s), header) + "</tr>"@,
            context: ContextView {
                table: if header { TableState::Header } else { TableState::Body },
                ..initial_view()
            },
            kind: LineKind::TableRow,
        }
    }
}

/// The fence fields agree with the fence flag: an open fence has a backtick or
/// tilde marker of at least three characters; with no open fence the marker
/// length is 0 and there is no language tag.
pub open spec fn context_wf(ctx: ContextView) -> bool {
    if ctx.in_fence {
        is_fence_char(ctx.fence_char) && ctx.fence_len >= 3
    } else {
        ctx.fence_len == 0 && ctx.fence_lang is None
    }
}

// ---- the line ----

pub open spec fn paragraph_outcome(s: Seq<char>, ctx: ContextView) -> LineOutcome {
    LineOutcome {
        html: "<p>"@ + content_html(s, 0, s.len() as int) + "</p>"@,
        context: ContextView { list_stack: ctx.list_stack, ..initial_view() },
        kind: LineKind::Paragraph,
    }
}

/// The rendering of line `s` entered with context `ctx`.
pub open spec fn render_line(s: Seq<char>, ctx: ContextView) -> LineOutcome {
    if ctx.in_fence {
        if closes_fence(s, ctx.fence_char, ctx.fence_len) {
            LineOutcome { html: "</code></pre>"@, context: initial_view(), kind: LineKind::FenceClose }
        } else {
            LineOutcome { html: escape(s), context: ctx, kind: LineKind::Code }
        }
    } else if opens_fence(s) {
        fence_open_outcome(s)
    } else if is_blank(s) {
        LineOutcome { html: Seq::empty(), context: initial_view(), kind: LineKind::Blank }
    } else if is_heading(s) {
        heading_outcome(s)
    } else if s.len() > 0 && s[0] == '>' {
        quote_outcome(s)
    } else if is_list_item(s) {
        list_outcome(s, ctx)
    } else if is_table_row(s) {
        table_outcome(s, ctx)
    } else {
        paragraph_outcome(s, ctx)
    }
}

} // verus!
