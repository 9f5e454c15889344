use vstd::prelude::*;
use crate::block::{
    cells, closes_fence, content_html, enter_level, fence_open_outcome, heading_outcome, indent_of,
    is_blank, is_bullet_item, is_delimiter_char, is_delimiter_row, is_heading, is_list_item,
    is_ordered_item, is_table_row, list_outcome, opens_fence, paragraph_outcome, pop_deeper,
    quote_outcome, render_line, repeat, table_outcome, LineKind, LineOutcome,
};
use crate::context::{initial_view, ContextView, ListKind, ListLevel, RenderContext, TableState};
use crate::scan::{
    count_char_exec, digit_run_exec, quote_prefix_end_exec, skip_spaces_exec, trim_end_exec,
};
use crate::spans::{find_char_exec, push_inline, run_len_exec};
use crate::text::{chars_of, push_escaped, push_range, push_str};

verus! {

/// One line to render, with the context that the line before it left.
#[derive(Clone, Debug, PartialEq, Eq)]
pub struct RenderRequest {
    /// The line's position; it is handed back in the result and affects nothing else.
    pub line_index: usize,
    pub line: String,
    pub context: RenderContext,
}

/// A rendered line: its HTML, the context for the next line, and its kind.
#[derive(Clone, Debug, PartialEq, Eq)]
pub struct LineRenderResult {
    pub line_index: usize,
    pub html: String,
    pub context: RenderContext,
    pub kind: LineKind,
}

pub struct RequestView {
    pub line_index: nat,
    pub line: Seq<char>,
    pub context: ContextView,
}

pub struct ResultView {
    pub line_index: nat,
    pub html: Seq<char>,
    pub context: ContextView,
    pub kind: LineKind,
}

impl View for RenderRequest {
    type V = RequestView;

    open spec fn view(&self) -> RequestView {
        RequestView { line_index: self.line_index as nat, line: self.line@, context: self.context@ }
    }
}

impl View for LineRenderResult {
    type V = ResultView;

    open spec fn view(&self) -> ResultView {
        ResultView {
            line_index: self.line_index as nat,
            html: self.html@,
            context: self.context@,
            kind: self.kind,
        }
    }
}

/// The result owed for a request.
pub open spec fn render_request(r: RequestView) -> ResultView {
    let o = render_line(r.line, r.context);
    ResultView { line_index: r.line_index, html: o.html, context: o.context, kind: o.kind }
}

pub open spec fn outcome_of(html: String, ctx: RenderContext, kind: LineKind) -> LineOutcome {
    LineOutcome { html: html@, context: ctx@, kind }
}

fn blank_context() -> (r: RenderContext)
    ensures
        r@ == initial_view(),
{
    RenderContext::initial()
}

fn indent_exec(s: &Vec<char>) -> (r: usize)
    ensures
        r == indent_of(s@),
        r <= s@.len(),
{
    run_len_exec(s, ' ', 0, s.len())
}

fn push_content(out: &mut String, s: &Vec<char>, a: usize, hi: usize)
    requires
        a <= hi <= s@.len(),
    ensures
        final(out)@ == old(out)@ + content_html(s@, a as int, hi as int),
{
    let b = skip_spaces_exec(s, a, hi);
    let e = trim_end_exec(s, b, hi);
    push_inline(out, s, b, e);
}

fn opens_fence_exec(s: &Vec<char>) -> (r: bool)
    ensures
        r == opens_fence(s@),
{
    let ind = indent_exec(s);
    ind <= 3 && ind < s.len() && (s[ind] == '`' || s[ind] == '~') && run_len_exec(s, s[ind], ind, s.len()) >= 3
}

fn closes_fence_exec(s: &Vec<char>, c: char, len: usize) -> (r: bool)
    ensures
        r == closes_fence(s@, c, len as nat),
{
    let ind = indent_exec(s);
    if ind <= 3 && ind < s.len() && s[ind] == c {
        let k = run_len_exec(s, c, ind, s.len());
        k >= len && skip_spaces_exec(s, ind + k, s.len()) == s.len()
    } else {
        false
    }
}

fn is_blank_exec(s: &Vec<char>) -> (r: bool)
    ensures
        r == is_blank(s@),
{
    let mut i: usize = 0;
    while i < s.len()
        invariant
            i <= s@.len(),
            forall|j: int| 0 <= j < i ==> crate::text::is_space(#[trigger] s@[j]),
        decreases s@.len() - i,
    {
        if !crate::text::is_white_space(s[i]) {
            return false;
        }
        i = i + 1;
    }
    true
}

fn fence_open_exec(s: &Vec<char>) -> (r: (String, RenderContext, LineKind))
    requires
        opens_fence(s@),
    ensures
        outcome_of(r.0, r.1, r.2) == fence_open_outcome(s@),
{
    let n = s.len();
    let ind = indent_exec(s);
    let c = s[ind];
    let k = run_len_exec(s, c, ind, n);
    let a = skip_spaces_exec(s, ind + k, n);
    let b = trim_end_exec(s, a, n);
    let mut html = String::new();
    let lang = if a < b {
        let mut l = String::new();
        push_range(&mut l, s, a, b);
        push_str(&mut html, "<pre><code class=\"language-");
        push_escaped(&mut html, s, a, b);
        push_str(&mut html, "\">");
        Some(l)
    } else {
        push_str(&mut html, "<pre><code>");
        None
    };
    let ctx = RenderContext {
        in_fence: true,
        fence_char: c,
        fence_len: k,
        fence_lang: lang,
        list_stack: Vec::new(),
        quote_depth: 0,
        table: TableState::Outside,
    };
    proof {
        assert(html@ =~= fence_open_outcome(s@).html);
        assert(ctx@.list_stack =~= Seq::<ListLevel>::empty());
    }
    (html, ctx, LineKind::FenceOpen)
}

fn is_heading_exec(s: &Vec<char>) -> (r: bool)
    ensures
        r == is_heading(s@),
{
    let h = run_len_exec(s, '#', 0, s.len());
    1 <= h && h <= 6 && h < s.len() && s[h] == ' '
}

fn heading_exec(s: &Vec<char>) -> (r: (String, RenderContext, LineKind))
    requires
        is_heading(s@),
    ensures
        outcome_of(r.0, r.1, r.2) == heading_outcome(s@),
{
    let h = run_len_exec(s, '#', 0, s.len());
    let mut html = String::new();
    let (open, close) = if h == 1 {
        ("<h1>", "</h1>")
    } else if h == 2 {
        ("<h2>", "</h2>")
    } else if h == 3 {
        ("<h3>", "</h3>")
    } else if h == 4 {
        ("<h4>", "</h4>")
    } else if h == 5 {
        ("<h5>", "</h5>")
    } else {
        ("<h6>", "</h6>")
    };
    push_str(&mut html, open);
    push_content(&mut html, s, h, s.len());
    push_str(&mut html, close);
    (html, blank_context(), LineKind::Heading)
}

fn push_repeat(out: &mut String, t: &str, n: usize)
    ensures
        final(out)@ == old(out)@ + repeat(t@, n as nat),
{
    let mut i: usize = 0;
    while i < n
        invariant
            i <= n,
            out@ == old(out)@ + repeat(t@, i as nat),
        decreases n - i,
    {
        push_str(out, t);
        i = i + 1;
        assert(out@ =~= old(out)@ + repeat(t@, i as nat));
    }
}

fn quote_exec(s: &Vec<char>) -> (r: (String, RenderContext, LineKind))
    ensures
        outcome_of(r.0, r.1, r.2) == quote_outcome(s@),
{
    let n = s.len();
    let m = quote_prefix_end_exec(s, 0, n);
    let d = count_char_exec(s, '>', 0, m);
    let mut html = String::new();
    push_repeat(&mut html, "<blockquote>", d);
    push_content(&mut html, s, m, n);
    push_repeat(&mut html, "</blockquote>", d);
    let mut ctx = blank_context();
    ctx.quote_depth = d;
    (html, ctx, LineKind::Quote)
}

fn is_bullet_item_exec(s: &Vec<char>) -> (r: bool)
    ensures
        r == is_bullet_item(s@),
{
    let w = indent_exec(s);
    w < s.len() && s.len() - w > 1 && (s[w] == '-' || s[w] == '*' || s[w] == '+') && s[w + 1] == ' '
}

fn is_ordered_item_exec(s: &Vec<char>) -> (r: bool)
    ensures
        r == is_ordered_item(s@),
{
    let w = indent_exec(s);
    let d = digit_run_exec(s, w, s.len());
    1 <= d && d <= 9 && s.len() - (w + d) > 1 && (s[w + d] == '.' || s[w + d] == ')') && s[w + d + 1] == ' '
}

fn enter_level_exec(st: &mut Vec<ListLevel>, l: ListLevel)
    ensures
        final(st)@ == enter_level(old(st)@, l),
{
    while st.len() > 0 && st[st.len() - 1].indent > l.indent
        invariant
            pop_deeper(st@, l.indent) == pop_deeper(old(st)@, l.indent),
        decreases st@.len(),
    {
        st.pop();
    }
    if st.len() > 0 && st[st.len() - 1].indent == l.indent {
        st.pop();
    }
    st.push(l);
}

fn list_exec(s: &Vec<char>, stack: Vec<ListLevel>) -> (r: (String, RenderContext, LineKind))
    requires
        is_list_item(s@),
    ensures
        outcome_of(r.0, r.1, r.2) == list_outcome(s@, ContextView { list_stack: stack@, ..initial_view() }),
{
    let n = s.len();
    let w = indent_exec(s);
    let bullet = is_bullet_item_exec(s);
    let mut html = String::new();
    let kind = if bullet {
        push_str(&mut html, "<li>");
        push_content(&mut html, s, w + 2, n);
        push_str(&mut html, "</li>");
        ListKind::Bullet
    } else {
        let d = digit_run_exec(s, w, n);
        push_str(&mut html, "<li value=\"");
        push_range(&mut html, s, w, w + d);
        push_str(&mut html, "\">");
        push_content(&mut html, s, w + d + 2, n);
        push_str(&mut html, "</li>");
        ListKind::Ordered
    };
    let mut st = stack;
    enter_level_exec(&mut st, ListLevel { kind, indent: w });
    let mut ctx = blank_context();
    ctx.list_stack = st;
    (html, ctx, LineKind::ListItem)
}

fn is_delimiter_row_exec(s: &Vec<char>) -> (r: bool)
    ensures
        r == is_delimiter_row(s@),
{
    let mut i: usize = 0;
    let mut dash = false;
    while i < s.len()
        invariant
            i <= s@.len(),
            forall|j: int| 0 <= j < i ==> is_delimiter_char(#[trigger] s@[j]),
            dash ==> exists|j: int| 0 <= j < s@.len() && #[trigger] s@[j] == '-',
            !dash ==> forall|j: int| 0 <= j < i ==> #[trigger] s@[j] != '-',
        decreases s@.len() - i,
    {
        let c = s[i];
        if !(c == '|' || c == '-' || c == ':' || c == ' ') {
            return false;
        }
        if c == '-' {
            dash = true;
        }
        i = i + 1;
    }
    dash
}

fn push_cells(out: &mut String, s: &Vec<char>, lo: usize, hi: usize, header: bool)
    requires
        lo <= hi <= s@.len(),
    ensures
        final(out)@ == old(out)@ + cells(s@, lo as int, hi as int, header),
    decreases hi - lo,
{
    let p = find_char_exec(s, '|', lo, hi);
    if header {
        push_str(out, "<th>");
    } else {
        push_str(out, "<td>");
    }
    push_content(out, s, lo, p);
    if header {
        push_str(out, "</th>");
    } else {
        push_str(out, "</td>");
    }
    if p < hi {
        push_cells(out, s, p + 1, hi, header);
        assert(out@ =~= old(out)@ + cells(s@, lo as int, hi as int, header));
    } else {
        assert(out@ =~= old(out)@ + cells(s@, lo as int, hi as int, header));
    }
}

fn table_exec(s: &Vec<char>, table: TableState) -> (r: (String, RenderContext, LineKind))
    requires
        is_table_row(s@),
    ensures
        outcome_of(r.0, r.1, r.2) == table_outcome(s@, ContextView { table, ..initial_view() }),
{
    let mut html = String::new();
    let mut ctx = blank_context();
    if table == TableState::Header && is_delimiter_row_exec(s) {
        ctx.table = TableState::Body;
        proof {
            assert(html@ =~= Seq::<char>::empty());
        }
        return (html, ctx, LineKind::TableDelimiter);
    }
    let header = table != TableState::Body;
    let n = s.len();
    let end = if n >= 2 && s[n - 1] == '|' { n - 1 } else { n };
    push_str(&mut html, "<tr>");
    push_cells(&mut html, s, 1, end, header);
    push_str(&mut html, "</tr>");
    ctx.table = if header { TableState::Header } else { TableState::Body };
    (html, ctx, LineKind::TableRow)
}

fn paragraph_exec(s: &Vec<char>, stack: Vec<ListLevel>) -> (r: (String, RenderContext, LineKind))
    ensures
        outcome_of(r.0, r.1, r.2) == paragraph_outcome(s@, ContextView { list_stack: stack@, ..initial_view() }),
{
    let mut html = String::new();
    push_str(&mut html, "<p>");
    push_content(&mut html, s, 0, s.len());
    push_str(&mut html, "</p>");
    let mut ctx = blank_context();
    ctx.list_stack = stack;
    (html, ctx, LineKind::Paragraph)
}

/// Renders one line from its text and the context that precedes it.
pub fn render_markdown_line(request: RenderRequest) -> (r: LineRenderResult)
    ensures
        r@ == render_request(request@),
{
    let RenderRequest { line_index, line, context } = request;
    let s = chars_of(line.as_str());
    let ghost ctx = context@;
    let (html, next, kind) = if context.in_fence {
        if closes_fence_exec(&s, context.fence_char, context.fence_len) {
            let mut html = String::new();
            push_str(&mut html, "</code></pre>");
            (html, blank_context(), LineKind::FenceClose)
        } else {
            let mut html = String::new();
            push_escaped(&mut html, &s, 0, s.len());
            assert(s@.subrange(0, s@.len() as int) =~= s@);
            (html, context, LineKind::Code)
        }
    } else if opens_fence_exec(&s) {
        fence_open_exec(&s)
    } else if is_blank_exec(&s) {
        (String::new(), blank_context(), LineKind::Blank)
    } else if is_heading_exec(&s) {
        heading_exec(&s)
    } else if s.len() > 0 && s[0] == '>' {
        quote_exec(&s)
    } else if is_bullet_item_exec(&s) || is_ordered_item_exec(&s) {
        list_exec(&s, context.list_stack)
    } else if s.len() > 0 && s[0] == '|' {
        table_exec(&s, context.table)
    } else {
        paragraph_exec(&s, context.list_stack)
    };
    let r = LineRenderResult { line_index, html, context: next, kind };
    proof {
        let o = render_line(s@, ctx);
        assert(r@.html =~= o.html);
        assert(r@.context == o.context);
    }
    r
}

} // verus!
