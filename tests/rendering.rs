use line_markdown::{
    render_inline, render_markdown, render_markdown_batch, LineKind, LineRenderResult, ListKind,
    ListLevel, RenderContext, RenderRequest, TableState,
};

fn request(index: usize, line: &str, context: RenderContext) -> RenderRequest {
    RenderRequest { line_index: index, line: line.to_string(), context }
}

fn render_doc(lines: &[&str]) -> Vec<LineRenderResult> {
    let mut context = RenderContext::initial();
    let mut out = Vec::new();
    for (i, line) in lines.iter().enumerate() {
        let r = render_markdown(request(i, line, context));
        context = r.context.clone();
        out.push(r);
    }
    out
}

#[test]
fn fence_context_carries_across_lines() {
    let rs = render_doc(&["```rust", "let x = 1;", "```"]);
    assert_eq!(rs[0].kind, LineKind::FenceOpen);
    assert_eq!(rs[0].html, "<pre><code class=\"language-rust\">");
    assert!(rs[0].context.in_fence);
    assert_eq!(rs[0].context.fence_char, '`');
    assert_eq!(rs[0].context.fence_len, 3);
    assert_eq!(rs[0].context.fence_lang, Some("rust".to_string()));
    assert_eq!(rs[1].kind, LineKind::Code);
    assert_eq!(rs[1].html, "let x = 1;");
    assert_eq!(rs[1].context, rs[0].context);
    assert_eq!(rs[2].kind, LineKind::FenceClose);
    assert_eq!(rs[2].html, "</code></pre>");
    assert_eq!(rs[2].context, RenderContext::initial());
}

#[test]
fn fence_needs_a_long_enough_closer() {
    let rs = render_doc(&["~~~~", "# not a heading", "~~~", "~~~~~  "]);
    assert_eq!(rs[0].html, "<pre><code>");
    assert_eq!(rs[0].context.fence_lang, None);
    assert_eq!(rs[1].kind, LineKind::Code);
    assert_eq!(rs[1].html, "# not a heading");
    assert_eq!(rs[2].kind, LineKind::Code);
    assert_eq!(rs[3].kind, LineKind::FenceClose);
    assert_eq!(rs[3].context, RenderContext::initial());
}

#[test]
fn code_lines_are_escaped_not_parsed() {
    let rs = render_doc(&["```", "a < *b*", "```"]);
    assert_eq!(rs[1].html, "a &lt; *b*");
}

#[test]
fn unmatched_star_is_literal() {
    let r = render_markdown(request(0, "*hello", RenderContext::initial()));
    assert_eq!(r.kind, LineKind::Paragraph);
    assert_eq!(r.html, "<p>*hello</p>");
    assert_eq!(render_inline("*hello"), "*hello");
}

#[test]
fn rendering_twice_gives_the_same_result() {
    let mut ctx = RenderContext::initial();
    ctx.list_stack.push(ListLevel { kind: ListKind::Bullet, indent: 0 });
    let a = render_markdown(request(3, "  - **x** [y](z)", ctx.clone()));
    let b = render_markdown(request(3, "  - **x** [y](z)", ctx.clone()));
    assert_eq!(a, b);
    let c = render_markdown(request(9, "  - **x** [y](z)", ctx));
    assert_eq!(a.html, c.html);
    assert_eq!(a.context, c.context);
    assert_eq!(a.kind, c.kind);
}

fn document_requests(n: usize) -> Vec<RenderRequest> {
    let source = ["# Title", "", "- one", "  - two", "```py", "x = 1", "```", "| a | b |", "|---|---|", "| 1 | 2 |", "> quote *it*"];
    let mut ctx = RenderContext::initial();
    let mut reqs = Vec::new();
    for i in 0..n {
        let line = source[i % source.len()];
        let req = request(i, line, ctx.clone());
        ctx = render_markdown(req.clone()).context;
        reqs.push(req);
    }
    reqs
}

fn batch_matches_single(n: usize) {
    let reqs = document_requests(n);
    let batch = render_markdown_batch(reqs.clone());
    assert_eq!(batch.len(), n);
    for (i, req) in reqs.into_iter().enumerate() {
        assert_eq!(batch[i], render_markdown(req));
        assert_eq!(batch[i].line_index, i);
    }
}

#[test]
fn small_batch_matches_single_renders() {
    batch_matches_single(20);
}

#[test]
fn threshold_batch_matches_single_renders() {
    batch_matches_single(50);
}

#[test]
fn large_batch_matches_single_renders() {
    batch_matches_single(237);
}

#[test]
fn empty_batch() {
    assert!(render_markdown_batch(Vec::new()).is_empty());
}

#[test]
fn blank_line_inside_fence_keeps_it_open() {
    let rs = render_doc(&["```", "", "   "]);
    assert_eq!(rs[1].kind, LineKind::Code);
    assert_eq!(rs[1].context, rs[0].context);
    assert_eq!(rs[2].context, rs[0].context);
}

#[test]
fn blank_line_starts_a_new_list() {
    let nested = render_doc(&["- a", "  - b"]);
    assert_eq!(nested[1].context.list_stack.len(), 2);
    let fresh = render_doc(&["- a", "", "  - b"]);
    assert_eq!(fresh[1].kind, LineKind::Blank);
    assert_eq!(fresh[1].html, "");
    assert_eq!(fresh[1].context, RenderContext::initial());
    assert_eq!(fresh[2].context.list_stack, vec![ListLevel { kind: ListKind::Bullet, indent: 2 }]);
}

#[test]
fn list_stack_follows_indent() {
    let rs = render_doc(&["- a", "  1. b", "    * c", "  2) d", "- e"]);
    assert_eq!(rs[0].html, "<li>a</li>");
    assert_eq!(rs[1].html, "<li value=\"1\">b</li>");
    assert_eq!(rs[2].context.list_stack.len(), 3);
    assert_eq!(rs[3].html, "<li value=\"2\">d</li>");
    assert_eq!(
        rs[3].context.list_stack,
        vec![ListLevel { kind: ListKind::Bullet, indent: 0 }, ListLevel { kind: ListKind::Ordered, indent: 2 }]
    );
    assert_eq!(rs[4].context.list_stack, vec![ListLevel { kind: ListKind::Bullet, indent: 0 }]);
}

#[test]
fn paragraph_keeps_the_list_open() {
    let rs = render_doc(&["- a", "more text"]);
    assert_eq!(rs[1].kind, LineKind::Paragraph);
    assert_eq!(rs[1].context.list_stack.len(), 1);
}

#[test]
fn headings() {
    let r = render_markdown(request(0, "### Part *two*  ", RenderContext::initial()));
    assert_eq!(r.kind, LineKind::Heading);
    assert_eq!(r.html, "<h3>Part <em>two</em></h3>");
    let r = render_markdown(request(0, "####### seven", RenderContext::initial()));
    assert_eq!(r.kind, LineKind::Paragraph);
    let r = render_markdown(request(0, "#tag", RenderContext::initial()));
    assert_eq!(r.html, "<p>#tag</p>");
}

#[test]
fn nested_quote() {
    let r = render_markdown(request(0, "> > deep", RenderContext::initial()));
    assert_eq!(r.kind, LineKind::Quote);
    assert_eq!(r.html, "<blockquote><blockquote>deep</blockquote></blockquote>");
    assert_eq!(r.context.quote_depth, 2);
}

#[test]
fn table_header_delimiter_and_body() {
    let rs = render_doc(&["| a | b |", "|:--|--:|", "| 1 | `|` |", "after"]);
    assert_eq!(rs[0].kind, LineKind::TableRow);
    assert_eq!(rs[0].html, "<tr><th>a</th><th>b</th></tr>");
    assert_eq!(rs[0].context.table, TableState::Header);
    assert_eq!(rs[1].kind, LineKind::TableDelimiter);
    assert_eq!(rs[1].html, "");
    assert_eq!(rs[1].context.table, TableState::Body);
    assert_eq!(rs[2].html, "<tr><td>1</td><td>`</td><td>`</td></tr>");
    assert_eq!(rs[2].context.table, TableState::Body);
    assert_eq!(rs[3].context.table, TableState::Outside);
}

#[test]
fn header_without_delimiter_stays_a_header() {
    let rs = render_doc(&["| a |", "| b |"]);
    assert_eq!(rs[1].html, "<tr><th>b</th></tr>");
    assert_eq!(rs[1].context.table, TableState::Header);
}

#[test]
fn inline_spans() {
    assert_eq!(
        render_inline("**bold** and `code` and [link](http://x)"),
        "<strong>bold</strong> and <code>code</code> and <a href=\"http://x\">link</a>"
    );
    assert_eq!(render_inline("_em_ __strong__"), "<em>em</em> <strong>strong</strong>");
    assert_eq!(render_inline("``a ` b``"), "<code>a ` b</code>");
    assert_eq!(render_inline("`open"), "`open");
    assert_eq!(render_inline("a < b & \"c\" > d"), "a &lt; b &amp; &quot;c&quot; &gt; d");
    assert_eq!(render_inline("[oops"), "[oops");
    assert_eq!(render_inline("[text] (x)"), "[text] (x)");
    assert_eq!(render_inline("[a *b*](u)"), "<a href=\"u\">a <em>b</em></a>");
    assert_eq!(render_inline("**a*"), "**a*");
    assert_eq!(render_inline("http://example.com"), "http://example.com");
    assert_eq!(render_inline(""), "");
}

#[test]
fn default_context_is_initial() {
    let c = RenderContext::default();
    assert_eq!(c, RenderContext::initial());
    assert!(!c.in_fence);
    assert!(c.list_stack.is_empty());
    assert_eq!(c.quote_depth, 0);
    assert_eq!(c.table, TableState::Outside);
}

#[test]
fn white_space_only_lines_are_blank() {
    for line in ["\r", " \r", "\u{a0}", "\t\u{3000} ", "\u{b}\u{c}"] {
        let r = render_markdown(request(0, line, RenderContext::initial()));
        assert_eq!(r.kind, LineKind::Blank, "{:?}", line);
        assert_eq!(r.html, "");
        assert_eq!(r.context, RenderContext::initial());
    }
    let crlf = render_doc(&["- a\r", "\r", "  - b\r"]);
    assert_eq!(crlf[0].html, "<li>a</li>");
    assert_eq!(crlf[1].kind, LineKind::Blank);
    assert_eq!(crlf[2].context.list_stack, vec![ListLevel { kind: ListKind::Bullet, indent: 2 }]);
}

#[test]
fn white_space_only_line_in_fence_is_code() {
    let rs = render_doc(&["```rust\r", "\r", "```\r"]);
    assert_eq!(rs[0].context.fence_lang, Some("rust".to_string()));
    assert_eq!(rs[1].kind, LineKind::Code);
    assert_eq!(rs[1].context, rs[0].context);
    assert_eq!(rs[2].kind, LineKind::FenceClose);
    assert_eq!(rs[2].context, RenderContext::initial());
}

#[test]
fn trailing_carriage_return_is_trimmed() {
    let r = render_markdown(request(0, "# Title\r", RenderContext::initial()));
    assert_eq!(r.html, "<h1>Title</h1>");
    let r = render_markdown(request(0, "text\u{a0}", RenderContext::initial()));
    assert_eq!(r.html, "<p>text</p>");
}

#[test]
fn white_space_agrees_with_std() {
    for c in (0u32..=0x10ffff).filter_map(char::from_u32) {
        assert_eq!(line_markdown::is_white_space(c), c.is_whitespace(), "{:?}", c);
    }
}
