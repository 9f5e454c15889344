use vstd::prelude::*;
use crate::batch::render_all;
use crate::block::{closes_fence, context_wf, is_blank, is_list_item, opens_fence, render_line, LineKind};
use crate::context::initial_view;
use crate::context::ContextView;
use crate::render::{render_request, RequestView};

verus! {

/// Rendering is a function of the line and its context alone: two requests
/// with the same text and context get the same HTML, context and kind,
/// whatever their line indices.
pub proof fn lemma_render_deterministic(a: RequestView, b: RequestView)
    requires
        a.line == b.line,
        a.context == b.context,
    ensures
        render_request(a).html == render_request(b).html,
        render_request(a).context == render_request(b).context,
        render_request(a).kind == render_request(b).kind,
{
}

/// Rendering a batch is rendering each request on its own: a batch can be
/// cut anywhere and its parts rendered separately, in any order, and the
/// results put back side by side.
pub proof fn lemma_batch_split(a: Seq<RequestView>, b: Seq<RequestView>)
    ensures
        render_all(a + b) == render_all(a) + render_all(b),
        forall|i: int| 0 <= i < a.len() ==> #[trigger] render_all(a)[i] == render_request(a[i]),
{
    assert(render_all(a + b) =~= render_all(a) + render_all(b));
}

/// A blank line (empty, or white space alone) leaves an open fence exactly as
/// it was and is code there. Outside a fence it is a blank line, yields the
/// all-closed context and so closes every list, so the list item after it opens a new list of one level
/// instead of nesting in or continuing the one before.
pub proof fn lemma_blank_line(blank: Seq<char>, ctx: ContextView, item: Seq<char>)
    requires
        is_blank(blank),
        context_wf(ctx),
        is_list_item(item),
    ensures
        render_line(blank, ctx).context.in_fence == ctx.in_fence,
        render_line(blank, ctx).context.fence_lang == ctx.fence_lang,
        ctx.in_fence ==> render_line(blank, ctx).context == ctx,
        ctx.in_fence ==> render_line(blank, ctx).kind == LineKind::Code,
        !ctx.in_fence ==> render_line(blank, ctx).kind == LineKind::Blank,
        !ctx.in_fence ==> render_line(blank, ctx).context == initial_view(),
        !ctx.in_fence ==> render_line(blank, ctx).context.list_stack.len() == 0,
        !ctx.in_fence ==> render_line(item, render_line(blank, ctx).context).context.list_stack.len() == 1,
{
    let ind = crate::block::indent_of(blank);
    if ind < blank.len() {
        assert(crate::text::is_space(blank[ind as int]));
    }
    let w = crate::block::indent_of(item);
    if w > 0 {
        assert(item[0] == ' ');
    }
}

/// A fence carries its state from line to line: after an opening line, a line
/// that does not close the fence is code and leaves the context as it was, and
/// a closing line ends the fence and brings back the all-closed context.
pub proof fn lemma_fence_round_trip(ctx: ContextView, open: Seq<char>, body: Seq<char>, close: Seq<char>)
    requires
        !ctx.in_fence,
        opens_fence(open),
        !closes_fence(body, render_line(open, ctx).context.fence_char, render_line(open, ctx).context.fence_len),
        closes_fence(close, render_line(open, ctx).context.fence_char, render_line(open, ctx).context.fence_len),
    ensures
        render_line(open, ctx).kind == LineKind::FenceOpen,
        render_line(open, ctx).context.in_fence,
        render_line(body, render_line(open, ctx).context).kind == LineKind::Code,
        render_line(body, render_line(open, ctx).context).context == render_line(open, ctx).context,
        render_line(close, render_line(open, ctx).context).kind == LineKind::FenceClose,
        render_line(close, render_line(open, ctx).context).context == initial_view(),
{
}

/// Rendering keeps contexts well formed: the context that a line leaves behind
/// has fence fields that agree with its fence flag.
pub proof fn lemma_context_stays_wf(s: Seq<char>, ctx: ContextView)
    requires
        context_wf(ctx),
    ensures
        context_wf(render_line(s, ctx).context),
{
}

} // verus!
