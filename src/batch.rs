use vstd::prelude::*;
use rayon::iter::{IntoParallelIterator, ParallelIterator};
use crate::render::{render_markdown_line, render_request, LineRenderResult, RenderRequest, RequestView, ResultView};

verus! {

/// Batches larger than this are rendered on the worker pool.
pub const PARALLEL_THRESHOLD: usize = 50;

pub open spec fn requests_view(rs: Seq<RenderRequest>) -> Seq<RequestView> {
    rs.map_values(|r: RenderRequest| r@)
}

pub open spec fn results_view(rs: Seq<LineRenderResult>) -> Seq<ResultView> {
    rs.map_values(|r: LineRenderResult| r@)
}

/// The results owed for a sequence of requests: one per request, in order.
pub open spec fn render_all(rs: Seq<RequestView>) -> Seq<ResultView> {
    rs.map_values(|r: RequestView| render_request(r))
}

/// Renders a single line.
pub fn render_markdown(request: RenderRequest) -> (r: LineRenderResult)
    ensures
        r@ == render_request(request@),
{
    render_markdown_line(request)
}

/// Relies on rayon's `into_par_iter().map(f).collect()` into a `Vec`: every
/// item is mapped once and the results come back in the order of the input.
#[verifier::external_body]
fn render_parallel(requests: Vec<RenderRequest>) -> (r: Vec<LineRenderResult>)
    ensures
        r@.len() == requests@.len(),
        forall|i: int| 0 <= i < r@.len() ==> #[trigger] r@[i]@ == render_request(requests@[i]@),
{
    requests.into_par_iter().map(render_markdown_line).collect()
}

fn render_sequential(requests: Vec<RenderRequest>) -> (r: Vec<LineRenderResult>)
    ensures
        r@.len() == requests@.len(),
        forall|i: int| 0 <= i < r@.len() ==> #[trigger] r@[i]@ == render_request(requests@[i]@),
{
    let ghost all = requests@;
    let mut rest = requests;
    let mut out: Vec<LineRenderResult> = Vec::new();
    while rest.len() > 0
        invariant
            out@.len() + rest@.len() == all.len(),
            rest@ == all.subrange(out@.len() as int, all.len() as int),
            forall|i: int| 0 <= i < out@.len() ==> #[trigger] out@[i]@ == render_request(all[i]@),
        decreases rest@.len(),
    {
        let req = rest.remove(0);
        let res = render_markdown_line(req);
        out.push(res);
        assert(rest@ =~= all.subrange(out@.len() as int, all.len() as int));
    }
    out
}

/// Renders many lines, each from its own request; the results stand in the
/// order of the requests. Batches above the threshold run in parallel.
pub fn render_markdown_batch(requests: Vec<RenderRequest>) -> (r: Vec<LineRenderResult>)
    ensures
        results_view(r@) == render_all(requests_view(requests@)),
{
    let r = if requests.len() > PARALLEL_THRESHOLD {
        render_parallel(requests)
    } else {
        render_sequential(requests)
    };
    assert(results_view(r@) =~= render_all(requests_view(requests@)));
    r
}

} // verus!
