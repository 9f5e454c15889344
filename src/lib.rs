//! Line-oriented Markdown rendering for a live editor.
//!
//! Each line is rendered from its own text and the block context that the
//! previous line left behind; the context is an explicit value, so lines can
//! be rendered independently and in parallel.

mod batch;
mod block;
mod config;
mod context;
mod laws;
mod listing;
mod render;
mod scan;
mod spans;
mod text;

pub use batch::{render_all, render_markdown, render_markdown_batch, PARALLEL_THRESHOLD};
pub use block::{context_wf, render_line, LineKind, LineOutcome};
pub use config::GlobalConfig;
pub use text::is_white_space;
pub use context::{initial_view, ContextView, ListKind, ListLevel, RenderContext, TableState};
pub use laws::{
    lemma_batch_split, lemma_blank_line, lemma_context_stays_wf, lemma_fence_round_trip, lemma_render_deterministic,
};
pub use listing::{arrange_entries, lex_less, sorts_before, FileEntry};
pub use render::{render_markdown_line, render_request, LineRenderResult, RenderRequest, RequestView, ResultView};
pub use spans::{inline_html, render_inline};
