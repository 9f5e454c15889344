use vstd::prelude::*;

verus! {

/// Whether a list item was introduced by a bullet or by a number.
#[derive(Clone, Copy, Debug, PartialEq, Eq, Structural)]
pub enum ListKind {
    Bullet,
    Ordered,
}

/// One open level of list nesting: the marker kind and the indent width of its items.
#[derive(Clone, Copy, Debug, PartialEq, Eq, Structural)]
pub struct ListLevel {
    pub kind: ListKind,
    pub indent: usize,
}

/// Where a line stands with respect to a pipe table.
#[derive(Clone, Copy, Debug, PartialEq, Eq, Structural)]
pub enum TableState {
    /// The previous line was not a table row.
    Outside,
    /// A header row was seen; its delimiter row has not come yet.
    Header,
    /// The header was confirmed by a delimiter row: rows are body rows.
    Body,
}

/// The block-level state that holds at the start of a line.
#[derive(Clone, Debug, PartialEq, Eq)]
pub struct RenderContext {
    /// A fenced code block is open.
    pub in_fence: bool,
    /// The character of the open fence's marker (meaningless when no fence is open).
    pub fence_char: char,
    /// The length of the open fence's marker run (0 when no fence is open).
    pub fence_len: usize,
    /// The language tag of the open fence, if it gave one.
    pub fence_lang: Option<String>,
    /// The open list levels, outermost first.
    pub list_stack: Vec<ListLevel>,
    /// How many blockquote markers the previous line carried.
    pub quote_depth: usize,
    pub table: TableState,
}

/// The mathematical value of a `RenderContext`.
pub struct ContextView {
    pub in_fence: bool,
    pub fence_char: char,
    pub fence_len: nat,
    pub fence_lang: Option<Seq<char>>,
    pub list_stack: Seq<ListLevel>,
    pub quote_depth: nat,
    pub table: TableState,
}

pub open spec fn lang_view(l: Option<String>) -> Option<Seq<char>> {
    match l {
        Some(s) => Some(s@),
        None => None,
    }
}

impl View for RenderContext {
    type V = ContextView;

    open spec fn view(&self) -> ContextView {
        ContextView {
            in_fence: self.in_fence,
            fence_char: self.fence_char,
            fence_len: self.fence_len as nat,
            fence_lang: lang_view(self.fence_lang),
            list_stack: self.list_stack@,
            quote_depth: self.quote_depth as nat,
            table: self.table,
        }
    }
}

/// The all-closed context: no fence, no list, no quote, no table.
pub open spec fn initial_view() -> ContextView {
    ContextView {
        in_fence: false,
        fence_char: ' ',
        fence_len: 0,
        fence_lang: None,
        list_stack: Seq::empty(),
        quote_depth: 0,
        table: TableState::Outside,
    }
}

impl RenderContext {
    /// The context before the first line of a document.
    pub fn initial() -> (r: RenderContext)
        ensures
            r@ == initial_view(),
    {
        RenderContext {
            in_fence: false,
            fence_char: ' ',
            fence_len: 0,
            fence_lang: None,
            list_stack: Vec::new(),
            quote_depth: 0,
            table: TableState::Outside,
        }
    }
}

impl Default for RenderContext {
    fn default() -> (r: RenderContext)
        ensures
            r@ == initial_view(),
    {
        RenderContext::initial()
    }
}

} // verus!
