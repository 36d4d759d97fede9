//! Plain values exchanged with language servers: positions, ranges,
//! completion items, semantic tokens and inlay hints.

use vstd::prelude::*;

verus! {

/// How a language server counts columns.
#[derive(Debug, Clone, Copy, PartialEq, Eq, Structural)]
pub enum LspPositionEncoding {
    Utf8,
    Utf16,
    Utf32,
}

/// A zero-based line and column.
#[derive(Debug, Clone, Copy, PartialEq, Eq, Structural)]
pub struct LspPosition {
    pub line: u32,
    pub character: u32,
}

/// A range between two positions.
#[derive(Debug, Clone, Copy, PartialEq, Eq, Structural)]
pub struct LspRange {
    pub start: LspPosition,
    pub end: LspPosition,
}

/// Whether a completion's insert text is plain or a snippet.
#[derive(Debug, Clone, Copy, PartialEq, Eq, Structural)]
pub enum LspInsertTextFormat {
    PlainText,
    Snippet,
}

/// A completion item as a language server sends it.
#[derive(Debug, Clone)]
pub struct LspCompletionItem {
    pub id: u64,
    pub label: String,
    pub detail: Option<String>,
    pub kind: Option<u32>,
    pub insert_text: String,
    pub insert_text_format: LspInsertTextFormat,
    pub insert_range: Option<LspRange>,
    pub replace_range: Option<LspRange>,
    pub sort_text: Option<String>,
    pub filter_text: Option<String>,
}

/// A semantic token: line, start column and length in the server's units,
/// index into the legend's token types, and a modifier bit set.
#[derive(Debug, Clone, Copy, PartialEq, Eq, Structural)]
pub struct LspSemanticToken {
    pub line: u32,
    pub start: u32,
    pub length: u32,
    pub token_type: u32,
    pub modifiers: u32,
}

/// The names behind semantic-token type indices and modifier bits.
#[derive(Debug, Clone)]
pub struct LspSemanticTokensLegend {
    pub token_types: Vec<String>,
    pub token_modifiers: Vec<String>,
}

impl Default for LspSemanticTokensLegend {
    /// A legend with no type and no modifier names.
    fn default() -> (r: Self)
        ensures
            r.token_types@.len() == 0,
            r.token_modifiers@.len() == 0,
    {
        LspSemanticTokensLegend { token_types: Vec::new(), token_modifiers: Vec::new() }
    }
}

/// An inlay hint at a position.
#[derive(Debug, Clone)]
pub struct LspInlayHint {
    pub position: LspPosition,
    pub label: String,
    pub padding_left: bool,
    pub padding_right: bool,
}

/// A folding range, by the lines it spans.
#[derive(Debug, Clone, Copy, PartialEq, Eq, Structural)]
pub struct LspFoldingRange {
    pub start_line: u32,
    pub end_line: u32,
}

/// The start of a diagnostic's range.
#[derive(Debug, Clone, Copy, PartialEq, Eq, Structural)]
pub struct ProblemRange {
    pub start_line: u32,
    pub start_col: u32,
    pub end_line: u32,
    pub end_col: u32,
}

} // verus!
