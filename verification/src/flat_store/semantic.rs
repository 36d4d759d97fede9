//! Semantic-token highlighting with the older type mapping: operators are keywords,
//! enum members constants, and every readonly-sensitive type is a variable or a constant.

use ropey::Rope;
use vstd::prelude::*;

use crate::editor::{HighlightKind, HighlightSpan};
use crate::ports::{LspPositionEncoding, LspSemanticToken, LspSemanticTokensLegend};
use crate::rope::{len_lines, rope_len_lines, rope_text};
use crate::store::intel::semantic::{
    has_modifier, highlight_lines_from_resolved_tokens, line_spans, merge_spans, modifier_position, position_from,
};
use crate::text::{str_eq, string_views};

pub use crate::store::intel::semantic::merge_adjacent_highlight_spans;

verus! {

/// Type names whose kind a `readonly` modifier changes.
pub open spec fn flat_readonly_sensitive(t: Seq<char>) -> bool {
    t == "variable"@ || t == "parameter"@ || t == "property"@ || t == "event"@
}

/// Whether the legend's `readonly` modifier, if it has one, has a bit in 32 bits.
pub open spec fn readonly_bit_fits(mods: Seq<Seq<char>>) -> bool {
    match position_from(mods, "readonly"@, 0) {
        Some(i) => i < 32,
        None => true,
    }
}

/// The highlight kind of a token of type `t` with modifier set `mods`.
pub open spec fn flat_kind_for(t: Seq<char>, mods: u32, legend_mods: Seq<Seq<char>>) -> Option<HighlightKind> {
    if t == "comment"@ {
        Some(HighlightKind::Comment)
    } else if t == "string"@ {
        Some(HighlightKind::String)
    } else if t == "regexp"@ {
        Some(HighlightKind::Regex)
    } else if t == "keyword"@ || t == "modifier"@ || t == "operator"@ {
        Some(HighlightKind::Keyword)
    } else if t == "number"@ {
        Some(HighlightKind::Number)
    } else if t == "type"@ || t == "struct"@ || t == "enum"@ || t == "interface"@ || t == "trait"@
        || t == "typeParameter"@ || t == "class"@ {
        Some(HighlightKind::Type)
    } else if t == "function"@ || t == "method"@ || t == "member"@ {
        Some(HighlightKind::Function)
    } else if t == "macro"@ {
        Some(HighlightKind::Macro)
    } else if t == "enumMember"@ {
        Some(HighlightKind::Constant)
    } else if flat_readonly_sensitive(t) {
        if has_modifier(mods, legend_mods, "readonly"@) {
            Some(HighlightKind::Constant)
        } else {
            Some(HighlightKind::Variable)
        }
    } else if t == "namespace"@ || t == "module"@ {
        Some(HighlightKind::Namespace)
    } else if t == "label"@ || t == "decorator"@ {
        Some(HighlightKind::Attribute)
    } else {
        None
    }
}

/// Whether `modifiers` holds the legend's modifier `name` (false when the legend lacks
/// it). The modifier's index must fit in 32 bits.
pub fn has_semantic_modifier(modifiers: u32, legend: &LspSemanticTokensLegend, name: &str) -> (r: bool)
    requires
        position_from(string_views(legend.token_modifiers@), name@, 0) matches Some(i) ==> i < 32,
    ensures
        r == has_modifier(modifiers, string_views(legend.token_modifiers@), name@),
{
    match modifier_position(&legend.token_modifiers, name) {
        Some(index) => {
            let shift: u32 = index as u32;
            modifiers & (1u32 << shift) != 0
        },
        None => false,
    }
}

/// The highlight kind of a token type name with its modifiers.
pub fn highlight_kind_for_semantic_token(token_type: &str, modifiers: u32, legend: &LspSemanticTokensLegend) -> (r:
    Option<HighlightKind>)
    requires
        flat_readonly_sensitive(token_type@) ==> readonly_bit_fits(string_views(legend.token_modifiers@)),
    ensures
        r == flat_kind_for(token_type@, modifiers, string_views(legend.token_modifiers@)),
{
    if str_eq(token_type, "comment") {
        Some(HighlightKind::Comment)
    } else if str_eq(token_type, "string") {
        Some(HighlightKind::String)
    } else if str_eq(token_type, "regexp") {
        Some(HighlightKind::Regex)
    } else if str_eq(token_type, "keyword") || str_eq(token_type, "modifier") || str_eq(token_type, "operator") {
        Some(HighlightKind::Keyword)
    } else if str_eq(token_type, "number") {
        Some(HighlightKind::Number)
    } else if str_eq(token_type, "type") || str_eq(token_type, "struct") || str_eq(token_type, "enum")
        || str_eq(token_type, "interface") || str_eq(token_type, "trait") || str_eq(token_type, "typeParameter")
        || str_eq(token_type, "class") {
        Some(HighlightKind::Type)
    } else if str_eq(token_type, "function") || str_eq(token_type, "method") || str_eq(token_type, "member") {
        Some(HighlightKind::Function)
    } else if str_eq(token_type, "macro") {
        Some(HighlightKind::Macro)
    } else if str_eq(token_type, "enumMember") {
        Some(HighlightKind::Constant)
    } else if str_eq(token_type, "variable") || str_eq(token_type, "parameter") || str_eq(token_type, "property")
        || str_eq(token_type, "event") {
        if has_semantic_modifier(modifiers, legend, "readonly") {
            Some(HighlightKind::Constant)
        } else {
            Some(HighlightKind::Variable)
        }
    } else if str_eq(token_type, "namespace") || str_eq(token_type, "module") {
        Some(HighlightKind::Namespace)
    } else if str_eq(token_type, "label") || str_eq(token_type, "decorator") {
        Some(HighlightKind::Attribute)
    } else {
        None
    }
}

/// The kind a token gets from its type name: none when its type index lies outside
/// the legend.
pub open spec fn flat_token_kind(types: Seq<Seq<char>>, mods: Seq<Seq<char>>, tok: LspSemanticToken) -> Option<
    HighlightKind,
> {
    if tok.token_type < types.len() {
        flat_kind_for(types[tok.token_type as int], tok.modifiers, mods)
    } else {
        None
    }
}

/// The kind of each token.
pub open spec fn flat_token_kinds(types: Seq<Seq<char>>, mods: Seq<Seq<char>>, tokens: Seq<LspSemanticToken>) -> Seq<
    Option<HighlightKind>,
> {
    tokens.map_values(|tok: LspSemanticToken| flat_token_kind(types, mods, tok))
}

/// Whether no token needs the `readonly` bit when the legend puts it beyond 32 bits.
pub open spec fn tokens_readonly_fit(legend: LspSemanticTokensLegend, tokens: Seq<LspSemanticToken>) -> bool {
    forall|j: int|
        0 <= j < tokens.len() && (tokens[j].token_type as int) < legend.token_types@.len() && flat_readonly_sensitive(
            legend.token_types@[tokens[j].token_type as int]@,
        ) ==> readonly_bit_fits(string_views(legend.token_modifiers@))
}

fn resolve_token_kinds(tokens: &[LspSemanticToken], legend: &LspSemanticTokensLegend) -> (kinds: Vec<
    Option<HighlightKind>,
>)
    requires
        tokens_readonly_fit(*legend, tokens@),
    ensures
        kinds@ == flat_token_kinds(string_views(legend.token_types@), string_views(legend.token_modifiers@), tokens@),
{
    let ghost types = string_views(legend.token_types@);
    let ghost mods = string_views(legend.token_modifiers@);
    let mut kinds: Vec<Option<HighlightKind>> = Vec::new();
    let mut j: usize = 0;
    while j < tokens.len()
        invariant
            j <= tokens@.len(),
            tokens_readonly_fit(*legend, tokens@),
            types == string_views(legend.token_types@),
            mods == string_views(legend.token_modifiers@),
            kinds@ == flat_token_kinds(types, mods, tokens@.take(j as int)),
        decreases tokens@.len() - j,
    {
        let tok = tokens[j];
        let idx = tok.token_type as usize;
        let k = if idx < legend.token_types.len() {
            proof {
                assert(types[idx as int] == legend.token_types@[idx as int]@);
            }
            highlight_kind_for_semantic_token(legend.token_types[idx].as_str(), tok.modifiers, legend)
        } else {
            None
        };
        kinds.push(k);
        proof {
            assert(flat_token_kinds(types, mods, tokens@.take(j + 1)) =~= kinds@);
        }
        j += 1;
    }
    proof {
        assert(tokens@.take(j as int) =~= tokens@);
    }
    kinds
}

/// Highlight spans of every line of `rope` from semantic tokens: for each line, the
/// spans of its tokens whose type names map to a kind, ordered and merged.
pub fn semantic_highlight_lines_from_tokens(
    rope: &Rope,
    tokens: &[LspSemanticToken],
    legend: &LspSemanticTokensLegend,
    encoding: LspPositionEncoding,
) -> (lines: Vec<Vec<HighlightSpan>>)
    requires
        tokens_readonly_fit(*legend, tokens@),
    ensures
        lines@.len() == len_lines(rope_text(*rope)),
        forall|i: int|
            0 <= i < lines@.len() ==> (#[trigger] lines@[i])@ == merge_spans(
                line_spans(
                    rope_text(*rope),
                    tokens@,
                    flat_token_kinds(string_views(legend.token_types@), string_views(legend.token_modifiers@), tokens@),
                    encoding,
                    i,
                ),
            ),
{
    let kinds = resolve_token_kinds(tokens, legend);
    let total = rope_len_lines(rope);
    highlight_lines_from_resolved_tokens(rope, tokens, &kinds, encoding, 0, total)
}

/// Highlight spans of lines `start_line..end_line_exclusive` of `rope` (the start
/// clamped to the last line, the end to the line count); none when that range is empty.
pub fn semantic_highlight_lines_from_tokens_range(
    rope: &Rope,
    tokens: &[LspSemanticToken],
    legend: &LspSemanticTokensLegend,
    encoding: LspPositionEncoding,
    start_line: usize,
    end_line_exclusive: usize,
) -> (lines: Vec<Vec<HighlightSpan>>)
    requires
        tokens_readonly_fit(*legend, tokens@),
    ensures
        ({
            let (s, e) = crate::store::intel::semantic::clamped_line_range(
                len_lines(rope_text(*rope)),
                start_line as int,
                end_line_exclusive as int,
            );
            &&& start_line >= end_line_exclusive || e <= s ==> lines@.len() == 0
            &&& start_line < end_line_exclusive && s < e ==> lines@.len() == e - s
            &&& forall|i: int|
                0 <= i < lines@.len() ==> (#[trigger] lines@[i])@ == merge_spans(
                    line_spans(
                        rope_text(*rope),
                        tokens@,
                        flat_token_kinds(
                            string_views(legend.token_types@),
                            string_views(legend.token_modifiers@),
                            tokens@,
                        ),
                        encoding,
                        s + i,
                    ),
                )
        }),
{
    if start_line >= end_line_exclusive {
        return Vec::new();
    }
    let total = rope_len_lines(rope);
    let first = if start_line < total - 1 {
        start_line
    } else {
        total - 1
    };
    let stop = if end_line_exclusive < total {
        end_line_exclusive
    } else {
        total
    };
    if stop <= first {
        return Vec::new();
    }
    let kinds = resolve_token_kinds(tokens, legend);
    highlight_lines_from_resolved_tokens(rope, tokens, &kinds, encoding, first, stop)
}

/// Every token type name has its highlight kind, grouped here by kind: comments,
/// strings, regular expressions, numbers and macros their own; keywords, modifiers and
/// operators the keyword kind; every kind of type the type kind; functions, methods
/// and members the function kind; enum members the constant kind; variables,
/// parameters, properties and events the variable kind, or the constant kind when the
/// token carries the legend's `readonly` modifier; namespaces and modules theirs;
/// labels and decorators the attribute kind. Any other name stays unstyled.
pub proof fn law_flat_token_types_map_to_their_kinds(t: Seq<char>, mods: u32, legend_mods: Seq<Seq<char>>)
    ensures
        ({
            let ro = has_modifier(mods, legend_mods, "readonly"@);
            let kind = flat_kind_for(t, mods, legend_mods);
            &&& (t == "enum"@ || t == "type"@ || t == "class"@ || t == "trait"@ || t == "struct"@ || t == "interface"@ || t == "typeParameter"@) ==> kind == Some(HighlightKind::Type)
            &&& (t == "event"@ || t == "property"@ || t == "variable"@ || t == "parameter"@) ==> kind == Some(if ro { HighlightKind::Constant } else { HighlightKind::Variable })
            &&& (t == "label"@ || t == "decorator"@) ==> kind == Some(HighlightKind::Attribute)
            &&& (t == "macro"@) ==> kind == Some(HighlightKind::Macro)
            &&& (t == "member"@ || t == "method"@ || t == "function"@) ==> kind == Some(HighlightKind::Function)
            &&& (t == "module"@ || t == "namespace"@) ==> kind == Some(HighlightKind::Namespace)
            &&& (t == "number"@) ==> kind == Some(HighlightKind::Number)
            &&& (t == "regexp"@) ==> kind == Some(HighlightKind::Regex)
            &&& (t == "string"@) ==> kind == Some(HighlightKind::String)
            &&& (t == "comment"@) ==> kind == Some(HighlightKind::Comment)
            &&& (t == "keyword"@ || t == "modifier"@ || t == "operator"@) ==> kind == Some(HighlightKind::Keyword)
            &&& (t == "enumMember"@) ==> kind == Some(HighlightKind::Constant)
            &&& !(t == "enum"@ || t == "type"@ || t == "class"@ || t == "event"@ || t == "label"@ || t == "macro"@ || t == "trait"@ || t == "member"@ || t == "method"@ || t == "module"@ || t == "number"@ || t == "regexp"@ || t == "string"@ || t == "struct"@ || t == "comment"@ || t == "keyword"@ || t == "function"@ || t == "modifier"@ || t == "operator"@ || t == "property"@ || t == "variable"@ || t == "decorator"@ || t == "interface"@ || t == "namespace"@ || t == "parameter"@ || t == "enumMember"@ || t == "typeParameter"@) ==> kind is None
        }),
{
    reveal_strlit("enum");
    reveal_strlit("type");
    reveal_strlit("class");
    reveal_strlit("event");
    reveal_strlit("label");
    reveal_strlit("macro");
    reveal_strlit("trait");
    reveal_strlit("member");
    reveal_strlit("method");
    reveal_strlit("module");
    reveal_strlit("number");
    reveal_strlit("regexp");
    reveal_strlit("string");
    reveal_strlit("struct");
    reveal_strlit("comment");
    reveal_strlit("keyword");
    reveal_strlit("function");
    reveal_strlit("modifier");
    reveal_strlit("operator");
    reveal_strlit("property");
    reveal_strlit("variable");
    reveal_strlit("decorator");
    reveal_strlit("interface");
    reveal_strlit("namespace");
    reveal_strlit("parameter");
    reveal_strlit("enumMember");
    reveal_strlit("typeParameter");
    if t == "enum"@ {

    }
    if t == "type"@ {
        assert("type"@[0] != "enum"@[0]);
    }
    if t == "class"@ {
        assert("class"@.len() == 5);
    }
    if t == "event"@ {
        assert("event"@[0] != "class"@[0]);
        assert("event"@.len() == 5);
    }
    if t == "label"@ {
        assert("label"@[0] != "class"@[0]);
        assert("label"@[0] != "event"@[0]);
        assert("label"@.len() == 5);
    }
    if t == "macro"@ {
        assert("macro"@[0] != "class"@[0]);
        assert("macro"@[0] != "event"@[0]);
        assert("macro"@[0] != "label"@[0]);
        assert("macro"@.len() == 5);
    }
    if t == "trait"@ {
        assert("trait"@[0] != "class"@[0]);
        assert("trait"@[0] != "event"@[0]);
        assert("trait"@[0] != "label"@[0]);
        assert("trait"@[0] != "macro"@[0]);
        assert("trait"@.len() == 5);
    }
    if t == "member"@ {
        assert("member"@.len() == 6);
    }
    if t == "method"@ {
        assert("method"@[2] != "member"@[2]);
        assert("method"@.len() == 6);
    }
    if t == "module"@ {
        assert("module"@[1] != "member"@[1]);
        assert("module"@[1] != "method"@[1]);
        assert("module"@.len() == 6);
    }
    if t == "number"@ {
        assert("number"@[0] != "member"@[0]);
        assert("number"@[0] != "method"@[0]);
        assert("number"@[0] != "module"@[0]);
        assert("number"@.len() == 6);
    }
    if t == "regexp"@ {
        assert("regexp"@[0] != "member"@[0]);
        assert("regexp"@[0] != "method"@[0]);
        assert("regexp"@[0] != "module"@[0]);
        assert("regexp"@[0] != "number"@[0]);
        assert("regexp"@.len() == 6);
    }
    if t == "string"@ {
        assert("string"@[0] != "member"@[0]);
        assert("string"@[0] != "method"@[0]);
        assert("string"@[0] != "module"@[0]);
        assert("string"@[0] != "number"@[0]);
        assert("string"@[0] != "regexp"@[0]);
        assert("string"@.len() == 6);
    }
    if t == "struct"@ {
        assert("struct"@[0] != "member"@[0]);
        assert("struct"@[0] != "method"@[0]);
        assert("struct"@[0] != "module"@[0]);
        assert("struct"@[0] != "number"@[0]);
        assert("struct"@[0] != "regexp"@[0]);
        assert("struct"@[3] != "string"@[3]);
        assert("struct"@.len() == 6);
    }
    if t == "comment"@ {
        assert("comment"@.len() == 7);
    }
    if t == "keyword"@ {
        assert("keyword"@[0] != "comment"@[0]);
        assert("keyword"@.len() == 7);
    }
    if t == "function"@ {
        assert("function"@.len() == 8);
    }
    if t == "modifier"@ {
        assert("modifier"@[0] != "function"@[0]);
        assert("modifier"@.len() == 8);
    }
    if t == "operator"@ {
        assert("operator"@[0] != "function"@[0]);
        assert("operator"@[0] != "modifier"@[0]);
        assert("operator"@.len() == 8);
    }
    if t == "property"@ {
        assert("property"@[0] != "function"@[0]);
        assert("property"@[0] != "modifier"@[0]);
        assert("property"@[0] != "operator"@[0]);
        assert("property"@.len() == 8);
    }
    if t == "variable"@ {
        assert("variable"@[0] != "function"@[0]);
        assert("variable"@[0] != "modifier"@[0]);
        assert("variable"@[0] != "operator"@[0]);
        assert("variable"@[0] != "property"@[0]);
        assert("variable"@.len() == 8);
    }
    if t == "decorator"@ {
        assert("decorator"@.len() == 9);
    }
    if t == "interface"@ {
        assert("interface"@[0] != "decorator"@[0]);
        assert("interface"@.len() == 9);
    }
    if t == "namespace"@ {
        assert("namespace"@[0] != "decorator"@[0]);
        assert("namespace"@[0] != "interface"@[0]);
        assert("namespace"@.len() == 9);
    }
    if t == "parameter"@ {
        assert("parameter"@[0] != "decorator"@[0]);
        assert("parameter"@[0] != "interface"@[0]);
        assert("parameter"@[0] != "namespace"@[0]);
        assert("parameter"@.len() == 9);
    }
    if t == "enumMember"@ {
        assert("enumMember"@.len() == 10);
    }
    if t == "typeParameter"@ {
        assert("typeParameter"@.len() == 13);
    }
}

} // verus!
