//! Semantic-token highlighting: token types map to highlight kinds through the
//! server's legend, each token becomes a byte span of its line, and the spans of a
//! line are ordered and merged.

use ropey::Rope;
use vstd::prelude::*;

use crate::editor::{HighlightKind, HighlightSpan};
use crate::flat_store::lsp::{col_scan, lemma_line_to_char_mono, line_chars, rope_col_to_char_offset_in_line};
use crate::ports::{LspPositionEncoding, LspSemanticToken, LspSemanticTokensLegend};
use crate::rope::{
    char_to_byte, len_lines, line_to_char, rope_char_to_byte, rope_len_chars, rope_len_lines, rope_line_to_byte,
    rope_line_to_char, rope_text,
};
use crate::text::{lemma_utf8_len_take_mono, str_eq, string_views, utf8_len};

verus! {

/// The highlight kind of a token type name, and whether a `readonly` modifier turns
/// it into a constant. Operators stay unstyled.
pub open spec fn intel_token_kind(t: Seq<char>) -> (Option<HighlightKind>, bool) {
    if t == "comment"@ {
        (Some(HighlightKind::Comment), false)
    } else if t == "string"@ {
        (Some(HighlightKind::String), false)
    } else if t == "regexp"@ {
        (Some(HighlightKind::Regex), false)
    } else if t == "keyword"@ || t == "modifier"@ {
        (Some(HighlightKind::Keyword), false)
    } else if t == "operator"@ {
        (None, false)
    } else if t == "number"@ {
        (Some(HighlightKind::Number), false)
    } else if t == "type"@ || t == "struct"@ || t == "enum"@ || t == "interface"@ || t == "trait"@
        || t == "typeParameter"@ || t == "class"@ {
        (Some(HighlightKind::Type), false)
    } else if t == "function"@ {
        (Some(HighlightKind::Function), false)
    } else if t == "method"@ {
        (Some(HighlightKind::Method), false)
    } else if t == "member"@ {
        (Some(HighlightKind::Function), false)
    } else if t == "macro"@ {
        (Some(HighlightKind::Macro), false)
    } else if t == "enumMember"@ {
        (Some(HighlightKind::EnumMember), false)
    } else if t == "variable"@ {
        (Some(HighlightKind::Variable), true)
    } else if t == "parameter"@ {
        (Some(HighlightKind::Parameter), true)
    } else if t == "property"@ {
        (Some(HighlightKind::Property), true)
    } else if t == "event"@ {
        (Some(HighlightKind::Variable), true)
    } else if t == "namespace"@ || t == "module"@ {
        (Some(HighlightKind::Namespace), false)
    } else if t == "label"@ || t == "decorator"@ {
        (Some(HighlightKind::Attribute), false)
    } else {
        (None, false)
    }
}

/// The highlight kind of a token type name, and whether it is `readonly`-sensitive.
pub fn map_semantic_token_type(token_type: &str) -> (r: (Option<HighlightKind>, bool))
    ensures
        r == intel_token_kind(token_type@),
{
    if str_eq(token_type, "comment") {
        (Some(HighlightKind::Comment), false)
    } else if str_eq(token_type, "string") {
        (Some(HighlightKind::String), false)
    } else if str_eq(token_type, "regexp") {
        (Some(HighlightKind::Regex), false)
    } else if str_eq(token_type, "keyword") || str_eq(token_type, "modifier") {
        (Some(HighlightKind::Keyword), false)
    } else if str_eq(token_type, "operator") {
        (None, false)
    } else if str_eq(token_type, "number") {
        (Some(HighlightKind::Number), false)
    } else if str_eq(token_type, "type") || str_eq(token_type, "struct") || str_eq(token_type, "enum")
        || str_eq(token_type, "interface") || str_eq(token_type, "trait") || str_eq(token_type, "typeParameter")
        || str_eq(token_type, "class") {
        (Some(HighlightKind::Type), false)
    } else if str_eq(token_type, "function") {
        (Some(HighlightKind::Function), false)
    } else if str_eq(token_type, "method") {
        (Some(HighlightKind::Method), false)
    } else if str_eq(token_type, "member") {
        (Some(HighlightKind::Function), false)
    } else if str_eq(token_type, "macro") {
        (Some(HighlightKind::Macro), false)
    } else if str_eq(token_type, "enumMember") {
        (Some(HighlightKind::EnumMember), false)
    } else if str_eq(token_type, "variable") {
        (Some(HighlightKind::Variable), true)
    } else if str_eq(token_type, "parameter") {
        (Some(HighlightKind::Parameter), true)
    } else if str_eq(token_type, "property") {
        (Some(HighlightKind::Property), true)
    } else if str_eq(token_type, "event") {
        (Some(HighlightKind::Variable), true)
    } else if str_eq(token_type, "namespace") || str_eq(token_type, "module") {
        (Some(HighlightKind::Namespace), false)
    } else if str_eq(token_type, "label") || str_eq(token_type, "decorator") {
        (Some(HighlightKind::Attribute), false)
    } else {
        (None, false)
    }
}

/// Each token type name gets its own highlight kind: comments, strings, regular
/// expressions and numbers their own kinds; keywords and modifiers the keyword kind;
/// every kind of type the type kind; functions, methods and `member` the function
/// kind (methods their own); macros, enum members, namespaces and modules, labels and
/// decorators theirs; variables, parameters, properties and events their kinds, which
/// a `readonly` modifier can turn into constants. Operators and any name not listed
/// stay unstyled.
pub proof fn law_token_types_map_to_their_kinds(t: Seq<char>)
    ensures
        t == "comment"@ ==> intel_token_kind(t) == (Some(HighlightKind::Comment), false),
        t == "string"@ ==> intel_token_kind(t) == (Some(HighlightKind::String), false),
        t == "regexp"@ ==> intel_token_kind(t) == (Some(HighlightKind::Regex), false),
        t == "keyword"@ ==> intel_token_kind(t) == (Some(HighlightKind::Keyword), false),
        t == "modifier"@ ==> intel_token_kind(t) == (Some(HighlightKind::Keyword), false),
        t == "operator"@ ==> intel_token_kind(t) == (None::<HighlightKind>, false),
        t == "number"@ ==> intel_token_kind(t) == (Some(HighlightKind::Number), false),
        t == "type"@ ==> intel_token_kind(t) == (Some(HighlightKind::Type), false),
        t == "struct"@ ==> intel_token_kind(t) == (Some(HighlightKind::Type), false),
        t == "enum"@ ==> intel_token_kind(t) == (Some(HighlightKind::Type), false),
        t == "interface"@ ==> intel_token_kind(t) == (Some(HighlightKind::Type), false),
        t == "trait"@ ==> intel_token_kind(t) == (Some(HighlightKind::Type), false),
        t == "typeParameter"@ ==> intel_token_kind(t) == (Some(HighlightKind::Type), false),
        t == "class"@ ==> intel_token_kind(t) == (Some(HighlightKind::Type), false),
        t == "function"@ ==> intel_token_kind(t) == (Some(HighlightKind::Function), false),
        t == "method"@ ==> intel_token_kind(t) == (Some(HighlightKind::Method), false),
        t == "member"@ ==> intel_token_kind(t) == (Some(HighlightKind::Function), false),
        t == "macro"@ ==> intel_token_kind(t) == (Some(HighlightKind::Macro), false),
        t == "enumMember"@ ==> intel_token_kind(t) == (Some(HighlightKind::EnumMember), false),
        t == "variable"@ ==> intel_token_kind(t) == (Some(HighlightKind::Variable), true),
        t == "parameter"@ ==> intel_token_kind(t) == (Some(HighlightKind::Parameter), true),
        t == "property"@ ==> intel_token_kind(t) == (Some(HighlightKind::Property), true),
        t == "event"@ ==> intel_token_kind(t) == (Some(HighlightKind::Variable), true),
        t == "namespace"@ ==> intel_token_kind(t) == (Some(HighlightKind::Namespace), false),
        t == "module"@ ==> intel_token_kind(t) == (Some(HighlightKind::Namespace), false),
        t == "label"@ ==> intel_token_kind(t) == (Some(HighlightKind::Attribute), false),
        t == "decorator"@ ==> intel_token_kind(t) == (Some(HighlightKind::Attribute), false),
        (t != "comment"@ && t != "string"@ && t != "regexp"@ && t != "keyword"@ && t != "modifier"@ && t != "operator"@ && t != "number"@ && t != "type"@ && t != "struct"@ && t != "enum"@ && t != "interface"@ && t != "trait"@ && t != "typeParameter"@ && t != "class"@ && t != "function"@ && t != "method"@ && t != "member"@ && t != "macro"@ && t != "enumMember"@ && t != "variable"@ && t != "parameter"@ && t != "property"@ && t != "event"@ && t != "namespace"@ && t != "module"@ && t != "label"@ && t != "decorator"@) ==> intel_token_kind(t) == (None::<HighlightKind>, false),
{
    reveal_strlit("comment");
    reveal_strlit("string");
    reveal_strlit("regexp");
    reveal_strlit("keyword");
    reveal_strlit("modifier");
    reveal_strlit("operator");
    reveal_strlit("number");
    reveal_strlit("type");
    reveal_strlit("struct");
    reveal_strlit("enum");
    reveal_strlit("interface");
    reveal_strlit("trait");
    reveal_strlit("typeParameter");
    reveal_strlit("class");
    reveal_strlit("function");
    reveal_strlit("method");
    reveal_strlit("member");
    reveal_strlit("macro");
    reveal_strlit("enumMember");
    reveal_strlit("variable");
    reveal_strlit("parameter");
    reveal_strlit("property");
    reveal_strlit("event");
    reveal_strlit("namespace");
    reveal_strlit("module");
    reveal_strlit("label");
    reveal_strlit("decorator");
    if t == "comment"@ {

    }
    if t == "string"@ {
        assert("string"@.len() != "comment"@.len());
    }
    if t == "regexp"@ {
        assert("regexp"@.len() != "comment"@.len());
        assert("regexp"@[0] != "string"@[0]);
    }
    if t == "keyword"@ {
        assert("keyword"@[0] != "comment"@[0]);
        assert("keyword"@.len() != "string"@.len());
        assert("keyword"@.len() != "regexp"@.len());
    }
    if t == "modifier"@ {
        assert("modifier"@.len() != "comment"@.len());
        assert("modifier"@.len() != "string"@.len());
        assert("modifier"@.len() != "regexp"@.len());
        assert("modifier"@.len() != "keyword"@.len());
    }
    if t == "operator"@ {
        assert("operator"@.len() != "comment"@.len());
        assert("operator"@.len() != "string"@.len());
        assert("operator"@.len() != "regexp"@.len());
        assert("operator"@.len() != "keyword"@.len());
        assert("operator"@[0] != "modifier"@[0]);
    }
    if t == "number"@ {
        assert("number"@.len() != "comment"@.len());
        assert("number"@[0] != "string"@[0]);
        assert("number"@[0] != "regexp"@[0]);
        assert("number"@.len() != "keyword"@.len());
        assert("number"@.len() != "modifier"@.len());
        assert("number"@.len() != "operator"@.len());
    }
    if t == "type"@ {
        assert("type"@.len() != "comment"@.len());
        assert("type"@.len() != "string"@.len());
        assert("type"@.len() != "regexp"@.len());
        assert("type"@.len() != "keyword"@.len());
        assert("type"@.len() != "modifier"@.len());
        assert("type"@.len() != "operator"@.len());
        assert("type"@.len() != "number"@.len());
    }
    if t == "struct"@ {
        assert("struct"@.len() != "comment"@.len());
        assert("struct"@[3] != "string"@[3]);
        assert("struct"@[0] != "regexp"@[0]);
        assert("struct"@.len() != "keyword"@.len());
        assert("struct"@.len() != "modifier"@.len());
        assert("struct"@.len() != "operator"@.len());
        assert("struct"@[0] != "number"@[0]);
        assert("struct"@.len() != "type"@.len());
    }
    if t == "enum"@ {
        assert("enum"@.len() != "comment"@.len());
        assert("enum"@.len() != "string"@.len());
        assert("enum"@.len() != "regexp"@.len());
        assert("enum"@.len() != "keyword"@.len());
        assert("enum"@.len() != "modifier"@.len());
        assert("enum"@.len() != "operator"@.len());
        assert("enum"@.len() != "number"@.len());
        assert("enum"@[0] != "type"@[0]);
        assert("enum"@.len() != "struct"@.len());
    }
    if t == "interface"@ {
        assert("interface"@.len() != "comment"@.len());
        assert("interface"@.len() != "string"@.len());
        assert("interface"@.len() != "regexp"@.len());
        assert("interface"@.len() != "keyword"@.len());
        assert("interface"@.len() != "modifier"@.len());
        assert("interface"@.len() != "operator"@.len());
        assert("interface"@.len() != "number"@.len());
        assert("interface"@.len() != "type"@.len());
        assert("interface"@.len() != "struct"@.len());
        assert("interface"@.len() != "enum"@.len());
    }
    if t == "trait"@ {
        assert("trait"@.len() != "comment"@.len());
        assert("trait"@.len() != "string"@.len());
        assert("trait"@.len() != "regexp"@.len());
        assert("trait"@.len() != "keyword"@.len());
        assert("trait"@.len() != "modifier"@.len());
        assert("trait"@.len() != "operator"@.len());
        assert("trait"@.len() != "number"@.len());
        assert("trait"@.len() != "type"@.len());
        assert("trait"@.len() != "struct"@.len());
        assert("trait"@.len() != "enum"@.len());
        assert("trait"@.len() != "interface"@.len());
    }
    if t == "typeParameter"@ {
        assert("typeParameter"@.len() != "comment"@.len());
        assert("typeParameter"@.len() != "string"@.len());
        assert("typeParameter"@.len() != "regexp"@.len());
        assert("typeParameter"@.len() != "keyword"@.len());
        assert("typeParameter"@.len() != "modifier"@.len());
        assert("typeParameter"@.len() != "operator"@.len());
        assert("typeParameter"@.len() != "number"@.len());
        assert("typeParameter"@.len() != "type"@.len());
        assert("typeParameter"@.len() != "struct"@.len());
        assert("typeParameter"@.len() != "enum"@.len());
        assert("typeParameter"@.len() != "interface"@.len());
        assert("typeParameter"@.len() != "trait"@.len());
    }
    if t == "class"@ {
        assert("class"@.len() != "comment"@.len());
        assert("class"@.len() != "string"@.len());
        assert("class"@.len() != "regexp"@.len());
        assert("class"@.len() != "keyword"@.len());
        assert("class"@.len() != "modifier"@.len());
        assert("class"@.len() != "operator"@.len());
        assert("class"@.len() != "number"@.len());
        assert("class"@.len() != "type"@.len());
        assert("class"@.len() != "struct"@.len());
        assert("class"@.len() != "enum"@.len());
        assert("class"@.len() != "interface"@.len());
        assert("class"@[0] != "trait"@[0]);
        assert("class"@.len() != "typeParameter"@.len());
    }
    if t == "function"@ {
        assert("function"@.len() != "comment"@.len());
        assert("function"@.len() != "string"@.len());
        assert("function"@.len() != "regexp"@.len());
        assert("function"@.len() != "keyword"@.len());
        assert("function"@[0] != "modifier"@[0]);
        assert("function"@[0] != "operator"@[0]);
        assert("function"@.len() != "number"@.len());
        assert("function"@.len() != "type"@.len());
        assert("function"@.len() != "struct"@.len());
        assert("function"@.len() != "enum"@.len());
        assert("function"@.len() != "interface"@.len());
        assert("function"@.len() != "trait"@.len());
        assert("function"@.len() != "typeParameter"@.len());
        assert("function"@.len() != "class"@.len());
    }
    if t == "method"@ {
        assert("method"@.len() != "comment"@.len());
        assert("method"@[0] != "string"@[0]);
        assert("method"@[0] != "regexp"@[0]);
        assert("method"@.len() != "keyword"@.len());
        assert("method"@.len() != "modifier"@.len());
        assert("method"@.len() != "operator"@.len());
        assert("method"@[0] != "number"@[0]);
        assert("method"@.len() != "type"@.len());
        assert("method"@[0] != "struct"@[0]);
        assert("method"@.len() != "enum"@.len());
        assert("method"@.len() != "interface"@.len());
        assert("method"@.len() != "trait"@.len());
        assert("method"@.len() != "typeParameter"@.len());
        assert("method"@.len() != "class"@.len());
        assert("method"@.len() != "function"@.len());
    }
    if t == "member"@ {
        assert("member"@.len() != "comment"@.len());
        assert("member"@[0] != "string"@[0]);
        assert("member"@[0] != "regexp"@[0]);
        assert("member"@.len() != "keyword"@.len());
        assert("member"@.len() != "modifier"@.len());
        assert("member"@.len() != "operator"@.len());
        assert("member"@[0] != "number"@[0]);
        assert("member"@.len() != "type"@.len());
        assert("member"@[0] != "struct"@[0]);
        assert("member"@.len() != "enum"@.len());
        assert("member"@.len() != "interface"@.len());
        assert("member"@.len() != "trait"@.len());
        assert("member"@.len() != "typeParameter"@.len());
        assert("member"@.len() != "class"@.len());
        assert("member"@.len() != "function"@.len());
        assert("member"@[2] != "method"@[2]);
    }
    if t == "macro"@ {
        assert("macro"@.len() != "comment"@.len());
        assert("macro"@.len() != "string"@.len());
        assert("macro"@.len() != "regexp"@.len());
        assert("macro"@.len() != "keyword"@.len());
        assert("macro"@.len() != "modifier"@.len());
        assert("macro"@.len() != "operator"@.len());
        assert("macro"@.len() != "number"@.len());
        assert("macro"@.len() != "type"@.len());
        assert("macro"@.len() != "struct"@.len());
        assert("macro"@.len() != "enum"@.len());
        assert("macro"@.len() != "interface"@.len());
        assert("macro"@[0] != "trait"@[0]);
        assert("macro"@.len() != "typeParameter"@.len());
        assert("macro"@[0] != "class"@[0]);
        assert("macro"@.len() != "function"@.len());
        assert("macro"@.len() != "method"@.len());
        assert("macro"@.len() != "member"@.len());
    }
    if t == "enumMember"@ {
        assert("enumMember"@.len() != "comment"@.len());
        assert("enumMember"@.len() != "string"@.len());
        assert("enumMember"@.len() != "regexp"@.len());
        assert("enumMember"@.len() != "keyword"@.len());
        assert("enumMember"@.len() != "modifier"@.len());
        assert("enumMember"@.len() != "operator"@.len());
        assert("enumMember"@.len() != "number"@.len());
        assert("enumMember"@.len() != "type"@.len());
        assert("enumMember"@.len() != "struct"@.len());
        assert("enumMember"@.len() != "enum"@.len());
        assert("enumMember"@.len() != "interface"@.len());
        assert("enumMember"@.len() != "trait"@.len());
        assert("enumMember"@.len() != "typeParameter"@.len());
        assert("enumMember"@.len() != "class"@.len());
        assert("enumMember"@.len() != "function"@.len());
        assert("enumMember"@.len() != "method"@.len());
        assert("enumMember"@.len() != "member"@.len());
        assert("enumMember"@.len() != "macro"@.len());
    }
    if t == "variable"@ {
        assert("variable"@.len() != "comment"@.len());
        assert("variable"@.len() != "string"@.len());
        assert("variable"@.len() != "regexp"@.len());
        assert("variable"@.len() != "keyword"@.len());
        assert("variable"@[0] != "modifier"@[0]);
        assert("variable"@[0] != "operator"@[0]);
        assert("variable"@.len() != "number"@.len());
        assert("variable"@.len() != "type"@.len());
        assert("variable"@.len() != "struct"@.len());
        assert("variable"@.len() != "enum"@.len());
        assert("variable"@.len() != "interface"@.len());
        assert("variable"@.len() != "trait"@.len());
        assert("variable"@.len() != "typeParameter"@.len());
        assert("variable"@.len() != "class"@.len());
        assert("variable"@[0] != "function"@[0]);
        assert("variable"@.len() != "method"@.len());
        assert("variable"@.len() != "member"@.len());
        assert("variable"@.len() != "macro"@.len());
        assert("variable"@.len() != "enumMember"@.len());
    }
    if t == "parameter"@ {
        assert("parameter"@.len() != "comment"@.len());
        assert("parameter"@.len() != "string"@.len());
        assert("parameter"@.len() != "regexp"@.len());
        assert("parameter"@.len() != "keyword"@.len());
        assert("parameter"@.len() != "modifier"@.len());
        assert("parameter"@.len() != "operator"@.len());
        assert("parameter"@.len() != "number"@.len());
        assert("parameter"@.len() != "type"@.len());
        assert("parameter"@.len() != "struct"@.len());
        assert("parameter"@.len() != "enum"@.len());
        assert("parameter"@[0] != "interface"@[0]);
        assert("parameter"@.len() != "trait"@.len());
        assert("parameter"@.len() != "typeParameter"@.len());
        assert("parameter"@.len() != "class"@.len());
        assert("parameter"@.len() != "function"@.len());
        assert("parameter"@.len() != "method"@.len());
        assert("parameter"@.len() != "member"@.len());
        assert("parameter"@.len() != "macro"@.len());
        assert("parameter"@.len() != "enumMember"@.len());
        assert("parameter"@.len() != "variable"@.len());
    }
    if t == "property"@ {
        assert("property"@.len() != "comment"@.len());
        assert("property"@.len() != "string"@.len());
        assert("property"@.len() != "regexp"@.len());
        assert("property"@.len() != "keyword"@.len());
        assert("property"@[0] != "modifier"@[0]);
        assert("property"@[0] != "operator"@[0]);
        assert("property"@.len() != "number"@.len());
        assert("property"@.len() != "type"@.len());
        assert("property"@.len() != "struct"@.len());
        assert("property"@.len() != "enum"@.len());
        assert("property"@.len() != "interface"@.len());
        assert("property"@.len() != "trait"@.len());
        assert("property"@.len() != "typeParameter"@.len());
        assert("property"@.len() != "class"@.len());
        assert("property"@[0] != "function"@[0]);
        assert("property"@.len() != "method"@.len());
        assert("property"@.len() != "member"@.len());
        assert("property"@.len() != "macro"@.len());
        assert("property"@.len() != "enumMember"@.len());
        assert("property"@[0] != "variable"@[0]);
        assert("property"@.len() != "parameter"@.len());
    }
    if t == "event"@ {
        assert("event"@.len() != "comment"@.len());
        assert("event"@.len() != "string"@.len());
        assert("event"@.len() != "regexp"@.len());
        assert("event"@.len() != "keyword"@.len());
        assert("event"@.len() != "modifier"@.len());
        assert("event"@.len() != "operator"@.len());
        assert("event"@.len() != "number"@.len());
        assert("event"@.len() != "type"@.len());
        assert("event"@.len() != "struct"@.len());
        assert("event"@.len() != "enum"@.len());
        assert("event"@.len() != "interface"@.len());
        assert("event"@[0] != "trait"@[0]);
        assert("event"@.len() != "typeParameter"@.len());
        assert("event"@[0] != "class"@[0]);
        assert("event"@.len() != "function"@.len());
        assert("event"@.len() != "method"@.len());
        assert("event"@.len() != "member"@.len());
        assert("event"@[0] != "macro"@[0]);
        assert("event"@.len() != "enumMember"@.len());
        assert("event"@.len() != "variable"@.len());
        assert("event"@.len() != "parameter"@.len());
        assert("event"@.len() != "property"@.len());
    }
    if t == "namespace"@ {
        assert("namespace"@.len() != "comment"@.len());
        assert("namespace"@.len() != "string"@.len());
        assert("namespace"@.len() != "regexp"@.len());
        assert("namespace"@.len() != "keyword"@.len());
        assert("namespace"@.len() != "modifier"@.len());
        assert("namespace"@.len() != "operator"@.len());
        assert("namespace"@.len() != "number"@.len());
        assert("namespace"@.len() != "type"@.len());
        assert("namespace"@.len() != "struct"@.len());
        assert("namespace"@.len() != "enum"@.len());
        assert("namespace"@[0] != "interface"@[0]);
        assert("namespace"@.len() != "trait"@.len());
        assert("namespace"@.len() != "typeParameter"@.len());
        assert("namespace"@.len() != "class"@.len());
        assert("namespace"@.len() != "function"@.len());
        assert("namespace"@.len() != "method"@.len());
        assert("namespace"@.len() != "member"@.len());
        assert("namespace"@.len() != "macro"@.len());
        assert("namespace"@.len() != "enumMember"@.len());
        assert("namespace"@.len() != "variable"@.len());
        assert("namespace"@[0] != "parameter"@[0]);
        assert("namespace"@.len() != "property"@.len());
        assert("namespace"@.len() != "event"@.len());
    }
    if t == "module"@ {
        assert("module"@.len() != "comment"@.len());
        assert("module"@[0] != "string"@[0]);
        assert("module"@[0] != "regexp"@[0]);
        assert("module"@.len() != "keyword"@.len());
        assert("module"@.len() != "modifier"@.len());
        assert("module"@.len() != "operator"@.len());
        assert("module"@[0] != "number"@[0]);
        assert("module"@.len() != "type"@.len());
        assert("module"@[0] != "struct"@[0]);
        assert("module"@.len() != "enum"@.len());
        assert("module"@.len() != "interface"@.len());
        assert("module"@.len() != "trait"@.len());
        assert("module"@.len() != "typeParameter"@.len());
        assert("module"@.len() != "class"@.len());
        assert("module"@.len() != "function"@.len());
        assert("module"@[1] != "method"@[1]);
        assert("module"@[1] != "member"@[1]);
        assert("module"@.len() != "macro"@.len());
        assert("module"@.len() != "enumMember"@.len());
        assert("module"@.len() != "variable"@.len());
        assert("module"@.len() != "parameter"@.len());
        assert("module"@.len() != "property"@.len());
        assert("module"@.len() != "event"@.len());
        assert("module"@.len() != "namespace"@.len());
    }
    if t == "label"@ {
        assert("label"@.len() != "comment"@.len());
        assert("label"@.len() != "string"@.len());
        assert("label"@.len() != "regexp"@.len());
        assert("label"@.len() != "keyword"@.len());
        assert("label"@.len() != "modifier"@.len());
        assert("label"@.len() != "operator"@.len());
        assert("label"@.len() != "number"@.len());
        assert("label"@.len() != "type"@.len());
        assert("label"@.len() != "struct"@.len());
        assert("label"@.len() != "enum"@.len());
        assert("label"@.len() != "interface"@.len());
        assert("label"@[0] != "trait"@[0]);
        assert("label"@.len() != "typeParameter"@.len());
        assert("label"@[0] != "class"@[0]);
        assert("label"@.len() != "function"@.len());
        assert("label"@.len() != "method"@.len());
        assert("label"@.len() != "member"@.len());
        assert("label"@[0] != "macro"@[0]);
        assert("label"@.len() != "enumMember"@.len());
        assert("label"@.len() != "variable"@.len());
        assert("label"@.len() != "parameter"@.len());
        assert("label"@.len() != "property"@.len());
        assert("label"@[0] != "event"@[0]);
        assert("label"@.len() != "namespace"@.len());
        assert("label"@.len() != "module"@.len());
    }
    if t == "decorator"@ {
        assert("decorator"@.len() != "comment"@.len());
        assert("decorator"@.len() != "string"@.len());
        assert("decorator"@.len() != "regexp"@.len());
        assert("decorator"@.len() != "keyword"@.len());
        assert("decorator"@.len() != "modifier"@.len());
        assert("decorator"@.len() != "operator"@.len());
        assert("decorator"@.len() != "number"@.len());
        assert("decorator"@.len() != "type"@.len());
        assert("decorator"@.len() != "struct"@.len());
        assert("decorator"@.len() != "enum"@.len());
        assert("decorator"@[0] != "interface"@[0]);
        assert("decorator"@.len() != "trait"@.len());
        assert("decorator"@.len() != "typeParameter"@.len());
        assert("decorator"@.len() != "class"@.len());
        assert("decorator"@.len() != "function"@.len());
        assert("decorator"@.len() != "method"@.len());
        assert("decorator"@.len() != "member"@.len());
        assert("decorator"@.len() != "macro"@.len());
        assert("decorator"@.len() != "enumMember"@.len());
        assert("decorator"@.len() != "variable"@.len());
        assert("decorator"@[0] != "parameter"@[0]);
        assert("decorator"@.len() != "property"@.len());
        assert("decorator"@.len() != "event"@.len());
        assert("decorator"@[0] != "namespace"@[0]);
        assert("decorator"@.len() != "module"@.len());
        assert("decorator"@.len() != "label"@.len());
    }
}

/// The first index at or after `i` where `v` holds `name`.
pub open spec fn position_from(v: Seq<Seq<char>>, name: Seq<char>, i: int) -> Option<int>
    decreases v.len() - i,
{
    if i < 0 || i >= v.len() {
        None
    } else if v[i] == name {
        Some(i)
    } else {
        position_from(v, name, i + 1)
    }
}

/// The bit of modifier `name` in a token's modifier set: none when the legend lacks it
/// or its index does not fit in 32 bits.
pub open spec fn modifier_bit(v: Seq<Seq<char>>, name: Seq<char>) -> Option<u32> {
    match position_from(v, name, 0) {
        Some(i) => if i < 32 {
            Some(1u32 << (i as u32))
        } else {
            None
        },
        None => None,
    }
}

/// Whether modifier set `mods` holds modifier `name` of the legend.
pub open spec fn has_modifier(mods: u32, v: Seq<Seq<char>>, name: Seq<char>) -> bool {
    match modifier_bit(v, name) {
        Some(b) => mods & b != 0,
        None => false,
    }
}

/// The index of the first modifier named `name`.
pub fn modifier_position(modifiers: &Vec<String>, name: &str) -> (r: Option<usize>)
    ensures
        match r {
            Some(i) => position_from(string_views(modifiers@), name@, 0) == Some(i as int),
            None => position_from(string_views(modifiers@), name@, 0) is None,
        },
{
    let ghost v = string_views(modifiers@);
    let mut i: usize = 0;
    while i < modifiers.len()
        invariant
            i <= modifiers.len(),
            v == string_views(modifiers@),
            position_from(v, name@, 0) == position_from(v, name@, i as int),
        decreases modifiers.len() - i,
    {
        if str_eq(modifiers[i].as_str(), name) {
            return Some(i);
        }
        i += 1;
    }
    None
}

/// The bit of modifier `name`, as `modifier_bit` describes it.
pub fn modifier_bit_exec(modifiers: &Vec<String>, name: &str) -> (r: Option<u32>)
    ensures
        r == modifier_bit(string_views(modifiers@), name@),
{
    match modifier_position(modifiers, name) {
        Some(i) => if i < 32 {
            let shift: u32 = i as u32;
            Some(1u32 << shift)
        } else {
            None
        },
        None => None,
    }
}

/// Whether `modifiers` holds the legend's modifier `name`; false when the legend lacks it
/// or its bit does not fit in 32 bits.
pub fn has_semantic_modifier(modifiers: u32, legend: &LspSemanticTokensLegend, name: &str) -> (r: bool)
    ensures
        r == has_modifier(modifiers, string_views(legend.token_modifiers@), name@),
{
    match modifier_bit_exec(&legend.token_modifiers, name) {
        Some(bit) => modifiers & bit != 0,
        None => false,
    }
}

/// The highlight kind of a token of type `t` with modifier set `mods`: readonly
/// variables, parameters, properties and events are constants.
pub open spec fn intel_kind_for(t: Seq<char>, mods: u32, legend_mods: Seq<Seq<char>>) -> Option<HighlightKind> {
    let (kind, sensitive) = intel_token_kind(t);
    if sensitive && has_modifier(mods, legend_mods, "readonly"@) {
        Some(HighlightKind::Constant)
    } else {
        kind
    }
}

/// The highlight kind of a token type name with its modifiers.
pub fn highlight_kind_for_semantic_token(token_type: &str, modifiers: u32, legend: &LspSemanticTokensLegend) -> (r:
    Option<HighlightKind>)
    ensures
        r == intel_kind_for(token_type@, modifiers, string_views(legend.token_modifiers@)),
{
    let (kind, sensitive) = map_semantic_token_type(token_type);
    if sensitive && has_semantic_modifier(modifiers, legend, "readonly") {
        Some(HighlightKind::Constant)
    } else {
        kind
    }
}

/// The kind a token gets through a legend with these type and modifier names: none
/// when its type index lies outside the legend.
pub open spec fn lookup_kind(types: Seq<Seq<char>>, mods: Seq<Seq<char>>, tok: LspSemanticToken) -> Option<
    HighlightKind,
> {
    if tok.token_type < types.len() {
        intel_kind_for(types[tok.token_type as int], tok.modifiers, mods)
    } else {
        None
    }
}

/// The kind of each token through a legend.
pub open spec fn lookup_kinds(types: Seq<Seq<char>>, mods: Seq<Seq<char>>, tokens: Seq<LspSemanticToken>) -> Seq<
    Option<HighlightKind>,
> {
    tokens.map_values(|tok: LspSemanticToken| lookup_kind(types, mods, tok))
}

/// A legend resolved once: the kind and readonly sensitivity of each type index, and
/// the bit of the `readonly` modifier.
pub struct LegendLookup {
    kind_by_type_idx: Vec<Option<HighlightKind>>,
    readonly_sensitive: Vec<bool>,
    readonly_modifier_bit: Option<u32>,
    types: Ghost<Seq<Seq<char>>>,
    modifiers: Ghost<Seq<Seq<char>>>,
}

impl LegendLookup {
    #[verifier::type_invariant]
    spec fn inv(self) -> bool {
        &&& self.kind_by_type_idx@.len() == self.types@.len()
        &&& self.readonly_sensitive@.len() == self.types@.len()
        &&& forall|i: int|
            0 <= i < self.types@.len() ==> (#[trigger] self.kind_by_type_idx@[i], self.readonly_sensitive@[i])
                == intel_token_kind(self.types@[i])
        &&& self.readonly_modifier_bit == modifier_bit(self.modifiers@, "readonly"@)
    }

    /// The legend's token type names.
    pub closed spec fn token_types(&self) -> Seq<Seq<char>> {
        self.types@
    }

    /// The legend's modifier names.
    pub closed spec fn token_modifiers(&self) -> Seq<Seq<char>> {
        self.modifiers@
    }

    /// Resolves every type name of `legend` and the bit of its `readonly` modifier.
    pub fn new(legend: &LspSemanticTokensLegend) -> (r: Self)
        ensures
            r.token_types() == string_views(legend.token_types@),
            r.token_modifiers() == string_views(legend.token_modifiers@),
    {
        let ghost types = string_views(legend.token_types@);
        let mut kind_by_type_idx: Vec<Option<HighlightKind>> = Vec::new();
        let mut readonly_sensitive: Vec<bool> = Vec::new();
        let mut i: usize = 0;
        while i < legend.token_types.len()
            invariant
                i <= legend.token_types.len(),
                types == string_views(legend.token_types@),
                kind_by_type_idx@.len() == i,
                readonly_sensitive@.len() == i,
                forall|k: int|
                    0 <= k < i ==> (#[trigger] kind_by_type_idx@[k], readonly_sensitive@[k]) == intel_token_kind(
                        types[k],
                    ),
            decreases legend.token_types.len() - i,
        {
            let (kind, sensitive) = map_semantic_token_type(legend.token_types[i].as_str());
            kind_by_type_idx.push(kind);
            readonly_sensitive.push(sensitive);
            i += 1;
        }
        let readonly_modifier_bit = modifier_bit_exec(&legend.token_modifiers, "readonly");
        LegendLookup {
            kind_by_type_idx,
            readonly_sensitive,
            readonly_modifier_bit,
            types: Ghost(types),
            modifiers: Ghost(string_views(legend.token_modifiers@)),
        }
    }

    /// The kind of `token`: what its type name and modifiers give through the legend.
    pub fn kind_for(&self, token: &LspSemanticToken) -> (r: Option<HighlightKind>)
        ensures
            r == lookup_kind(self.token_types(), self.token_modifiers(), *token),
    {
        proof {
            use_type_invariant(self);
        }
        let idx = token.token_type as usize;
        if idx >= self.kind_by_type_idx.len() {
            return None;
        }
        proof {
            assert(self.kind_by_type_idx@[idx as int] == intel_token_kind(self.types@[idx as int]).0);
        }
        let kind = self.kind_by_type_idx[idx];
        let readonly = match self.readonly_modifier_bit {
            Some(bit) => token.modifiers & bit != 0,
            None => false,
        };
        if self.readonly_sensitive[idx] && readonly {
            Some(HighlightKind::Constant)
        } else {
            kind
        }
    }
}

/// Order of spans on a line: by start, then by end.
pub open spec fn span_le(a: HighlightSpan, b: HighlightSpan) -> bool {
    a.start < b.start || (a.start == b.start && a.end <= b.end)
}

/// Inserts `x` after the last span of `s` that does not come after it.
pub open spec fn insert_span(s: Seq<HighlightSpan>, x: HighlightSpan) -> Seq<HighlightSpan>
    decreases s.len(),
{
    if s.len() == 0 {
        seq![x]
    } else if span_le(s.last(), x) {
        s.push(x)
    } else {
        insert_span(s.drop_last(), x).push(s.last())
    }
}

/// Appends `x` to merged spans `m`, extending the last span instead when it has the
/// same kind and reaches `x`.
pub open spec fn merge_step(m: Seq<HighlightSpan>, x: HighlightSpan) -> Seq<HighlightSpan> {
    if m.len() > 0 && m.last().kind == x.kind && m.last().end >= x.start {
        m.update(
            m.len() - 1,
            HighlightSpan {
                start: m.last().start,
                end: if m.last().end >= x.end {
                    m.last().end
                } else {
                    x.end
                },
                kind: m.last().kind,
            },
        )
    } else {
        m.push(x)
    }
}

/// Spans with each run of same-kind spans that touch merged into one.
pub open spec fn merge_spans(s: Seq<HighlightSpan>) -> Seq<HighlightSpan>
    decreases s.len(),
{
    if s.len() == 0 {
        Seq::empty()
    } else {
        merge_step(merge_spans(s.drop_last()), s.last())
    }
}

/// Byte bounds, from the start of its line, of the text a token covers: its start
/// and end columns converted to chars of the line and clamped to the text.
pub open spec fn token_span(t: Seq<char>, tok: LspSemanticToken, enc: LspPositionEncoding) -> (int, int) {
    let row = tok.line as nat;
    let l = line_chars(t, row);
    let ls = line_to_char(t, row);
    let sc = col_scan(l, 0, 0, tok.start as nat, enc);
    let ec = col_scan(l, 0, 0, tok.start.saturating_add(tok.length) as nat, enc);
    let s_char = if ls + sc < t.len() {
        ls + sc
    } else {
        t.len() as nat
    };
    let e_char = if ls + ec < t.len() {
        ls + ec
    } else {
        t.len() as nat
    };
    let lb = char_to_byte(t, ls as int);
    (char_to_byte(t, s_char as int) - lb, char_to_byte(t, e_char as int) - lb)
}

/// The spans of line `row`, before merging: one for each token on that line with a kind
/// and a nonempty span, ordered by start and end, ties in token order.
pub open spec fn line_spans(
    t: Seq<char>,
    tokens: Seq<LspSemanticToken>,
    kinds: Seq<Option<HighlightKind>>,
    enc: LspPositionEncoding,
    row: int,
) -> Seq<HighlightSpan>
    decreases tokens.len(),
{
    if tokens.len() == 0 {
        Seq::empty()
    } else {
        let rest = line_spans(t, tokens.drop_last(), kinds.drop_last(), enc, row);
        let tok = tokens.last();
        let (s, e) = token_span(t, tok, enc);
        if tok.line == row && row < len_lines(t) && kinds.last() is Some && s < e {
            insert_span(rest, HighlightSpan { start: s as usize, end: e as usize, kind: kinds.last()->0 })
        } else {
            rest
        }
    }
}

/// No two neighbouring spans have the same kind and touch.
pub open spec fn spans_separated(m: Seq<HighlightSpan>) -> bool {
    forall|i: int, j: int|
        #![trigger m[i], m[j]]
        0 <= i && j == i + 1 && j < m.len() ==> !(m[i].kind == m[j].kind && m[i].end >= m[j].start)
}

/// After merging, no two neighbouring spans of the same kind touch or overlap.
pub proof fn law_merged_spans_are_separated(s: Seq<HighlightSpan>)
    ensures
        spans_separated(merge_spans(s)),
        merge_spans(s).len() <= s.len(),
    decreases s.len(),
{
    if s.len() > 0 {
        let m = merge_spans(s.drop_last());
        law_merged_spans_are_separated(s.drop_last());
        let x = s.last();
        let r = merge_step(m, x);
        assert forall|i: int, j: int| 0 <= i && j == i + 1 && j < r.len() implies !(#[trigger] r[i].kind
            == #[trigger] r[j].kind && r[i].end >= r[j].start) by {
            if m.len() > 0 && m.last().kind == x.kind && m.last().end >= x.start {
                assert(r[i] == m[i]);
                assert(r[j].start == m[j].start && r[j].kind == m[j].kind);
            } else if j < m.len() {
                assert(r[i] == m[i] && r[j] == m[j]);
            }
        }
    }
}

/// Whether span starts never decrease along `s`.
pub open spec fn starts_sorted(s: Seq<HighlightSpan>) -> bool {
    forall|i: int, j: int| 0 <= i < j < s.len() ==> #[trigger] s[i].start <= #[trigger] s[j].start
}

/// Whether some span of `s` of kind `k` covers position `p`.
pub open spec fn covers(s: Seq<HighlightSpan>, k: HighlightKind, p: int) -> bool {
    exists|i: int| 0 <= i < s.len() && #[trigger] s[i].kind == k && s[i].start <= p < s[i].end
}

proof fn lemma_merge_starts(s: Seq<HighlightSpan>)
    requires
        starts_sorted(s),
    ensures
        starts_sorted(merge_spans(s)),
        s.len() > 0 ==> forall|i: int| 0 <= i < merge_spans(s).len() ==> #[trigger] merge_spans(s)[i].start <= s.last().start,
    decreases s.len(),
{
    if s.len() > 0 {
        let t = s.drop_last();
        assert(starts_sorted(t)) by {
            assert forall|i: int, j: int| 0 <= i < j < t.len() implies #[trigger] t[i].start <= #[trigger] t[j].start by {
                assert(t[i] == s[i] && t[j] == s[j]);
            }
        }
        lemma_merge_starts(t);
        let m = merge_spans(t);
        let x = s.last();
        if t.len() > 0 {
            assert(t.last() == s[s.len() - 2]);
            assert forall|i: int| 0 <= i < m.len() implies #[trigger] m[i].start <= x.start by {
                assert(m[i].start <= t.last().start);
            }
        } else {
            assert(m.len() == 0);
        }
    }
}

proof fn lemma_covers_push(m: Seq<HighlightSpan>, x: HighlightSpan, k: HighlightKind, p: int)
    ensures
        covers(m.push(x), k, p) == (covers(m, k, p) || (x.kind == k && x.start <= p < x.end)),
{
    let r = m.push(x);
    if covers(m, k, p) {
        let i = choose|i: int| 0 <= i < m.len() && #[trigger] m[i].kind == k && m[i].start <= p < m[i].end;
        assert(r[i] == m[i]);
    }
    if x.kind == k && x.start <= p < x.end {
        assert(r[m.len() as int] == x);
    }
    if covers(r, k, p) {
        let i = choose|i: int| 0 <= i < r.len() && #[trigger] r[i].kind == k && r[i].start <= p < r[i].end;
        if i < m.len() {
            assert(r[i] == m[i]);
        }
    }
}

proof fn lemma_merge_covers(s: Seq<HighlightSpan>, k: HighlightKind, p: int)
    requires
        starts_sorted(s),
    ensures
        covers(merge_spans(s), k, p) == covers(s, k, p),
    decreases s.len(),
{
    if s.len() > 0 {
        let t = s.drop_last();
        let x = s.last();
        assert(s =~= t.push(x));
        assert(starts_sorted(t)) by {
            assert forall|i: int, j: int| 0 <= i < j < t.len() implies #[trigger] t[i].start <= #[trigger] t[j].start by {
                assert(t[i] == s[i] && t[j] == s[j]);
            }
        }
        lemma_merge_covers(t, k, p);
        lemma_merge_starts(t);
        lemma_covers_push(t, x, k, p);
        let m = merge_spans(t);
        if m.len() > 0 && m.last().kind == x.kind && m.last().end >= x.start {
            let n = m.len() - 1;
            let y = m.last();
            let r = merge_step(m, x);
            assert(y.start <= x.start) by {
                assert(m[n].start <= t.last().start);
                assert(t.last() == s[s.len() - 2]);
            }
            let front = m.drop_last();
            assert(m =~= front.push(y));
            assert(r =~= front.push(r[n]));
            lemma_covers_push(front, y, k, p);
            lemma_covers_push(front, r[n], k, p);
        } else {
            lemma_covers_push(m, x, k, p);
        }
    }
}

proof fn lemma_merge_step_push(t: Seq<HighlightSpan>, x: HighlightSpan)
    requires
        !(t.len() > 0 && t.last().kind == x.kind && t.last().end >= x.start),
    ensures
        merge_step(t, x) == t.push(x),
{
}

proof fn lemma_merge_separated_is_identity(m: Seq<HighlightSpan>)
    requires
        spans_separated(m),
    ensures
        merge_spans(m) == m,
    decreases m.len(),
{
    if m.len() > 0 {
        let t = m.drop_last();
        let x = m.last();
        assert(spans_separated(t)) by {
            assert forall|i: int, j: int| 0 <= i && j == i + 1 && j < t.len() implies !(#[trigger] t[i].kind
                == #[trigger] t[j].kind && t[i].end >= t[j].start) by {
                assert(t[i] == m[i] && t[j] == m[j]);
            }
        }
        lemma_merge_separated_is_identity(t);
        if t.len() > 0 {
            let i = m.len() - 2;
            assert(t.last() == m[i]);
            assert(m[i + 1] == x);
        }
        lemma_merge_step_push(t, x);
        assert(t.push(x) =~= m);
    }
}

/// Law: merging spans whose starts are in order keeps the starts in order, and for
/// every kind covers exactly the positions the input covered with that kind; merging
/// again changes nothing.
pub proof fn law_merge_keeps_coverage(s: Seq<HighlightSpan>)
    requires
        starts_sorted(s),
    ensures
        starts_sorted(merge_spans(s)),
        forall|k: HighlightKind, p: int| #[trigger] covers(merge_spans(s), k, p) == covers(s, k, p),
        merge_spans(merge_spans(s)) == merge_spans(s),
{
    lemma_merge_starts(s);
    assert forall|k: HighlightKind, p: int| #[trigger] covers(merge_spans(s), k, p) == covers(s, k, p) by {
        lemma_merge_covers(s, k, p);
    }
    let m = merge_spans(s);
    law_merged_spans_are_separated(s);
    lemma_merge_separated_is_identity(m);
}

/// Merges, in place, neighbouring spans of the same kind where one reaches the next.
pub fn merge_adjacent_highlight_spans(spans: &mut Vec<HighlightSpan>)
    ensures
        final(spans)@ == merge_spans(old(spans)@),
{
    let ghost s = spans@;
    if spans.len() < 2 {
        proof {
            if s.len() == 1 {
                assert(s.drop_last() =~= Seq::<HighlightSpan>::empty());
                assert(merge_spans(s.drop_last()) == Seq::<HighlightSpan>::empty());
                assert(merge_spans(s) == Seq::<HighlightSpan>::empty().push(s.last()));
                assert(merge_spans(s) =~= s);
            }
        }
        return;
    }
    let len = spans.len();
    proof {
        assert(s.take(1).drop_last() =~= Seq::<HighlightSpan>::empty());
        assert(merge_spans(s.take(1).drop_last()) == Seq::<HighlightSpan>::empty());
        assert(merge_spans(s.take(1)) == Seq::<HighlightSpan>::empty().push(s[0]));
        assert(merge_spans(s.take(1)) =~= spans@.subrange(0, 1));
    }
    let mut write: usize = 1;
    let mut read: usize = 1;
    while read < len
        invariant
            1 <= write <= read <= len,
            len == s.len(),
            spans@.len() == len,
            spans@.subrange(0, write as int) == merge_spans(s.take(read as int)),
            forall|k: int| read <= k < len ==> spans@[k] == s[k],
        decreases len - read,
    {
        let span = spans[read];
        let prev = spans[write - 1];
        let ghost m = spans@.subrange(0, write as int);
        proof {
            assert(s.take(read + 1).drop_last() =~= s.take(read as int));
            assert(s.take(read + 1).last() == span);
            assert(m.last() == prev);
        }
        if prev.kind == span.kind && prev.end >= span.start {
            let end = if prev.end >= span.end {
                prev.end
            } else {
                span.end
            };
            spans.set(write - 1, HighlightSpan { start: prev.start, end, kind: prev.kind });
            proof {
                assert(spans@.subrange(0, write as int) =~= merge_step(m, span));
            }
        } else {
            spans.set(write, span);
            proof {
                assert(spans@.subrange(0, write + 1) =~= merge_step(m, span));
            }
            write += 1;
        }
        read += 1;
    }
    spans.truncate(write);
    proof {
        assert(s.take(len as int) =~= s);
        assert(spans@ =~= merge_spans(s));
    }
}

/// Inserts `x` into `row` as `insert_span` does.
fn insert_span_exec(row: &mut Vec<HighlightSpan>, x: HighlightSpan)
    ensures
        final(row)@ == insert_span(old(row)@, x),
{
    let ghost s = row@;
    let mut p: usize = row.len();
    assert(s.take(p as int) =~= s);
    assert(insert_span(s, x) =~= insert_span(s.take(p as int), x) + s.skip(p as int));
    let mut done: bool = p == 0;
    while !done
        invariant
            p <= row.len(),
            s == row@,
            insert_span(s, x) == insert_span(s.take(p as int), x) + s.skip(p as int),
            !done ==> p > 0,
            done ==> p == 0 || span_le(s[p - 1], x),
        decreases p + if done {
            0int
        } else {
            1int
        },
    {
        let e = row[p - 1];
        if e.start < x.start || (e.start == x.start && e.end <= x.end) {
            done = true;
        } else {
            proof {
                let t = s.take(p as int);
                assert(t.last() == s[p - 1]);
                assert(t.drop_last() =~= s.take(p - 1));
                assert(insert_span(t, x) == insert_span(s.take(p - 1), x).push(s[p - 1]));
                assert(s.skip(p - 1) =~= seq![s[p - 1]] + s.skip(p as int));
                assert(insert_span(s.take(p - 1), x).push(s[p - 1]) + s.skip(p as int) =~= insert_span(
                    s.take(p - 1),
                    x,
                ) + s.skip(p - 1));
            }
            p = p - 1;
            done = p == 0;
        }
    }
    proof {
        let t = s.take(p as int);
        if p == 0 {
            assert(t =~= Seq::<HighlightSpan>::empty());
            assert(insert_span(t, x) =~= t.push(x));
        } else {
            assert(t.last() == s[p - 1]);
            assert(insert_span(t, x) == t.push(x));
        }
    }
    row.insert(p, x);
    proof {
        assert(row@ =~= s.take(p as int).push(x) + s.skip(p as int));
    }
}

/// The byte bounds of a token's span on its line, as `token_span` gives them.
fn token_byte_span(rope: &Rope, tok: &LspSemanticToken, encoding: LspPositionEncoding) -> (r: (usize, usize))
    requires
        (tok.line as int) < len_lines(rope_text(*rope)),
    ensures
        r.0 == token_span(rope_text(*rope), *tok, encoding).0,
        r.1 == token_span(rope_text(*rope), *tok, encoding).1,
{
    let ghost t = rope_text(*rope);
    let row = tok.line as usize;
    let n = rope_len_chars(rope);
    let _total = rope_len_lines(rope);
    let start_chars = rope_col_to_char_offset_in_line(rope, row, tok.start, encoding);
    let end_units = tok.start.saturating_add(tok.length);
    let end_chars = rope_col_to_char_offset_in_line(rope, row, end_units, encoding);
    let line_start = rope_line_to_char(rope, row);
    proof {
        lemma_line_to_char_mono(t, row as nat);
    }
    let start_char = if start_chars < n - line_start {
        line_start + start_chars
    } else {
        n
    };
    let end_char = if end_chars < n - line_start {
        line_start + end_chars
    } else {
        n
    };
    let start_byte = rope_char_to_byte(rope, start_char);
    let end_byte = rope_char_to_byte(rope, end_char);
    let line_byte = rope_line_to_byte(rope, row);
    proof {
        lemma_utf8_len_take_mono(t, line_start as int, start_char as int);
        lemma_utf8_len_take_mono(t, line_start as int, end_char as int);
    }
    (start_byte - line_byte, end_byte - line_byte)
}

/// Highlight spans of lines `first..stop` from tokens whose kinds are already
/// resolved (`kinds[j]` belongs to `tokens[j]`): each line's spans ordered and merged.
pub fn highlight_lines_from_resolved_tokens(
    rope: &Rope,
    tokens: &[LspSemanticToken],
    kinds: &Vec<Option<HighlightKind>>,
    encoding: LspPositionEncoding,
    first: usize,
    stop: usize,
) -> (lines: Vec<Vec<HighlightSpan>>)
    requires
        kinds@.len() == tokens@.len(),
        first <= stop <= len_lines(rope_text(*rope)),
    ensures
        lines@.len() == stop - first,
        forall|i: int|
            0 <= i < lines@.len() ==> (#[trigger] lines@[i])@ == merge_spans(
                line_spans(rope_text(*rope), tokens@, kinds@, encoding, first + i),
            ),
{
    let ghost t = rope_text(*rope);
    let mut lines: Vec<Vec<HighlightSpan>> = Vec::new();
    let mut k: usize = first;
    while k < stop
        invariant
            first <= k <= stop,
            lines@.len() == k - first,
            forall|i: int| 0 <= i < lines@.len() ==> (#[trigger] lines@[i])@ == Seq::<HighlightSpan>::empty(),
        decreases stop - k,
    {
        lines.push(Vec::new());
        k += 1;
    }
    proof {
        assert forall|i: int| 0 <= i < lines@.len() implies (#[trigger] lines@[i])@ == line_spans(
            t,
            tokens@.take(0),
            kinds@.take(0),
            encoding,
            first + i,
        ) by {
            assert(tokens@.take(0).len() == 0);
        }
    }
    let mut j: usize = 0;
    while j < tokens.len()
        invariant
            j <= tokens@.len(),
            kinds@.len() == tokens@.len(),
            first <= stop <= len_lines(t),
            t == rope_text(*rope),
            lines@.len() == stop - first,
            forall|i: int|
                0 <= i < lines@.len() ==> (#[trigger] lines@[i])@ == line_spans(
                    t,
                    tokens@.take(j as int),
                    kinds@.take(j as int),
                    encoding,
                    first + i,
                ),
        decreases tokens@.len() - j,
    {
        let tok = tokens[j];
        let kind = kinds[j];
        let ghost prev_lines = lines@;
        proof {
            assert(tokens@.take(j + 1).drop_last() =~= tokens@.take(j as int));
            assert(kinds@.take(j + 1).drop_last() =~= kinds@.take(j as int));
            assert(tokens@.take(j + 1).last() == tok);
            assert(kinds@.take(j + 1).last() == kind);
        }
        let li = tok.line as usize;
        if li >= first && li < stop {
            if let Some(kd) = kind {
                let (s, e) = token_byte_span(rope, &tok, encoding);
                if s < e {
                    let idx = li - first;
                    let x = HighlightSpan { start: s, end: e, kind: kd };
                    let mut row: Vec<HighlightSpan> = Vec::new();
                    std::mem::swap(&mut row, &mut lines[idx]);
                    insert_span_exec(&mut row, x);
                    lines.set(idx, row);
                }
            }
        }
        proof {
            assert forall|i: int| 0 <= i < lines@.len() implies (#[trigger] lines@[i])@ == line_spans(
                t,
                tokens@.take(j + 1),
                kinds@.take(j + 1),
                encoding,
                first + i,
            ) by {
                assert(prev_lines[i]@ == line_spans(t, tokens@.take(j as int), kinds@.take(j as int), encoding, first + i));
            }
        }
        j += 1;
    }
    proof {
        assert(tokens@.take(j as int) =~= tokens@);
        assert(kinds@.take(j as int) =~= kinds@);
    }
    let mut i: usize = 0;
    while i < lines.len()
        invariant
            i <= lines@.len(),
            lines@.len() == stop - first,
            forall|m: int|
                0 <= m < i ==> (#[trigger] lines@[m])@ == merge_spans(line_spans(t, tokens@, kinds@, encoding, first + m)),
            forall|m: int|
                i <= m < lines@.len() ==> (#[trigger] lines@[m])@ == line_spans(t, tokens@, kinds@, encoding, first + m),
        decreases lines@.len() - i,
    {
        let mut row: Vec<HighlightSpan> = Vec::new();
        std::mem::swap(&mut row, &mut lines[i]);
        merge_adjacent_highlight_spans(&mut row);
        lines.set(i, row);
        i += 1;
    }
    lines
}

/// Highlight spans of every line of `rope` from semantic tokens: for each line, the
/// spans of its tokens whose type the legend maps to a kind, ordered and merged.
pub fn semantic_highlight_lines_from_tokens(
    rope: &Rope,
    tokens: &[LspSemanticToken],
    legend: &LspSemanticTokensLegend,
    encoding: LspPositionEncoding,
) -> (lines: Vec<Vec<HighlightSpan>>)
    ensures
        lines@.len() == len_lines(rope_text(*rope)),
        forall|i: int|
            0 <= i < lines@.len() ==> (#[trigger] lines@[i])@ == merge_spans(
                line_spans(
                    rope_text(*rope),
                    tokens@,
                    lookup_kinds(string_views(legend.token_types@), string_views(legend.token_modifiers@), tokens@),
                    encoding,
                    i,
                ),
            ),
{
    let lookup = LegendLookup::new(legend);
    let kinds = resolve_token_kinds(&lookup, tokens);
    let total = rope_len_lines(rope);
    highlight_lines_from_resolved_tokens(rope, tokens, &kinds, encoding, 0, total)
}

/// The kind of each token through `lookup`.
fn resolve_token_kinds(lookup: &LegendLookup, tokens: &[LspSemanticToken]) -> (kinds: Vec<Option<HighlightKind>>)
    ensures
        kinds@ == lookup_kinds(lookup.token_types(), lookup.token_modifiers(), tokens@),
{
    let mut kinds: Vec<Option<HighlightKind>> = Vec::new();
    let mut j: usize = 0;
    while j < tokens.len()
        invariant
            j <= tokens@.len(),
            kinds@ == lookup_kinds(lookup.token_types(), lookup.token_modifiers(), tokens@.take(j as int)),
        decreases tokens@.len() - j,
    {
        let k = lookup.kind_for(&tokens[j]);
        kinds.push(k);
        proof {
            assert(lookup_kinds(lookup.token_types(), lookup.token_modifiers(), tokens@.take(j + 1)) =~= kinds@);
        }
        j += 1;
    }
    proof {
        assert(tokens@.take(j as int) =~= tokens@);
    }
    kinds
}

/// Lines `start_line..end_line_exclusive`, clamped to the text (the start to its last
/// line), as `semantic_highlight_lines_from_tokens` computes them; none when the
/// clamped range is empty.
pub open spec fn clamped_line_range(total: nat, start_line: int, end_line_exclusive: int) -> (int, int) {
    let s = if start_line < total - 1 {
        start_line
    } else {
        total - 1
    };
    let e = if end_line_exclusive < total {
        end_line_exclusive
    } else {
        total as int
    };
    (s, e)
}

/// Highlight spans of lines `start_line..end_line_exclusive` of `rope` (clamped to the
/// text), as `semantic_highlight_lines_from_tokens` computes them for those lines.
pub fn semantic_highlight_lines_from_tokens_range(
    rope: &Rope,
    tokens: &[LspSemanticToken],
    legend: &LspSemanticTokensLegend,
    encoding: LspPositionEncoding,
    start_line: usize,
    end_line_exclusive: usize,
) -> (lines: Vec<Vec<HighlightSpan>>)
    ensures
        ({
            let (s, e) = clamped_line_range(len_lines(rope_text(*rope)), start_line as int, end_line_exclusive as int);
            &&& start_line >= end_line_exclusive || e <= s ==> lines@.len() == 0
            &&& start_line < end_line_exclusive && s < e ==> lines@.len() == e - s
            &&& forall|i: int|
                0 <= i < lines@.len() ==> (#[trigger] lines@[i])@ == merge_spans(
                    line_spans(
                        rope_text(*rope),
                        tokens@,
                        lookup_kinds(string_views(legend.token_types@), string_views(legend.token_modifiers@), tokens@),
                        encoding,
                        s + i,
                    ),
                )
        }),
{
    if start_line >= end_line_exclusive {
        return Vec::new();
    }
    let total = rope_len_lines(rope);
    let first = if start_line < total - 1 {
        start_line
    } else {
        total - 1
    };
    let stop = if end_line_exclusive < total {
        end_line_exclusive
    } else {
        total
    };
    if stop <= first {
        return Vec::new();
    }
    let lookup = LegendLookup::new(legend);
    let kinds = resolve_token_kinds(&lookup, tokens);
    highlight_lines_from_resolved_tokens(rope, tokens, &kinds, encoding, first, stop)
}

} // verus!
