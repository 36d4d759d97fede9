use zcode_store::editor::{HighlightKind, HighlightSpan};
use zcode_store::flat_store::semantic as flat;
use zcode_store::ports::{LspPositionEncoding, LspSemanticToken, LspSemanticTokensLegend};
use ropey::Rope;
use zcode_store::store::intel::semantic::{
    highlight_kind_for_semantic_token, merge_adjacent_highlight_spans, semantic_highlight_lines_from_tokens,
    semantic_highlight_lines_from_tokens_range, LegendLookup,
};

#[test]
fn semantic_token_class_maps_to_type() {
    assert_eq!(highlight_kind_for_semantic_token("class", 0, &LspSemanticTokensLegend::default()), Some(HighlightKind::Type));
}

#[test]
fn semantic_token_member_maps_to_function() {
    assert_eq!(highlight_kind_for_semantic_token("member", 0, &LspSemanticTokensLegend::default()), Some(HighlightKind::Function));
}

#[test]
fn semantic_token_method_maps_to_method() {
    assert_eq!(highlight_kind_for_semantic_token("method", 0, &LspSemanticTokensLegend::default()), Some(HighlightKind::Method));
}

#[test]
fn semantic_token_parameter_maps_to_parameter() {
    assert_eq!(highlight_kind_for_semantic_token("parameter", 0, &LspSemanticTokensLegend::default()), Some(HighlightKind::Parameter));
}

#[test]
fn semantic_token_property_maps_to_property() {
    assert_eq!(highlight_kind_for_semantic_token("property", 0, &LspSemanticTokensLegend::default()), Some(HighlightKind::Property));
}

#[test]
fn semantic_token_label_maps_to_attribute() {
    assert_eq!(highlight_kind_for_semantic_token("label", 0, &LspSemanticTokensLegend::default()), Some(HighlightKind::Attribute));
}

#[test]
fn semantic_token_operator_is_unstyled() {
    assert_eq!(highlight_kind_for_semantic_token("operator", 0, &LspSemanticTokensLegend::default()), None);
}

#[test]
fn semantic_token_regexp_maps_to_regex() {
    assert_eq!(highlight_kind_for_semantic_token("regexp", 0, &LspSemanticTokensLegend::default()), Some(HighlightKind::Regex));
}

#[test]
fn semantic_token_enum_member_maps_to_enum_member() {
    assert_eq!(highlight_kind_for_semantic_token("enumMember", 0, &LspSemanticTokensLegend::default()), Some(HighlightKind::EnumMember));
}

#[test]
fn semantic_token_namespace_maps_to_namespace() {
    assert_eq!(highlight_kind_for_semantic_token("namespace", 0, &LspSemanticTokensLegend::default()), Some(HighlightKind::Namespace));
}

#[test]
fn semantic_token_module_maps_to_namespace() {
    assert_eq!(highlight_kind_for_semantic_token("module", 0, &LspSemanticTokensLegend::default()), Some(HighlightKind::Namespace));
}

#[test]
fn semantic_token_decorator_maps_to_attribute() {
    assert_eq!(highlight_kind_for_semantic_token("decorator", 0, &LspSemanticTokensLegend::default()), Some(HighlightKind::Attribute));
}

#[test]
fn semantic_token_readonly_variable_maps_to_constant() {
    let legend = LspSemanticTokensLegend { token_types: Vec::new(), token_modifiers: vec!["readonly".to_string()] };

    assert_eq!(highlight_kind_for_semantic_token("variable", 1, &legend), Some(HighlightKind::Constant));
}

#[test]
fn semantic_semantic_token_class_maps_to_type() {
    assert_eq!(flat::highlight_kind_for_semantic_token("class", 0, &LspSemanticTokensLegend::default()), Some(HighlightKind::Type));
}

#[test]
fn semantic_semantic_token_member_maps_to_function() {
    assert_eq!(flat::highlight_kind_for_semantic_token("member", 0, &LspSemanticTokensLegend::default()), Some(HighlightKind::Function));
}

#[test]
fn semantic_semantic_token_label_maps_to_attribute() {
    assert_eq!(flat::highlight_kind_for_semantic_token("label", 0, &LspSemanticTokensLegend::default()), Some(HighlightKind::Attribute));
}

#[test]
fn semantic_token_operator_maps_to_keyword() {
    assert_eq!(flat::highlight_kind_for_semantic_token("operator", 0, &LspSemanticTokensLegend::default()), Some(HighlightKind::Keyword));
}

#[test]
fn semantic_semantic_token_regexp_maps_to_regex() {
    assert_eq!(flat::highlight_kind_for_semantic_token("regexp", 0, &LspSemanticTokensLegend::default()), Some(HighlightKind::Regex));
}

#[test]
fn semantic_token_enum_member_maps_to_constant() {
    assert_eq!(flat::highlight_kind_for_semantic_token("enumMember", 0, &LspSemanticTokensLegend::default()), Some(HighlightKind::Constant));
}

#[test]
fn semantic_semantic_token_namespace_maps_to_namespace() {
    assert_eq!(flat::highlight_kind_for_semantic_token("namespace", 0, &LspSemanticTokensLegend::default()), Some(HighlightKind::Namespace));
}

#[test]
fn semantic_semantic_token_module_maps_to_namespace() {
    assert_eq!(flat::highlight_kind_for_semantic_token("module", 0, &LspSemanticTokensLegend::default()), Some(HighlightKind::Namespace));
}

#[test]
fn semantic_semantic_token_decorator_maps_to_attribute() {
    assert_eq!(flat::highlight_kind_for_semantic_token("decorator", 0, &LspSemanticTokensLegend::default()), Some(HighlightKind::Attribute));
}

#[test]
fn semantic_semantic_token_readonly_variable_maps_to_constant() {
    let legend = LspSemanticTokensLegend { token_types: Vec::new(), token_modifiers: vec!["readonly".to_string()] };

    assert_eq!(flat::highlight_kind_for_semantic_token("variable", 1, &legend), Some(HighlightKind::Constant));
}

fn span(start: usize, end: usize, kind: HighlightKind) -> HighlightSpan {
    HighlightSpan { start, end, kind }
}

fn legend(types: &[&str], modifiers: &[&str]) -> LspSemanticTokensLegend {
    LspSemanticTokensLegend {
        token_types: types.iter().map(|t| t.to_string()).collect(),
        token_modifiers: modifiers.iter().map(|m| m.to_string()).collect(),
    }
}

fn token(line: u32, start: u32, length: u32, token_type: u32, modifiers: u32) -> LspSemanticToken {
    LspSemanticToken { line, start, length, token_type, modifiers }
}

#[test]
fn readonly_bit_beyond_the_modifier_index_is_not_constant() {
    let legend = legend(&[], &["static", "readonly"]);
    assert_eq!(highlight_kind_for_semantic_token("variable", 1, &legend), Some(HighlightKind::Variable));
    assert_eq!(highlight_kind_for_semantic_token("variable", 2, &legend), Some(HighlightKind::Constant));
    assert_eq!(flat::highlight_kind_for_semantic_token("parameter", 2, &legend), Some(HighlightKind::Constant));
    assert_eq!(flat::highlight_kind_for_semantic_token("parameter", 1, &legend), Some(HighlightKind::Variable));
}

#[test]
fn unknown_token_type_is_unstyled() {
    assert_eq!(highlight_kind_for_semantic_token("bogus", 0, &LspSemanticTokensLegend::default()), None);
    assert_eq!(flat::highlight_kind_for_semantic_token("bogus", 0, &LspSemanticTokensLegend::default()), None);
}

#[test]
fn legend_lookup_resolves_indices_and_readonly() {
    let legend = legend(&["variable", "keyword", "operator"], &["declaration", "readonly"]);
    let lookup = LegendLookup::new(&legend);
    assert_eq!(lookup.kind_for(&token(0, 0, 1, 0, 0)), Some(HighlightKind::Variable));
    assert_eq!(lookup.kind_for(&token(0, 0, 1, 0, 2)), Some(HighlightKind::Constant));
    assert_eq!(lookup.kind_for(&token(0, 0, 1, 1, 2)), Some(HighlightKind::Keyword));
    assert_eq!(lookup.kind_for(&token(0, 0, 1, 2, 0)), None);
    assert_eq!(lookup.kind_for(&token(0, 0, 1, 9, 0)), None);
}

#[test]
fn merge_joins_touching_spans_of_one_kind() {
    let mut spans = vec![
        span(0, 3, HighlightKind::Keyword),
        span(3, 5, HighlightKind::Keyword),
        span(4, 9, HighlightKind::Keyword),
        span(9, 10, HighlightKind::Type),
        span(11, 12, HighlightKind::Type),
    ];
    merge_adjacent_highlight_spans(&mut spans);
    assert_eq!(
        spans,
        vec![span(0, 9, HighlightKind::Keyword), span(9, 10, HighlightKind::Type), span(11, 12, HighlightKind::Type)]
    );
}

#[test]
fn merge_keeps_a_contained_span_inside() {
    let mut spans = vec![span(0, 10, HighlightKind::String), span(2, 4, HighlightKind::String)];
    merge_adjacent_highlight_spans(&mut spans);
    assert_eq!(spans, vec![span(0, 10, HighlightKind::String)]);
    let mut one = vec![span(1, 2, HighlightKind::Macro)];
    merge_adjacent_highlight_spans(&mut one);
    assert_eq!(one, vec![span(1, 2, HighlightKind::Macro)]);
}

#[test]
fn highlight_lines_sort_and_place_tokens_by_byte() {
    let rope = Rope::from_str("let é = 1;\nfn x() {}\n");
    let legend = legend(&["keyword", "variable", "number", "function"], &[]);
    let tokens = vec![
        token(0, 8, 1, 2, 0),
        token(0, 0, 3, 0, 0),
        token(0, 4, 1, 1, 0),
        token(1, 0, 2, 0, 0),
        token(1, 3, 1, 3, 0),
        token(7, 0, 1, 0, 0),
        token(1, 50, 2, 0, 0),
    ];
    let lines = semantic_highlight_lines_from_tokens(&rope, &tokens, &legend, LspPositionEncoding::Utf16);
    assert_eq!(lines.len(), 3);
    assert_eq!(
        lines[0],
        vec![span(0, 3, HighlightKind::Keyword), span(4, 6, HighlightKind::Variable), span(9, 10, HighlightKind::Number)]
    );
    assert_eq!(lines[1], vec![span(0, 2, HighlightKind::Keyword), span(3, 4, HighlightKind::Function)]);
    assert!(lines[2].is_empty());

    let flat_lines =
        flat::semantic_highlight_lines_from_tokens(&rope, &tokens, &legend, LspPositionEncoding::Utf16);
    assert_eq!(flat_lines, lines);
}

#[test]
fn highlight_range_clamps_to_the_text() {
    let rope = Rope::from_str("a\nb\nc");
    let legend = legend(&["keyword"], &[]);
    let tokens = vec![token(0, 0, 1, 0, 0), token(1, 0, 1, 0, 0), token(2, 0, 1, 0, 0)];
    let lines = semantic_highlight_lines_from_tokens_range(&rope, &tokens, &legend, LspPositionEncoding::Utf8, 1, 10);
    assert_eq!(lines, vec![vec![span(0, 1, HighlightKind::Keyword)], vec![span(0, 1, HighlightKind::Keyword)]]);
    let past = semantic_highlight_lines_from_tokens_range(&rope, &tokens, &legend, LspPositionEncoding::Utf8, 5, 9);
    assert_eq!(past, vec![vec![span(0, 1, HighlightKind::Keyword)]]);
    let empty = semantic_highlight_lines_from_tokens_range(&rope, &tokens, &legend, LspPositionEncoding::Utf8, 2, 2);
    assert!(empty.is_empty());
    let operator_legend = legend_with_operator();
    let op = vec![token(0, 0, 1, 0, 0)];
    assert!(semantic_highlight_lines_from_tokens(&rope, &op, &operator_legend, LspPositionEncoding::Utf8)[0].is_empty());
    assert_eq!(
        flat::semantic_highlight_lines_from_tokens(&rope, &op, &operator_legend, LspPositionEncoding::Utf8)[0],
        vec![span(0, 1, HighlightKind::Keyword)]
    );
}

fn legend_with_operator() -> LspSemanticTokensLegend {
    legend(&["operator"], &[])
}
