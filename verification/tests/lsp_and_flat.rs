use zcode_store::editor::EditorTabState;
use zcode_store::flat_store::completion::{
    completion_item_matches_prefix, completion_keeps_open_on_inserted_char, filtered_completion_items,
    same_completion_item_ids, CompletionInsertion,
};
use zcode_store::flat_store::snippet::expand_snippet;
use zcode_store::ports::{
    LspCompletionItem, LspInlayHint, LspInsertTextFormat, LspPosition, LspPositionEncoding, LspRange, ProblemRange,
};
use zcode_store::store::intel::lsp::{
    build_inlay_hint_lines_snapshot, end_line_exclusive_from_range, lsp_position_from_char_offset,
    lsp_position_from_cursor, lsp_position_to_byte_offset, lsp_range_for_full_lines, problem_byte_offset,
};

fn item(id: u64, label: &str, filter: Option<&str>) -> LspCompletionItem {
    LspCompletionItem {
        id,
        label: label.to_string(),
        detail: None,
        kind: Some(3),
        insert_text: label.to_string(),
        insert_text_format: LspInsertTextFormat::PlainText,
        insert_range: None,
        replace_range: None,
        sort_text: None,
        filter_text: filter.map(|f| f.to_string()),
    }
}

fn hint(line: u32, character: u32, label: &str, padding_left: bool, padding_right: bool) -> LspInlayHint {
    LspInlayHint { position: LspPosition { line, character }, label: label.to_string(), padding_left, padding_right }
}

#[test]
fn inlay_hints_are_grouped_by_line_and_ordered() {
    let hints = vec![
        hint(2, 8, "b", false, false),
        hint(2, 4, ": i32", false, true),
        hint(3, 1, "x", true, false),
        hint(2, 8, "a", false, false),
        hint(9, 0, "far", false, false),
        hint(0, 0, "before", false, false),
        hint(2, 8, "a", true, false),
    ];
    let lines = build_inlay_hint_lines_snapshot(&hints, 1, 4);
    assert_eq!(lines.len(), 3);
    assert!(lines[0].is_empty());
    assert_eq!(lines[1], vec![": i32 ", " a", "a", "b"]);
    assert_eq!(lines[2], vec![" x"]);
    assert!(build_inlay_hint_lines_snapshot(&hints, 4, 4).is_empty());
    assert!(build_inlay_hint_lines_snapshot(&hints, 5, 2).is_empty());
}

#[test]
fn byte_offsets_of_lsp_positions_follow_the_encoding() {
    let tab = EditorTabState::new(None, None, "aé😀b\nxy\n");
    assert_eq!(lsp_position_to_byte_offset(&tab, 0, 2, LspPositionEncoding::Utf16), 3);
    assert_eq!(lsp_position_to_byte_offset(&tab, 0, 4, LspPositionEncoding::Utf16), 7);
    assert_eq!(lsp_position_to_byte_offset(&tab, 0, 3, LspPositionEncoding::Utf32), 7);
    assert_eq!(lsp_position_to_byte_offset(&tab, 0, 3, LspPositionEncoding::Utf8), 3);
    assert_eq!(lsp_position_to_byte_offset(&tab, 0, 99, LspPositionEncoding::Utf16), 8);
    assert_eq!(lsp_position_to_byte_offset(&tab, 1, 1, LspPositionEncoding::Utf16), 10);
    assert_eq!(lsp_position_to_byte_offset(&tab, 7, 0, LspPositionEncoding::Utf16), 12);
    let empty = EditorTabState::new(None, None, "");
    assert_eq!(lsp_position_to_byte_offset(&empty, 3, 3, LspPositionEncoding::Utf8), 0);
    let range = ProblemRange { start_line: 1, start_col: 2, end_line: 1, end_col: 2 };
    assert_eq!(problem_byte_offset(&tab, range, LspPositionEncoding::Utf8), 11);
}

#[test]
fn lsp_positions_of_char_offsets_count_units() {
    let mut tab = EditorTabState::new(None, None, "aé😀b\nxy");
    assert_eq!(
        lsp_position_from_char_offset(&tab, 3, LspPositionEncoding::Utf16),
        LspPosition { line: 0, character: 4 }
    );
    assert_eq!(
        lsp_position_from_char_offset(&tab, 3, LspPositionEncoding::Utf8),
        LspPosition { line: 0, character: 7 }
    );
    assert_eq!(
        lsp_position_from_char_offset(&tab, 100, LspPositionEncoding::Utf32),
        LspPosition { line: 1, character: 2 }
    );
    tab.buffer.set_cursor_char(6);
    assert_eq!(lsp_position_from_cursor(&tab, LspPositionEncoding::Utf16), (1, 1));
}

#[test]
fn full_line_ranges_clamp_and_end_at_the_line_content() {
    let tab = EditorTabState::new(None, None, "ab\ncd\r\nef");
    let r = lsp_range_for_full_lines(&tab, 0, 1, LspPositionEncoding::Utf16).unwrap();
    assert_eq!(r, LspRange { start: LspPosition { line: 0, character: 0 }, end: LspPosition { line: 1, character: 0 } });
    let last = lsp_range_for_full_lines(&tab, 1, 10, LspPositionEncoding::Utf16).unwrap();
    assert_eq!(
        last,
        LspRange { start: LspPosition { line: 1, character: 0 }, end: LspPosition { line: 2, character: 2 } }
    );
    assert!(lsp_range_for_full_lines(&tab, 2, 2, LspPositionEncoding::Utf16).is_none());
    assert_eq!(end_line_exclusive_from_range(&last), 3);
    assert_eq!(end_line_exclusive_from_range(&r), 1);
}

#[test]
fn snippet_expansion_selects_the_lowest_placeholder() {
    let e = expand_snippet("foo(${2:b}, ${1:a})$0");
    assert_eq!(e.text, "foo(b, a)");
    assert_eq!(e.selection, Some((7, 8)));
    assert_eq!(e.cursor, Some(8));

    let t = expand_snippet("if $1 {\n\t$0\n}");
    assert_eq!(t.text, "if  {\n\t\n}");
    assert_eq!(t.cursor, Some(3));
    assert_eq!(t.selection, None);

    let c = expand_snippet("${1|one,two|} \\$x $");
    assert_eq!(c.text, "one $x $");
    assert_eq!(c.selection, Some((0, 3)));

    let f = expand_snippet("done$0");
    assert_eq!(f.cursor, Some(4));
}

#[test]
fn plain_insertion_puts_cursor_inside_trailing_parens() {
    let call = CompletionInsertion::from_plain_text("print()".to_string());
    assert_eq!(call.cursor, Some(6));
    assert!(call.has_cursor_or_selection());
    let word = CompletionInsertion::from_plain_text("static".to_string());
    assert_eq!(word.cursor, None);
    assert!(!word.has_cursor_or_selection());
    let snip = CompletionInsertion::from_snippet("f(${1:x})");
    assert_eq!(snip.text, "f(x)");
    assert_eq!(snip.selection, Some((2, 3)));
}

#[test]
fn flat_filter_uses_filter_text_and_ignores_ascii_case() {
    let items = vec![item(1, "Alpha", None), item(2, "beta", Some("ALPHABET")), item(3, "gamma", None)];
    assert!(completion_item_matches_prefix(&items[1], "alp"));
    assert!(!completion_item_matches_prefix(&items[2], "alp"));
    let filtered = filtered_completion_items("AL", &items);
    let ids: Vec<u64> = filtered.iter().map(|i| i.id).collect();
    assert_eq!(ids, vec![1, 2]);
    assert!(same_completion_item_ids(&filtered, &items[0..2]));
    assert!(!same_completion_item_ids(&filtered, &items[1..3]));
    assert_eq!(filtered_completion_items("", &items).len(), 3);
}

#[test]
fn inserted_identifier_chars_keep_completion_open() {
    assert!(completion_keeps_open_on_inserted_char('a'));
    assert!(completion_keeps_open_on_inserted_char('é'));
    assert!(completion_keeps_open_on_inserted_char('_'));
    assert!(completion_keeps_open_on_inserted_char('.'));
    assert!(!completion_keeps_open_on_inserted_char('('));
    assert!(!completion_keeps_open_on_inserted_char(' '));
}
