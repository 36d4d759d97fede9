use zcode_store::editor::{EditorTabState, SnippetTabstop};
use zcode_store::flat_store::completion::completion_prefix_at_cursor;
use zcode_store::kernel::{EditorActionKind, LanguageId};
use zcode_store::ports::{LspPosition, LspPositionEncoding, LspRange};
use zcode_store::store::intel::completion::{
    adjust_completion_multiline_indentation, apply_completion_insertion_cursor, completion_replace_range,
    filtered_completion_indices, indentation_prefix_before_char, multiline_text_needs_indent_adjustment,
    should_close_completion_on_editor_action, sort_completion_items, sync_completion_items_from_cache,
    CompletionEntry, CompletionInsertion, CompletionPopupState, CompletionRecord, CompletionReplacePolicy,
    TextEditPlan, TextEditTabstop,
};
use zcode_store::store::intel::completion_rank::CompletionRanker;

fn completion_record(id: u64, label: &str) -> CompletionRecord {
    CompletionRecord {
        entry: CompletionEntry {
            id,
            label: label.to_string(),
            kind: Some(3),
            detail: None,
            sort_text: None,
            filter_text: None,
        },
    }
}

fn tab_with_cursor_at_path(path: &str, content: &str, col: usize) -> EditorTabState {
    let mut tab = EditorTabState::new(Some(path.to_string()), None, content);
    tab.buffer.set_cursor_char(col);
    tab
}

fn tab_with_cursor(content: &str, col: usize) -> EditorTabState {
    tab_with_cursor_at_path("test.rs", content, col)
}

fn popup(items: Vec<CompletionRecord>) -> CompletionPopupState {
    let mut completion = CompletionPopupState::new();
    completion.all_items = items;
    completion.visible = true;
    completion
}

fn completion_labels(completion: &CompletionPopupState) -> Vec<String> {
    completion.visible_indices.iter().map(|&i| completion.all_items[i].entry.label.clone()).collect()
}

fn sync(completion: &mut CompletionPopupState, tab: &EditorTabState) -> bool {
    let prefix = completion_prefix_at_cursor(tab);
    sync_completion_items_from_cache(completion, &prefix)
}

#[test]
fn sync_completion_items_incremental_prefix_matches_expected_items() {
    let mut tab = tab_with_cursor("pri", 1);
    let mut completion = popup(vec![
        completion_record(1, "piano"),
        completion_record(2, "print"),
        completion_record(3, "private"),
        completion_record(4, "probe"),
    ]);

    assert!(sync(&mut completion, &tab));
    assert_eq!(completion_labels(&completion), ["piano", "print", "private", "probe"]);
    assert_eq!(completion.filter_cache_prefix, "p");

    tab.buffer.set_cursor_char(2);
    assert!(sync(&mut completion, &tab));
    assert_eq!(completion_labels(&completion), ["print", "private", "probe"]);
    assert_eq!(completion.filter_cache_prefix, "pr");

    tab.buffer.set_cursor_char(3);
    assert!(sync(&mut completion, &tab));
    assert_eq!(completion_labels(&completion), ["print", "private"]);
    assert_eq!(completion.filter_cache_prefix, "pri");
}

#[test]
fn sync_completion_items_prefix_shrink_recomputes_correct_result() {
    let mut tab = tab_with_cursor("pri", 3);
    let mut completion = popup(vec![
        completion_record(1, "piano"),
        completion_record(2, "print"),
        completion_record(3, "private"),
        completion_record(4, "probe"),
    ]);

    assert!(sync(&mut completion, &tab));
    assert_eq!(completion_labels(&completion), ["print", "private"]);

    tab.buffer.set_cursor_char(2);
    assert!(sync(&mut completion, &tab));
    assert_eq!(completion_labels(&completion), ["print", "private", "probe"]);
    assert_eq!(completion.filter_cache_prefix, "pr");
}

#[test]
fn sync_completion_items_no_match_hides_popup() {
    let tab = tab_with_cursor("zzz", 3);
    let mut completion = popup(vec![
        completion_record(1, "piano"),
        completion_record(2, "print"),
        completion_record(3, "private"),
    ]);

    assert!(sync(&mut completion, &tab));
    assert_eq!(completion_labels(&completion), Vec::<String>::new());
    assert_eq!(completion.filter_cache_indices, Vec::<usize>::new());
    assert!(!completion.visible);
}

#[test]
fn sync_completion_items_keeps_selected_id_stable() {
    let mut tab = tab_with_cursor("pri", 1);
    let mut completion = popup(vec![
        completion_record(1, "piano"),
        completion_record(2, "print"),
        completion_record(3, "private"),
        completion_record(4, "probe"),
    ]);

    assert!(sync(&mut completion, &tab));
    completion.selected = 2;
    completion.selection_locked = true;
    let selected_id = completion.selected_item_id().expect("selected item");

    tab.buffer.set_cursor_char(2);
    assert!(sync(&mut completion, &tab));
    assert_eq!(completion.selected_item_id(), Some(selected_id));

    tab.buffer.set_cursor_char(3);
    assert!(sync(&mut completion, &tab));
    assert_eq!(completion.selected_item_id(), Some(selected_id));
}

#[test]
fn sync_completion_items_keeps_selected_id_stable_with_large_visible_indices() {
    let mut tab = tab_with_cursor("pri", 1);
    let mut completion =
        popup((0..5_000u64).map(|id| completion_record(id + 1, &format!("print_{id:04}"))).collect());

    let _ = sync(&mut completion, &tab);
    completion.selected = 3_200;
    completion.selection_locked = true;
    let selected_id = completion.selected_item_id().expect("selected item");

    tab.buffer.set_cursor_char(2);
    let _ = sync(&mut completion, &tab);
    assert_eq!(completion.selected_item_id(), Some(selected_id));

    tab.buffer.set_cursor_char(3);
    let _ = sync(&mut completion, &tab);
    assert_eq!(completion.selected_item_id(), Some(selected_id));
}

#[test]
fn sync_completion_items_selected_lookup_fallback_handles_unsorted_visible_indices() {
    let tab = tab_with_cursor("", 0);
    let mut completion = popup(vec![
        completion_record(1, "alpha"),
        completion_record(2, "beta"),
        completion_record(3, "gamma"),
    ]);
    completion.visible_indices = vec![2, 0, 1];
    completion.selected = 1;
    completion.selection_locked = true;
    completion.filter_cache_prefix = String::new();
    completion.filter_cache_indices = vec![2, 0, 1];
    completion.filter_cache_source_len = 3;
    completion.filter_cache_valid = true;
    completion.rebuild_index_by_id();

    let selected_id = completion.selected_item_id();
    let changed = sync(&mut completion, &tab);

    assert!(!changed);
    assert_eq!(completion.selected, 1);
    assert_eq!(completion.selected_item_id(), selected_id);
}

#[test]
fn sync_completion_items_respects_cache_invalidation_after_source_replace() {
    let tab = tab_with_cursor("pr", 2);
    let mut completion = popup(vec![
        completion_record(1, "print"),
        completion_record(2, "private"),
        completion_record(3, "probe"),
    ]);

    assert!(sync(&mut completion, &tab));
    assert_eq!(completion_labels(&completion), ["print", "private", "probe"]);

    completion.all_items = vec![completion_record(100, "prism"), completion_record(101, "proto")];
    completion.invalidate_filter_cache();

    assert!(sync(&mut completion, &tab));
    assert_eq!(completion_labels(&completion), ["prism", "proto"]);
    assert_eq!(completion.filter_cache_source_len, 2);
    assert!(completion.filter_cache_valid);
}

#[test]
fn sync_completion_items_on_empty_popup_changes_nothing() {
    let tab = tab_with_cursor("p", 1);
    let mut completion = popup(Vec::new());
    assert!(!sync(&mut completion, &tab));
    assert!(completion.visible);
    assert!(!completion.filter_cache_valid);
}

#[test]
fn adjust_multiline_completion_indentation_aligns_closing_brace() {
    let tab = EditorTabState::new(Some("Main.java".to_string()), Some(LanguageId::Java), "\tpub");

    let insertion = CompletionInsertion {
        text: "public static void main(String[] args) {\n\t\n}".to_string(),
        cursor: Some("public static void main(String[] args) {\n\t".chars().count()),
        selection: None,
        tabstops: Vec::new(),
    };

    let adjusted = adjust_completion_multiline_indentation(&tab, 1, insertion);
    assert_eq!(adjusted.text, "public static void main(String[] args) {\n\t\t\n\t}".to_string());
    assert_eq!(adjusted.cursor, Some("public static void main(String[] args) {\n\t\t".chars().count()));
}

#[test]
fn adjust_multiline_completion_indentation_skips_already_aligned_text() {
    let tab = EditorTabState::new(Some("Main.java".to_string()), Some(LanguageId::Java), "\tpub");

    let insertion = CompletionInsertion {
        text: "foo\n\tbar\n\tbaz".to_string(),
        cursor: Some("foo\n\tbar".chars().count()),
        selection: None,
        tabstops: Vec::new(),
    };

    let adjusted = adjust_completion_multiline_indentation(&tab, 1, insertion.clone());
    assert_eq!(adjusted.text, insertion.text);
    assert_eq!(adjusted.cursor, insertion.cursor);
    assert_eq!(adjusted.selection, insertion.selection);
}

#[test]
fn adjust_multiline_indentation_moves_selection_and_tabstops() {
    let tab = EditorTabState::new(None, None, "  x");
    let insertion = CompletionInsertion {
        text: "a\nb\nc".to_string(),
        cursor: None,
        selection: Some((2, 4)),
        tabstops: vec![SnippetTabstop { index: 1, start: 4, end: 9 }],
    };
    let adjusted = adjust_completion_multiline_indentation(&tab, 2, insertion);
    assert_eq!(adjusted.text, "a\n  b\n  c");
    assert_eq!(adjusted.selection, Some((4, 8)));
    assert_eq!(adjusted.tabstops, vec![SnippetTabstop { index: 1, start: 8, end: 9 }]);
}

#[test]
fn indentation_prefix_stops_at_the_offset_and_the_first_non_blank() {
    let tab = EditorTabState::new(None, None, "x\n \t y\n");
    assert_eq!(indentation_prefix_before_char(&tab, 4), " \t");
    assert_eq!(indentation_prefix_before_char(&tab, 3), " ");
    assert_eq!(indentation_prefix_before_char(&tab, 6), " \t ");
    assert_eq!(indentation_prefix_before_char(&tab, 1), "");
    assert_eq!(indentation_prefix_before_char(&tab, 100), "");
}

#[test]
fn indent_adjustment_needed_only_for_unindented_text_lines() {
    assert!(!multiline_text_needs_indent_adjustment("one line", "\t"));
    assert!(!multiline_text_needs_indent_adjustment("a\n\tb\r\n   \n\tc", "\t"));
    assert!(multiline_text_needs_indent_adjustment("a\n\tb\nc", "\t"));
    assert!(multiline_text_needs_indent_adjustment("a\n \u{3000}x", "\t"));
    assert!(!multiline_text_needs_indent_adjustment("a\n\u{3000}", "\t"));
}

#[test]
fn completion_replace_range_prefers_item_range_when_version_matches() {
    let tab = tab_with_cursor_at_path("test.py", "print", 5);
    let replace = CompletionReplacePolicy::ServerRange {
        insert_range: Some(LspRange {
            start: LspPosition { line: 0, character: 1 },
            end: LspPosition { line: 0, character: 5 },
        }),
        replace_range: Some(LspRange {
            start: LspPosition { line: 0, character: 2 },
            end: LspPosition { line: 0, character: 5 },
        }),
        anchor_to_prefix: true,
    };
    let range = completion_replace_range(&tab, tab.edit_version, &replace, LspPositionEncoding::Utf16);
    assert_eq!(range.start.line, 0);
    assert_eq!(range.start.character, 2);
    assert_eq!(range.end.line, 0);
    assert_eq!(range.end.character, 5);
}

#[test]
fn completion_replace_range_keeps_boundary_characters_before_prefix() {
    let tab = tab_with_cursor_at_path("test.rs", "&s", 2);
    let replace = CompletionReplacePolicy::ServerRange {
        insert_range: Some(LspRange {
            start: LspPosition { line: 0, character: 1 },
            end: LspPosition { line: 0, character: 2 },
        }),
        replace_range: Some(LspRange {
            start: LspPosition { line: 0, character: 0 },
            end: LspPosition { line: 0, character: 2 },
        }),
        anchor_to_prefix: true,
    };
    let range = completion_replace_range(&tab, tab.edit_version, &replace, LspPositionEncoding::Utf16);
    assert_eq!(range.start.line, 0);
    assert_eq!(range.start.character, 1);
    assert_eq!(range.end.line, 0);
    assert_eq!(range.end.character, 2);
}

#[test]
fn completion_replace_range_falls_back_on_version_and_policy() {
    let tab = tab_with_cursor("foo.ba", 6);
    let server = CompletionReplacePolicy::ServerRange {
        insert_range: Some(LspRange {
            start: LspPosition { line: 0, character: 0 },
            end: LspPosition { line: 0, character: 1 },
        }),
        replace_range: None,
        anchor_to_prefix: false,
    };
    let word = LspRange { start: LspPosition { line: 0, character: 4 }, end: LspPosition { line: 0, character: 6 } };
    assert_eq!(completion_replace_range(&tab, tab.edit_version + 1, &server, LspPositionEncoding::Utf8), word);
    assert_eq!(
        completion_replace_range(&tab, tab.edit_version, &CompletionReplacePolicy::CursorWord, LspPositionEncoding::Utf8),
        word
    );
    assert_eq!(
        completion_replace_range(&tab, tab.edit_version, &server, LspPositionEncoding::Utf8),
        LspRange { start: LspPosition { line: 0, character: 0 }, end: LspPosition { line: 0, character: 1 } }
    );
}

#[test]
fn sort_orders_by_score_then_sort_text_then_label() {
    let mut ranker = CompletionRanker::default();
    ranker.record(Some(LanguageId::Rust), "gamma", Some(3));
    let mut items = vec![
        completion_record(1, "beta"),
        completion_record(2, "alpha"),
        completion_record(3, "gamma"),
        completion_record(4, "delta"),
    ];
    items[3].entry.sort_text = Some("0".to_string());
    sort_completion_items(&mut items, &ranker, Some(LanguageId::Rust));
    let labels: Vec<&str> = items.iter().map(|r| r.entry.label.as_str()).collect();
    assert_eq!(labels, ["gamma", "delta", "alpha", "beta"]);

    let mut ties = vec![completion_record(7, "same"), completion_record(8, "same")];
    ties[0].entry.detail = Some("z".to_string());
    sort_completion_items(&mut ties, &ranker, None);
    let ids: Vec<u64> = ties.iter().map(|r| r.entry.id).collect();
    assert_eq!(ids, [8, 7]);
}

#[test]
fn filtered_indices_match_prefix_without_ascii_case() {
    let items = vec![completion_record(1, "Print"), completion_record(2, "puts"), completion_record(3, "PRIVATE")];
    assert_eq!(filtered_completion_indices(&items, "pri"), vec![0, 2]);
    assert_eq!(filtered_completion_indices(&items, ""), vec![0, 1, 2]);
}

#[test]
fn syntax_highlight_patches_keep_the_popup_open() {
    assert!(!should_close_completion_on_editor_action(&EditorActionKind::ApplySyntaxHighlightPatches));
    assert!(!should_close_completion_on_editor_action(&EditorActionKind::SetViewportSize));
    assert!(should_close_completion_on_editor_action(&EditorActionKind::MoveTab));
}

#[test]
fn insertion_from_plan_keeps_every_field() {
    let plan = TextEditPlan {
        text: "f(x)".to_string(),
        cursor: Some(2),
        selection: None,
        tabstops: vec![TextEditTabstop { index: 1, start: 2, end: 3 }],
    };
    let insertion = CompletionInsertion::from_plan(plan);
    assert_eq!(insertion.text, "f(x)");
    assert_eq!(insertion.cursor, Some(2));
    assert!(insertion.has_cursor_or_selection());
    assert_eq!(insertion.tabstops, vec![SnippetTabstop { index: 1, start: 2, end: 3 }]);
}

#[test]
fn applying_an_insertion_places_cursor_and_starts_snippet_session() {
    let mut tab = tab_with_cursor("let v = f(x)", 12);
    let insertion = CompletionInsertion {
        text: "f(x)".to_string(),
        cursor: None,
        selection: Some((3, 2)),
        tabstops: vec![SnippetTabstop { index: 1, start: 2, end: 3 }],
    };
    apply_completion_insertion_cursor(&mut tab, &insertion);
    assert_eq!(tab.buffer.cursor_char_offset(), 11);
    assert!(tab.viewport.follow_cursor);
    let session = tab.snippet_session.as_ref().expect("snippet session");
    assert_eq!(session.start, 8);
    assert_eq!(session.tabstops, vec![SnippetTabstop { index: 1, start: 2, end: 3 }]);

    let mut other = tab_with_cursor("abc", 3);
    let mismatch = CompletionInsertion { text: "xy".to_string(), cursor: Some(1), selection: None, tabstops: Vec::new() };
    apply_completion_insertion_cursor(&mut other, &mismatch);
    assert_eq!(other.buffer.cursor_char_offset(), 3);
    assert!(other.snippet_session.is_none());
}
