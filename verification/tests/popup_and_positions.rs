use zcode_store::editor::{EditorTabState, HighlightKind, HighlightSpan};
use zcode_store::flat_store::lsp::{hash_semantic_tokens_payload, lsp_position_from_buffer_pos};
use zcode_store::flat_store::snippet::expand_snippet;
use zcode_store::kernel::{
    EditorLayoutState, SplitDirection,
    CommandPaletteState,
    BottomPanelState, BottomPanelTab, FocusTarget, LanguageId, OverlayKind, OverlayState, SearchViewport, SidebarTab,
    UiState,
};
use zcode_store::editor::{EditorPane, EditorState};
use zcode_store::store::context_menu::{ConfirmDialogState, ContextMenuState};
use zcode_store::store::input_dialog::InputDialogState;
use zcode_store::store::search::{
    results_list_for_focus, search_open_selected, ResultsList, SearchFile, SearchMatch, SearchNavigation,
    SearchResultItem, SearchState,
};
use zcode_store::ports::{
    LspFoldingRange, LspInlayHint, LspPosition, LspPositionEncoding, LspSemanticToken, LspSemanticTokensLegend,
};
use zcode_store::store::intel::completion::{
    move_completion_selection, sort_completion_items, CompletionEntry, CompletionPopupState, CompletionRecord,
};
use zcode_store::store::intel::completion_rank::CompletionRanker;
use zcode_store::store::intel::lsp::{
    hash_folding_ranges_payload, hash_inlay_hints_payload, lsp_position_from_char_offset,
    lsp_position_from_cursor, lsp_position_to_byte_offset,
};
use zcode_store::store::intel::semantic::merge_adjacent_highlight_spans;

fn record(id: u64, label: &str, sort_text: Option<&str>) -> CompletionRecord {
    CompletionRecord {
        entry: CompletionEntry {
            id,
            label: label.to_string(),
            kind: Some(3),
            detail: None,
            sort_text: sort_text.map(|s| s.to_string()),
            filter_text: None,
        },
    }
}

fn popup_with(n: usize) -> CompletionPopupState {
    let mut p = CompletionPopupState::new();
    p.all_items = (0..n).map(|i| record(i as u64, &format!("item{i}"), None)).collect();
    p.visible_indices = (0..n).collect();
    p.visible = true;
    p
}

#[test]
fn completion_selection_moves_and_wraps() {
    let mut p = popup_with(3);
    assert!(move_completion_selection(&mut p, -1));
    assert_eq!(p.selected, 2);
    assert!(p.selection_locked);
    assert!(move_completion_selection(&mut p, 1));
    assert_eq!(p.selected, 0);
    assert!(move_completion_selection(&mut p, 4));
    assert_eq!(p.selected, 1);
    assert!(!move_completion_selection(&mut p, 3));
    assert_eq!(p.selected, 1);
    assert!(!move_completion_selection(&mut p, 0));
    let mut unlocked = popup_with(3);
    assert!(!move_completion_selection(&mut unlocked, 3));
    assert!(!unlocked.selection_locked);
    let mut hidden = popup_with(3);
    hidden.visible = false;
    assert!(!move_completion_selection(&mut hidden, 1));
    assert_eq!(hidden.selected, 0);
    let mut empty = CompletionPopupState::new();
    empty.visible = true;
    assert!(!move_completion_selection(&mut empty, 1));
    let mut big = popup_with(5);
    assert!(move_completion_selection(&mut big, isize::MIN));
    assert_eq!(big.selected, ((isize::MIN as i128).rem_euclid(5)) as usize);
}

#[test]
fn payload_hashes_follow_the_payload() {
    let hint = |label: &str| LspInlayHint {
        position: LspPosition { line: 1, character: 2 },
        label: label.to_string(),
        padding_left: true,
        padding_right: false,
    };
    assert_eq!(hash_inlay_hints_payload(&[hint("a")]), hash_inlay_hints_payload(&[hint("a")]));
    assert_ne!(hash_inlay_hints_payload(&[hint("a")]), hash_inlay_hints_payload(&[hint("b")]));
    let r = |s: u32, e: u32| LspFoldingRange { start_line: s, end_line: e };
    assert_eq!(hash_folding_ranges_payload(&[r(1, 3)]), hash_folding_ranges_payload(&[r(1, 3)]));
    assert_ne!(hash_folding_ranges_payload(&[r(1, 3)]), hash_folding_ranges_payload(&[r(1, 4)]));
    let legend = LspSemanticTokensLegend {
        token_types: vec!["function".to_string()],
        token_modifiers: vec!["readonly".to_string()],
    };
    let tok = LspSemanticToken { line: 0, start: 1, length: 3, token_type: 0, modifiers: 1 };
    let h8 = hash_semantic_tokens_payload(&[tok], LspPositionEncoding::Utf8, &legend);
    assert_eq!(h8, hash_semantic_tokens_payload(&[tok], LspPositionEncoding::Utf8, &legend));
    assert_ne!(h8, hash_semantic_tokens_payload(&[tok], LspPositionEncoding::Utf16, &legend));
}

#[test]
fn buffer_positions_past_the_line_count_the_whole_line() {
    let tab = EditorTabState::new(None, None, "é𝄞x\nab");
    assert_eq!(lsp_position_from_buffer_pos(&tab, (0, 2), LspPositionEncoding::Utf8), (0, 6));
    assert_eq!(lsp_position_from_buffer_pos(&tab, (0, 2), LspPositionEncoding::Utf16), (0, 3));
    assert_eq!(lsp_position_from_buffer_pos(&tab, (0, 2), LspPositionEncoding::Utf32), (0, 2));
    assert_eq!(lsp_position_from_buffer_pos(&tab, (1, 99), LspPositionEncoding::Utf16), (1, 2));
}

#[test]
fn positions_convert_back_to_their_byte_offsets() {
    let text = "aé😀b\r\nxy\n\nz";
    let mut tab = EditorTabState::new(None, None, text);
    let chars: Vec<char> = text.chars().collect();
    for enc in [LspPositionEncoding::Utf8, LspPositionEncoding::Utf16, LspPositionEncoding::Utf32] {
        for c in 0..=chars.len() {
            if c > 0 && chars[c - 1] == '\r' {
                continue;
            }
            let p = lsp_position_from_char_offset(&tab, c, enc);
            let byte: usize = chars[..c].iter().map(|ch| ch.len_utf8()).sum();
            assert_eq!(lsp_position_to_byte_offset(&tab, p.line, p.character, enc), byte);
            tab.buffer.set_cursor_char(c);
            let (l, col) = lsp_position_from_cursor(&tab, enc);
            assert_eq!(lsp_position_to_byte_offset(&tab, l, col, enc), byte);
        }
    }
}

#[test]
fn snippet_positions_stay_within_the_text() {
    for s in ["${1:foo}($2)$0", "a$0b${2|x,y|}", "${3:}${1}$2", "\\$1${1:a}${1:b}"] {
        let r = expand_snippet(s);
        let n = r.text.chars().count();
        assert!(r.cursor.map_or(true, |c| c <= n));
        if let Some((a, b)) = r.selection {
            assert!(a <= b && b <= n);
            assert_eq!(r.cursor, Some(b));
        }
    }
}

#[test]
fn merging_twice_changes_nothing() {
    let span = |start: usize, end: usize, kind: HighlightKind| HighlightSpan { start, end, kind };
    let mut spans = vec![
        span(0, 3, HighlightKind::Keyword),
        span(2, 5, HighlightKind::Keyword),
        span(5, 6, HighlightKind::Keyword),
        span(6, 8, HighlightKind::Type),
        span(9, 10, HighlightKind::Type),
    ];
    merge_adjacent_highlight_spans(&mut spans);
    assert_eq!(
        spans,
        vec![span(0, 6, HighlightKind::Keyword), span(6, 8, HighlightKind::Type), span(9, 10, HighlightKind::Type)]
    );
    let once = spans.clone();
    merge_adjacent_highlight_spans(&mut spans);
    assert_eq!(spans, once);
}

#[test]
fn sorting_many_recent_items_puts_newest_first() {
    let mut ranker = CompletionRanker::default();
    for i in 0..128 {
        ranker.record(Some(LanguageId::Rust), &format!("item_{i:03}"), Some(3));
    }
    let mut items: Vec<CompletionRecord> = (0..128u64)
        .map(|i| {
            let key = (i * 73) % 128;
            let mut r = record(key, &format!("item_{key:03}"), Some(&format!("{key:03}")));
            r.entry.kind = Some(3);
            r
        })
        .collect();
    sort_completion_items(&mut items, &ranker, Some(LanguageId::Rust));
    assert_eq!(items.len(), 128);
    let labels: Vec<String> = items.iter().map(|r| r.entry.label.clone()).collect();
    let expected: Vec<String> = (0..128).rev().map(|i| format!("item_{i:03}")).collect();
    assert_eq!(labels, expected);
}

#[test]
fn result_moves_go_to_the_focused_list() {
    let ui = |focus, sidebar_tab, active_tab, overlay| UiState {
        focus,
        sidebar_tab,
        bottom_panel: BottomPanelState { visible: false, active_tab },
        overlay: OverlayState { active: overlay },
        sidebar_visible: true,
        git_panel_expanded: false,
        should_quit: false,
        command_palette: CommandPaletteState::closed(),
        input_dialog: InputDialogState::hidden(),
        confirm_dialog: ConfirmDialogState::hidden(),
        editor_layout: EditorLayoutState { panes: 1, active_pane: 0, split_direction: SplitDirection::Vertical },
        context_menu: ContextMenuState::closed(),
    };
    let u = ui(FocusTarget::Explorer, SidebarTab::Search, BottomPanelTab::Logs, Some(OverlayKind::Problems));
    assert_eq!(results_list_for_focus(&u), Some(ResultsList::Search(SearchViewport::Sidebar)));
    let u = ui(FocusTarget::Overlay, SidebarTab::Search, BottomPanelTab::Logs, Some(OverlayKind::Problems));
    assert_eq!(results_list_for_focus(&u), Some(ResultsList::Problems));
    let u = ui(FocusTarget::Overlay, SidebarTab::Search, BottomPanelTab::Logs, Some(OverlayKind::Symbols));
    assert_eq!(results_list_for_focus(&u), Some(ResultsList::Symbols));
    let u = ui(FocusTarget::Overlay, SidebarTab::Search, BottomPanelTab::Logs, Some(OverlayKind::Search));
    assert_eq!(results_list_for_focus(&u), None);
    let u = ui(FocusTarget::Editor, SidebarTab::Search, BottomPanelTab::Logs, Some(OverlayKind::Locations));
    assert_eq!(results_list_for_focus(&u), None);
}

#[test]
fn opening_a_search_result_goes_to_its_tab_or_loads_the_file() {
    let ui = UiState {
        focus: FocusTarget::Explorer,
        sidebar_tab: SidebarTab::Search,
        bottom_panel: BottomPanelState { visible: false, active_tab: BottomPanelTab::Logs },
        overlay: OverlayState { active: None },
        sidebar_visible: true,
        git_panel_expanded: false,
        should_quit: false,
        command_palette: CommandPaletteState::closed(),
        input_dialog: InputDialogState::hidden(),
        confirm_dialog: ConfirmDialogState::hidden(),
        editor_layout: EditorLayoutState { panes: 1, active_pane: 0, split_direction: SplitDirection::Vertical },
        context_menu: ContextMenuState::closed(),
    };
    let mut search = SearchState {
        files: vec![
            SearchFile { path: "a.rs".to_string(), matches: vec![SearchMatch { start: 7, end: 9 }] },
            SearchFile { path: "b.rs".to_string(), matches: vec![SearchMatch { start: 3, end: 4 }] },
        ],
        items: vec![
            SearchResultItem::FileHeader { file_index: 0 },
            SearchResultItem::MatchLine { file_index: 0, match_index: 0 },
            SearchResultItem::MatchLine { file_index: 1, match_index: 0 },
            SearchResultItem::MatchLine { file_index: 1, match_index: 5 },
        ],
        selected_index: 1,
    };
    let tab = |p: &str| EditorTabState::new(Some(p.to_string()), None, "");
    let editor = EditorState {
        panes: vec![EditorPane { tabs: vec![tab("x.rs")], active: 0 }, EditorPane { tabs: vec![tab("a.rs")], active: 0 }],
    };
    assert_eq!(
        search_open_selected(&ui, &search, &editor, 0),
        Some(SearchNavigation::OpenTab { pane: 1, tab: 0, byte_offset: 7 })
    );
    search.selected_index = 2;
    assert_eq!(
        search_open_selected(&ui, &search, &editor, 0),
        Some(SearchNavigation::LoadFile { pane: 0, path: "b.rs".to_string(), byte_offset: 3 })
    );
    search.selected_index = 3;
    assert_eq!(search_open_selected(&ui, &search, &editor, 0), None);
    search.selected_index = 9;
    assert_eq!(search_open_selected(&ui, &search, &editor, 0), None);
    search.selected_index = 0;
    let editor_focus = UiState { focus: FocusTarget::Editor, ..ui };
    assert_eq!(search_open_selected(&editor_focus, &search, &editor, 0), None);
}
