use std::collections::HashMap;

use zcode_store::editor::{DiskState, EditorPane, EditorState, EditorTabState, HighlightKind};
use zcode_store::kernel::{
    EditorLayoutState, SplitDirection,
    CommandPaletteState,
    ActionKind, AppState, BottomPanelState, BottomPanelTab, Command, FocusTarget, OverlayKind, OverlayState, SearchViewport,
    SidebarTab, UiState,
};
use zcode_store::store::context_menu::{
    action_entry, build_editor_area_context_menu_items, build_explorer_context_menu_items,
    build_tab_context_menu_items, close_tabs_with_unsaved_guard, dispatch_tab_menu_action, first_selectable_context_menu_index, move_context_menu_selection,
    reduce_context_menu_action, ConfirmDialogState, ContextMenuAction, ContextMenuEntry, PendingAction, TabMenuFollowUp, ContextMenuEvent, ContextMenuRequest,
    ContextMenuState, ExplorerMenuAction, ExplorerMenuFlags, TabMenuAction,
};
use zcode_store::store::confirm_dialog::{
    pending_follow_up, reduce_confirm_dialog_action, ConfirmDialogEvent, ConfirmFollowUp,
};
use zcode_store::store::dispatch::{dispatch, AppAction, DispatchOutcome, MenuFollowOutcome};
use zcode_store::store::input_dialog::{
    reduce_input_dialog_action, InputDialogAction, InputDialogEffect, InputDialogKind, InputDialogState,
};
use zcode_store::store::search::{search_open_target, SearchFile, SearchMatch, SearchResultItem, SearchState};
use zcode_store::store::util::{
    bottom_panel_tabs, find_open_tab, is_rust_extension, is_rust_source_path, next_bottom_panel_tab, open_tabs_for_path,
    prev_bottom_panel_tab, resolve_renamed_path, search_viewport_for_focus,
};
use zcode_store::store::{
    advance_identifier_end, byte_offset_for_char_offset, completion_seed_head, completion_seed_matches_boundary,
    completion_seed_span, is_completion_identifier_continue, is_completion_identifier_start, perf_action_label,
    perf_command_label, seed_completion_semantic_highlight, tick, SemanticSeed,
};
use zcode_store::store::{close_overlay, open_overlay};

fn renames(pairs: &[(&str, &str)]) -> HashMap<String, String> {
    pairs.iter().map(|(a, b)| (a.to_string(), b.to_string())).collect()
}

#[test]
fn renamed_paths_are_followed_to_their_end() {
    let map = renames(&[("a.rs", "b.rs"), ("b.rs", "c.rs")]);
    assert_eq!(resolve_renamed_path("a.rs".to_string(), &map), "c.rs");
    assert_eq!(resolve_renamed_path("b.rs".to_string(), &map), "c.rs");
    assert_eq!(resolve_renamed_path("x.rs".to_string(), &map), "x.rs");
    let same = renames(&[("a.rs", "a.rs")]);
    assert_eq!(resolve_renamed_path("a.rs".to_string(), &same), "a.rs");
    let cycle = renames(&[("a", "b"), ("b", "a")]);
    assert_eq!(resolve_renamed_path("a".to_string(), &cycle), "b");
}

fn ui(focus: FocusTarget, sidebar_tab: SidebarTab, active_tab: BottomPanelTab) -> UiState {
    UiState {
        focus,
        sidebar_tab,
        bottom_panel: BottomPanelState { visible: false, active_tab },
        overlay: OverlayState { active: None },
        sidebar_visible: true,
        git_panel_expanded: false,
        should_quit: false,
        command_palette: CommandPaletteState::closed(),
        input_dialog: InputDialogState::hidden(),
        confirm_dialog: ConfirmDialogState::hidden(),
        editor_layout: EditorLayoutState { panes: 1, active_pane: 0, split_direction: SplitDirection::Vertical },
        context_menu: ContextMenuState::closed(),
    }
}

#[test]
fn search_results_show_where_the_focus_is() {
    let v = search_viewport_for_focus(&ui(FocusTarget::Explorer, SidebarTab::Search, BottomPanelTab::Problems));
    assert_eq!(v, Some(SearchViewport::Sidebar));
    let v = search_viewport_for_focus(&ui(FocusTarget::Explorer, SidebarTab::Explorer, BottomPanelTab::Problems));
    assert_eq!(v, None);
    let v =
        search_viewport_for_focus(&ui(FocusTarget::BottomPanel, SidebarTab::Explorer, BottomPanelTab::SearchResults));
    assert_eq!(v, Some(SearchViewport::BottomPanel));
    let v = search_viewport_for_focus(&ui(FocusTarget::BottomPanel, SidebarTab::Search, BottomPanelTab::Logs));
    assert_eq!(v, None);
    let v = search_viewport_for_focus(&ui(FocusTarget::Editor, SidebarTab::Search, BottomPanelTab::SearchResults));
    assert_eq!(v, None);
}

#[test]
fn bottom_panel_tabs_cycle_both_ways() {
    let tabs = bottom_panel_tabs();
    assert_eq!(
        tabs,
        vec![
            BottomPanelTab::Problems,
            BottomPanelTab::CodeActions,
            BottomPanelTab::Locations,
            BottomPanelTab::Symbols,
            BottomPanelTab::SearchResults,
            BottomPanelTab::Logs,
            BottomPanelTab::Terminal,
        ]
    );
    assert_eq!(next_bottom_panel_tab(&tabs, &BottomPanelTab::Problems), Some(BottomPanelTab::CodeActions));
    assert_eq!(next_bottom_panel_tab(&tabs, &BottomPanelTab::Terminal), Some(BottomPanelTab::Problems));
    assert_eq!(prev_bottom_panel_tab(&tabs, &BottomPanelTab::Problems), Some(BottomPanelTab::Terminal));
    assert_eq!(prev_bottom_panel_tab(&tabs, &BottomPanelTab::Logs), Some(BottomPanelTab::SearchResults));
    for tab in tabs.iter() {
        let next = next_bottom_panel_tab(&tabs, tab).unwrap();
        assert_eq!(prev_bottom_panel_tab(&tabs, &next), Some(*tab));
    }
    let short = vec![BottomPanelTab::Logs, BottomPanelTab::Terminal];
    assert_eq!(next_bottom_panel_tab(&short, &BottomPanelTab::Problems), Some(BottomPanelTab::Terminal));
    assert_eq!(prev_bottom_panel_tab(&short, &BottomPanelTab::Problems), Some(BottomPanelTab::Terminal));
    assert_eq!(next_bottom_panel_tab(&[], &BottomPanelTab::Problems), None);
    assert_eq!(prev_bottom_panel_tab(&[], &BottomPanelTab::Problems), None);
}

fn pane(paths: &[Option<&str>]) -> EditorPane {
    EditorPane {
        tabs: paths.iter().map(|p| EditorTabState::new(p.map(|s| s.to_string()), None, "")).collect(),
        active: 0,
    }
}

#[test]
fn open_tabs_are_found_preferring_the_given_pane() {
    let editor = EditorState {
        panes: vec![
            pane(&[Some("a.rs"), Some("b.rs")]),
            pane(&[None, Some("b.rs"), Some("c.rs"), Some("b.rs")]),
            pane(&[Some("c.rs")]),
        ],
    };
    assert_eq!(find_open_tab(&editor, 1, "b.rs"), Some((1, 1)));
    assert_eq!(find_open_tab(&editor, 0, "b.rs"), Some((0, 1)));
    assert_eq!(find_open_tab(&editor, 0, "c.rs"), Some((1, 2)));
    assert_eq!(find_open_tab(&editor, 7, "c.rs"), Some((1, 2)));
    assert_eq!(find_open_tab(&editor, 2, "a.rs"), Some((0, 0)));
    assert_eq!(find_open_tab(&editor, 0, "z.rs"), None);
    assert_eq!(open_tabs_for_path(&editor, "b.rs"), vec![(0, 1), (1, 1), (1, 3)]);
    assert_eq!(open_tabs_for_path(&editor, "c.rs"), vec![(1, 2), (2, 0)]);
    assert_eq!(open_tabs_for_path(&editor, "z.rs"), Vec::<(usize, usize)>::new());
}

#[test]
fn rust_sources_are_recognised_by_extension() {
    assert!(is_rust_source_path("src/main.rs"));
    assert!(is_rust_source_path("lib.rs"));
    assert!(!is_rust_source_path("main.rsx"));
    assert!(!is_rust_source_path("main.c"));
    assert!(!is_rust_source_path("rs"));
    assert!(!is_rust_source_path(".rs"));
    assert!(!is_rust_source_path("Makefile"));
    assert!(is_rust_source_path("src/a.rs/"));
    assert!(is_rust_source_path("src/a.rs/."));
    assert!(!is_rust_source_path("src/a.rs/.."));
    assert!(!is_rust_source_path("dir/.rs"));
    assert!(is_rust_source_path("dir/.x.rs"));
    assert!(is_rust_extension(Some("rs")));
    assert!(!is_rust_extension(Some("RS")));
    assert!(!is_rust_extension(Some("rsx")));
    assert!(!is_rust_extension(None));
}

fn menu() -> Vec<ContextMenuEntry> {
    vec![
        action_entry("Close", ContextMenuAction::Tab(TabMenuAction::Close), true),
        action_entry("Close Others", ContextMenuAction::Tab(TabMenuAction::CloseOthers), false),
        action_entry("Rename", ContextMenuAction::Explorer(ExplorerMenuAction::Rename), true),
        action_entry("Copy", ContextMenuAction::RunCommand(Command::Copy), true),
    ]
}

#[test]
fn context_menu_selection_skips_disabled_entries_and_wraps() {
    let items = menu();
    assert_eq!(items[1].label, "Close Others");
    assert!(!items[1].is_selectable());
    assert!(items[0].is_selectable());
    assert_eq!(first_selectable_context_menu_index(&items), Some(0));
    assert_eq!(first_selectable_context_menu_index(&items[1..]), Some(1));
    assert_eq!(move_context_menu_selection(&items, 0, 1), Some(2));
    assert_eq!(move_context_menu_selection(&items, 0, 2), Some(3));
    assert_eq!(move_context_menu_selection(&items, 0, -1), Some(3));
    assert_eq!(move_context_menu_selection(&items, 2, -1), Some(0));
    assert_eq!(move_context_menu_selection(&items, 10, 1), Some(0));
    assert_eq!(move_context_menu_selection(&items, 0, 3), Some(0));
    assert_eq!(move_context_menu_selection(&items, 0, 0), None);
    assert_eq!(move_context_menu_selection(&[], 0, 1), None);
    let disabled = vec![
        ContextMenuEntry::disabled_action("A", ContextMenuAction::Tab(TabMenuAction::CloseAll)),
        ContextMenuEntry::disabled_action("B", ContextMenuAction::Tab(TabMenuAction::SplitDown)),
    ];
    assert_eq!(first_selectable_context_menu_index(&disabled), None);
    assert_eq!(move_context_menu_selection(&disabled, 0, 1), None);
    let one = vec![ContextMenuEntry::action("Paste", ContextMenuAction::Explorer(ExplorerMenuAction::Paste))];
    assert_eq!(move_context_menu_selection(&one, 0, -5), Some(0));
}

#[test]
fn search_rows_open_at_their_match() {
    let search = SearchState {
        files: vec![
            SearchFile {
                path: "a.rs".to_string(),
                matches: vec![SearchMatch { start: 12, end: 15 }, SearchMatch { start: 40, end: 43 }],
            },
            SearchFile { path: "b.rs".to_string(), matches: vec![] },
        ],
        items: vec![],
        selected_index: 0,
    };
    assert_eq!(
        search_open_target(&search, SearchResultItem::FileHeader { file_index: 0 }),
        Some(("a.rs".to_string(), 12))
    );
    assert_eq!(
        search_open_target(&search, SearchResultItem::FileHeader { file_index: 1 }),
        Some(("b.rs".to_string(), 0))
    );
    assert_eq!(
        search_open_target(&search, SearchResultItem::MatchLine { file_index: 0, match_index: 1 }),
        Some(("a.rs".to_string(), 40))
    );
    assert_eq!(search_open_target(&search, SearchResultItem::MatchLine { file_index: 0, match_index: 2 }), None);
    assert_eq!(search_open_target(&search, SearchResultItem::MatchLine { file_index: 1, match_index: 0 }), None);
    assert_eq!(search_open_target(&search, SearchResultItem::FileHeader { file_index: 2 }), None);
}

#[test]
fn perf_labels_name_the_action_and_command() {
    assert_eq!(perf_action_label(&ActionKind::Tick), "kernel.action.tick");
    assert_eq!(perf_action_label(&ActionKind::LspInlayHints), "kernel.action.lsp_inlay_hints");
    assert_eq!(perf_action_label(&ActionKind::LspHover), "kernel.action.other");
    assert_eq!(perf_action_label(&ActionKind::TerminalWrite), "kernel.action.other");
    assert_eq!(zcode_store::flat_store::perf_action_label(&ActionKind::LspHover), "kernel.action.lsp_hover");
    assert_eq!(perf_command_label(&Command::InsertChar('x')), "kernel.command.insert_char");
    assert_eq!(perf_command_label(&Command::Escape), "kernel.command.escape");
    assert_eq!(perf_command_label(&Command::Quit), "kernel.command.other");
    assert_eq!(zcode_store::flat_store::perf_command_label(&Command::InsertChar('x')), "kernel.command.insert_char");
}

#[test]
fn identifier_chars_follow_xid_with_underscore() {
    assert!(is_completion_identifier_start('_'));
    assert!(is_completion_identifier_start('a'));
    assert!(is_completion_identifier_start('é'));
    assert!(!is_completion_identifier_start('1'));
    assert!(!is_completion_identifier_start('-'));
    assert!(is_completion_identifier_continue('1'));
    assert!(is_completion_identifier_continue('_'));
    assert!(!is_completion_identifier_continue(':'));
}

#[test]
fn byte_offsets_and_identifier_ends() {
    assert_eq!(byte_offset_for_char_offset("héllo", 2), 3);
    assert_eq!(byte_offset_for_char_offset("héllo", 0), 0);
    assert_eq!(byte_offset_for_char_offset("héllo", 99), 6);
    assert_eq!(advance_identifier_end("foo bar", 4), 7);
    assert_eq!(advance_identifier_end("a_b1+c", 0), 4);
    assert_eq!(advance_identifier_end("(x", 0), 0);
    assert_eq!(advance_identifier_end("é_x y", 0), 4);
    assert!(completion_seed_matches_boundary("a foo b", 2, 5));
    assert!(completion_seed_matches_boundary("foo", 0, 3));
    assert!(!completion_seed_matches_boundary("afoo", 1, 4));
    assert!(!completion_seed_matches_boundary("foo_", 0, 3));
}

#[test]
fn seed_head_is_the_last_identifier_of_the_leading_path() {
    assert_eq!(completion_seed_head("std::vec::Vec<T>"), Some("Vec".to_string()));
    assert_eq!(completion_seed_head("foo(bar)"), Some("foo".to_string()));
    assert_eq!(completion_seed_head("self.items.len()"), Some("len".to_string()));
    assert_eq!(completion_seed_head("p->next"), Some("next".to_string()));
    assert_eq!(completion_seed_head("  .x"), Some("x".to_string()));
    assert_eq!(completion_seed_head("a::"), Some("a".to_string()));
    assert_eq!(completion_seed_head("a::1"), Some("a".to_string()));
    assert_eq!(completion_seed_head("123"), None);
    assert_eq!(completion_seed_head(""), None);
}

#[test]
fn seed_span_prefers_the_occurrence_before_the_cursor() {
    assert_eq!(completion_seed_span("let v = Vec::new();", 19, "Vec::new()"), Some((13, 16)));
    assert_eq!(completion_seed_span("foo foo", 3, "foo"), Some((0, 3)));
    assert_eq!(completion_seed_span("foo foo", 7, "foo"), Some((4, 7)));
    assert_eq!(completion_seed_span("foo foo", 0, "foo"), Some((4, 7)));
    assert_eq!(completion_seed_span("foobar foo", 10, "foo"), Some((7, 10)));
    assert_eq!(completion_seed_span("foobar", 6, "foo"), None);
    assert_eq!(completion_seed_span("x foo\r\n", 0, "foo"), Some((2, 5)));
    assert_eq!(completion_seed_span("é foo", 5, "foo"), Some((3, 6)));
    assert_eq!(completion_seed_span("foo", 3, "foo\nbar"), None);
    assert_eq!(completion_seed_span("foo", 3, "()"), None);
}

fn tab_with(content: &str, cursor: usize) -> EditorTabState {
    let mut tab = EditorTabState::new(Some("main.rs".to_string()), None, content);
    tab.buffer.set_cursor_char(cursor);
    tab
}

#[test]
fn semantic_seed_lands_on_the_cursor_line() {
    let tab = tab_with("let v = Vec::new();\nx", 19);
    assert_eq!(
        seed_completion_semantic_highlight(&tab, "Vec::new()", HighlightKind::Function),
        Some(SemanticSeed { row: 0, start: 13, end: 16, line_len: 19, kind: HighlightKind::Function })
    );
    let tab = tab_with("a\r\nfoo foo", 10);
    assert_eq!(
        seed_completion_semantic_highlight(&tab, "foo", HighlightKind::Variable),
        Some(SemanticSeed { row: 1, start: 4, end: 7, line_len: 7, kind: HighlightKind::Variable })
    );
    let tab = tab_with("x foo\r\nz", 0);
    assert_eq!(
        seed_completion_semantic_highlight(&tab, "foo", HighlightKind::Method),
        Some(SemanticSeed { row: 0, start: 2, end: 5, line_len: 5, kind: HighlightKind::Method })
    );
    let tab = tab_with("foo\nbar", 7);
    assert_eq!(seed_completion_semantic_highlight(&tab, "foo", HighlightKind::Method), None);
    assert_eq!(seed_completion_semantic_highlight(&tab, "bar\n", HighlightKind::Method), None);
}

fn flags(items: &[ContextMenuEntry]) -> Vec<(String, bool)> {
    items.iter().map(|e| (e.label.clone(), e.enabled)).collect()
}

fn owned(v: &[(&str, bool)]) -> Vec<(String, bool)> {
    v.iter().map(|(l, e)| (l.to_string(), *e)).collect()
}

#[test]
fn tab_menu_enables_entries_by_tab_position() {
    let editor = EditorState { panes: vec![pane(&[Some("a.rs"), Some("b.rs"), Some("c.rs")]), pane(&[])] };
    let items = build_tab_context_menu_items(&editor, 0, Some(1));
    assert_eq!(
        flags(&items),
        owned(&[
            ("Close", true),
            ("Close Others", true),
            ("Close to the Right", true),
            ("Close All", true),
            ("", false),
            ("Split Right", true),
            ("Split Down", true),
        ])
    );
    assert!(items[4].action.is_none());
    assert!(matches!(items[2].action, Some(ContextMenuAction::Tab(TabMenuAction::CloseToRight))));
    let last = build_tab_context_menu_items(&editor, 0, Some(2));
    assert!(!last[2].enabled);
    assert!(last[1].enabled);
    let none = build_tab_context_menu_items(&editor, 0, None);
    assert_eq!(
        none.iter().map(|e| e.enabled).collect::<Vec<_>>(),
        vec![false, false, false, true, false, false, false]
    );
    let empty = build_tab_context_menu_items(&editor, 1, Some(0));
    assert!(empty.iter().all(|e| !e.enabled));
    let missing = build_tab_context_menu_items(&editor, 5, Some(0));
    assert!(missing.iter().all(|e| !e.enabled));
    let single = EditorState { panes: vec![pane(&[Some("a.rs")])] };
    let items = build_tab_context_menu_items(&single, 0, Some(0));
    assert_eq!(
        items.iter().map(|e| e.enabled).collect::<Vec<_>>(),
        vec![true, false, false, true, false, true, true]
    );
}

#[test]
fn editor_area_menu_needs_an_active_tab() {
    let mut editor = EditorState { panes: vec![pane(&[Some("a.rs")]), pane(&[])] };
    let items = build_editor_area_context_menu_items(&editor, 0);
    assert_eq!(
        flags(&items),
        owned(&[
            ("Cut", true),
            ("Copy", true),
            ("Paste", true),
            ("Select All", true),
            ("", false),
            ("Go to Definition", true),
            ("Find References", true),
            ("Rename Symbol", true),
            ("", false),
            ("Format Document", true),
            ("Code Action", true),
        ])
    );
    assert!(matches!(items[5].action, Some(ContextMenuAction::RunCommand(Command::LspDefinition))));
    assert!(build_editor_area_context_menu_items(&editor, 1).iter().all(|e| !e.enabled));
    assert!(build_editor_area_context_menu_items(&editor, 9).iter().all(|e| !e.enabled));
    editor.panes[0].active = 3;
    assert!(build_editor_area_context_menu_items(&editor, 0).iter().all(|e| !e.enabled));
    assert_eq!(first_selectable_context_menu_index(&build_editor_area_context_menu_items(&editor, 0)), None);
}

#[test]
fn explorer_menu_follows_the_selection_flags() {
    let items = build_explorer_context_menu_items(false, true, true);
    assert_eq!(
        flags(&items),
        owned(&[
            ("New File", true),
            ("New Folder", true),
            ("", false),
            ("Cut", false),
            ("Copy", false),
            ("Paste", true),
            ("", false),
            ("Rename", false),
            ("Delete", false),
            ("", false),
            ("Copy Path", true),
            ("Copy Relative Path", true),
        ])
    );
    assert!(matches!(items[11].action, Some(ContextMenuAction::Explorer(ExplorerMenuAction::CopyRelativePath))));
    let all = build_explorer_context_menu_items(true, false, false);
    assert_eq!(
        all.iter().map(|e| e.enabled).collect::<Vec<_>>(),
        vec![true, true, false, true, true, false, false, true, true, false, false, false]
    );
    assert_eq!(move_context_menu_selection(&all, 1, 1), Some(3));
}

#[test]
fn overlay_takes_the_focus_and_gives_it_back() {
    let mut u = ui(FocusTarget::Editor, SidebarTab::Explorer, BottomPanelTab::Problems);
    assert!(open_overlay(&mut u, OverlayKind::Problems));
    assert_eq!(u.focus, FocusTarget::Overlay);
    assert_eq!(u.overlay.active, Some(OverlayKind::Problems));
    assert!(!open_overlay(&mut u, OverlayKind::Problems));
    assert!(open_overlay(&mut u, OverlayKind::Symbols));
    assert_eq!(u.overlay.active, Some(OverlayKind::Symbols));
    assert!(close_overlay(&mut u));
    assert_eq!(u.focus, FocusTarget::Editor);
    assert_eq!(u.overlay.active, None);
    assert!(!close_overlay(&mut u));
    u.focus = FocusTarget::Explorer;
    assert!(open_overlay(&mut u, OverlayKind::Search));
    u.focus = FocusTarget::Explorer;
    assert!(close_overlay(&mut u));
    assert_eq!(u.focus, FocusTarget::Explorer);
    assert_eq!(u.sidebar_tab, SidebarTab::Explorer);
}

fn app() -> AppState {
    AppState {
        ui: ui(FocusTarget::Editor, SidebarTab::Explorer, BottomPanelTab::Problems),
        editor: EditorState { panes: vec![pane(&[Some("a.rs"), Some("b.rs")]), pane(&[Some("c.rs")])] },
        workspace_root: "/ws".to_string(),
    }
}

const FLAGS: ExplorerMenuFlags = ExplorerMenuFlags { can_mutate_selected: true, can_paste: false, can_copy_path: true };

#[test]
fn context_menu_opens_moves_and_confirms() {
    let mut state = app();
    let out = reduce_context_menu_action(
        &mut state,
        ContextMenuEvent::Open { request: ContextMenuRequest::Tab { pane: 1, index: 0 }, x: 4, y: 7 },
        FLAGS,
    );
    assert!(out.state_changed);
    assert!(out.follow_up.is_none());
    assert_eq!(state.ui.editor_layout.active_pane, 1);
    assert_eq!(state.ui.focus, FocusTarget::Editor);
    let m = &state.ui.context_menu;
    assert!(m.visible);
    assert_eq!((m.anchor_x, m.anchor_y), (4, 7));
    assert_eq!(m.selected, 0);
    assert_eq!(m.items.len(), 7);
    assert_eq!(m.request, Some(ContextMenuRequest::Tab { pane: 1, index: 0 }));

    let again = reduce_context_menu_action(
        &mut state,
        ContextMenuEvent::Open { request: ContextMenuRequest::Tab { pane: 1, index: 0 }, x: 4, y: 7 },
        FLAGS,
    );
    assert!(!again.state_changed);

    let out = reduce_context_menu_action(&mut state, ContextMenuEvent::MoveSelection { delta: 1 }, FLAGS);
    assert!(out.state_changed);
    assert_eq!(state.ui.context_menu.selected, 3);
    let out = reduce_context_menu_action(&mut state, ContextMenuEvent::SetSelected { index: 1 }, FLAGS);
    assert!(!out.state_changed);
    assert_eq!(state.ui.context_menu.selected, 3);
    let out = reduce_context_menu_action(&mut state, ContextMenuEvent::SetSelected { index: 5 }, FLAGS);
    assert!(out.state_changed);
    assert_eq!(state.ui.context_menu.selected, 5);

    let out = reduce_context_menu_action(&mut state, ContextMenuEvent::Confirm, FLAGS);
    assert!(out.state_changed);
    assert!(!state.ui.context_menu.visible);
    assert!(state.ui.context_menu.items.is_empty());
    match out.follow_up {
        Some((ContextMenuAction::Tab(TabMenuAction::SplitRight), Some(ContextMenuRequest::Tab { pane: 1, index: 0 }))) => {},
        other => panic!("unexpected follow-up {:?}", other),
    }
    let out = reduce_context_menu_action(&mut state, ContextMenuEvent::Close, FLAGS);
    assert!(!out.state_changed);
}

#[test]
fn context_menu_for_the_explorer_shows_the_sidebar() {
    let mut state = app();
    state.ui.sidebar_visible = false;
    let out = reduce_context_menu_action(
        &mut state,
        ContextMenuEvent::Open { request: ContextMenuRequest::Explorer { tree_row: Some(3) }, x: 0, y: 0 },
        FLAGS,
    );
    assert!(out.state_changed);
    assert_eq!(out.select_explorer_row, Some(3));
    assert!(state.ui.sidebar_visible);
    assert_eq!(state.ui.sidebar_tab, SidebarTab::Explorer);
    assert_eq!(state.ui.focus, FocusTarget::Explorer);
    assert_eq!(state.ui.context_menu.items.len(), 12);
    assert!(!state.ui.context_menu.items[5].enabled);
    let out = reduce_context_menu_action(&mut state, ContextMenuEvent::Close, FLAGS);
    assert!(out.state_changed);
    assert!(!state.ui.context_menu.visible);
}

#[test]
fn context_menu_stays_shut_behind_dialogs() {
    let mut state = app();
    state.ui.confirm_dialog.visible = true;
    let out = reduce_context_menu_action(
        &mut state,
        ContextMenuEvent::Open { request: ContextMenuRequest::EditorArea { pane: 0 }, x: 1, y: 1 },
        FLAGS,
    );
    assert!(!out.state_changed);
    assert!(!state.ui.context_menu.visible);
    let out = reduce_context_menu_action(&mut state, ContextMenuEvent::Confirm, FLAGS);
    assert!(!out.state_changed);
    assert!(out.follow_up.is_none());
    let out = reduce_context_menu_action(&mut state, ContextMenuEvent::MoveSelection { delta: 1 }, FLAGS);
    assert!(!out.state_changed);
}

fn dialog(kind: InputDialogKind, value: &str) -> InputDialogState {
    InputDialogState { visible: true, value: value.to_string(), cursor: value.len(), error: None, kind: Some(kind) }
}

#[test]
fn input_dialog_edits_around_the_cursor() {
    let mut state = app();
    state.ui.input_dialog = dialog(InputDialogKind::NewFile { parent_dir: "/ws/src".to_string() }, "aé");
    let r = reduce_input_dialog_action(&mut state, InputDialogAction::CursorLeft);
    assert!(r.state_changed);
    assert_eq!(state.ui.input_dialog.cursor, 1);
    let r = reduce_input_dialog_action(&mut state, InputDialogAction::Append('x'));
    assert!(r.state_changed);
    assert_eq!(state.ui.input_dialog.value, "axé");
    assert_eq!(state.ui.input_dialog.cursor, 2);
    reduce_input_dialog_action(&mut state, InputDialogAction::CursorRight);
    assert_eq!(state.ui.input_dialog.cursor, 4);
    let r = reduce_input_dialog_action(&mut state, InputDialogAction::CursorRight);
    assert!(!r.state_changed);
    reduce_input_dialog_action(&mut state, InputDialogAction::Backspace);
    assert_eq!(state.ui.input_dialog.value, "ax");
    assert_eq!(state.ui.input_dialog.cursor, 2);
    reduce_input_dialog_action(&mut state, InputDialogAction::CursorLeft);
    reduce_input_dialog_action(&mut state, InputDialogAction::CursorLeft);
    let r = reduce_input_dialog_action(&mut state, InputDialogAction::Backspace);
    assert!(!r.state_changed);
    let r = reduce_input_dialog_action(&mut state, InputDialogAction::Cancel);
    assert!(r.state_changed);
    assert!(!state.ui.input_dialog.visible);
    let r = reduce_input_dialog_action(&mut state, InputDialogAction::Append('y'));
    assert!(!r.state_changed);
}

#[test]
fn input_dialog_checks_what_it_accepts() {
    let mut state = app();
    state.ui.input_dialog = dialog(InputDialogKind::NewFolder { parent_dir: "/ws".to_string() }, "  ");
    let r = reduce_input_dialog_action(&mut state, InputDialogAction::Accept);
    assert!(r.state_changed);
    assert_eq!(state.ui.input_dialog.error.as_deref(), Some("Name required"));
    let r = reduce_input_dialog_action(&mut state, InputDialogAction::Accept);
    assert!(!r.state_changed);
    state.ui.input_dialog = dialog(InputDialogKind::NewFolder { parent_dir: "/ws".to_string() }, "..");
    reduce_input_dialog_action(&mut state, InputDialogAction::Accept);
    assert_eq!(state.ui.input_dialog.error.as_deref(), Some("Invalid name"));
    state.ui.input_dialog = dialog(
        InputDialogKind::LspRename { path: "/ws/a.rs".to_string(), line: 1, column: 2 },
        "a b",
    );
    reduce_input_dialog_action(&mut state, InputDialogAction::Accept);
    assert_eq!(state.ui.input_dialog.error.as_deref(), Some("Name cannot contain spaces"));
    state.ui.input_dialog = dialog(InputDialogKind::GitWorktreeAdd { repo_root: "/ws".to_string() }, "a..b");
    reduce_input_dialog_action(&mut state, InputDialogAction::Accept);
    assert_eq!(state.ui.input_dialog.error.as_deref(), Some("Invalid branch"));
    assert!(state.ui.input_dialog.visible);

    state.ui.input_dialog = dialog(InputDialogKind::NewFile { parent_dir: "/ws/src".to_string() }, " main.rs ");
    let r = reduce_input_dialog_action(&mut state, InputDialogAction::Accept);
    assert!(r.state_changed);
    assert!(!state.ui.input_dialog.visible);
    match &r.effects[..] {
        [InputDialogEffect::CreateFile { parent_dir, name }] => {
            assert_eq!(parent_dir, "/ws/src");
            assert_eq!(name, "main.rs");
        },
        other => panic!("unexpected effects {:?}", other),
    }
    state.ui.input_dialog = dialog(InputDialogKind::GitWorktreeAdd { repo_root: "/ws".to_string() }, "refs/heads/dev");
    let r = reduce_input_dialog_action(&mut state, InputDialogAction::Accept);
    match &r.effects[..] {
        [InputDialogEffect::GitWorktreeAdd { branch, .. }] => assert_eq!(branch, "dev"),
        other => panic!("unexpected effects {:?}", other),
    }
    state.ui.input_dialog = dialog(InputDialogKind::LspWorkspaceSymbols, "Foo");
    let r = reduce_input_dialog_action(&mut state, InputDialogAction::Accept);
    assert_eq!(r.effects.len(), 2);
    assert!(matches!(r.effects[0], InputDialogEffect::ClearSymbols));
    assert_eq!(state.ui.focus, FocusTarget::BottomPanel);
    assert_eq!(state.ui.bottom_panel.active_tab, BottomPanelTab::Symbols);
    assert!(state.ui.bottom_panel.visible);
    state.ui.input_dialog = dialog(InputDialogKind::ExplorerRename { from: "/ws/a.rs".to_string() }, "b.rs");
    let r = reduce_input_dialog_action(&mut state, InputDialogAction::Accept);
    match &r.effects[..] {
        [InputDialogEffect::RenamePath { from, to }] => {
            assert_eq!(from, "/ws/a.rs");
            assert_eq!(to, "/ws/b.rs");
        },
        other => panic!("unexpected effects {:?}", other),
    }
    state.ui.input_dialog = dialog(InputDialogKind::ExplorerRename { from: "/ws/a.rs".to_string() }, "a.rs");
    let r = reduce_input_dialog_action(&mut state, InputDialogAction::Accept);
    assert!(r.effects.is_empty());
    assert!(r.state_changed);
}

#[test]
fn reload_notices_end_after_three_seconds() {
    let mut state = app();
    state.editor.panes[0].tabs[0].disk_state = DiskState::ReloadedFromDisk { at_ms: 1000 };
    state.editor.panes[1].tabs[0].disk_state = DiskState::ReloadedFromDisk { at_ms: 5000 };
    tick(&mut state, 3999);
    assert_eq!(state.editor.panes[0].tabs[0].disk_state, DiskState::ReloadedFromDisk { at_ms: 1000 });
    tick(&mut state, 4000);
    assert_eq!(state.editor.panes[0].tabs[0].disk_state, DiskState::InSync);
    assert_eq!(state.editor.panes[1].tabs[0].disk_state, DiskState::ReloadedFromDisk { at_ms: 5000 });
    assert_eq!(state.editor.panes[0].tabs[1].disk_state, DiskState::InSync);
    assert_eq!(state.editor.panes[0].tabs[1].path.as_deref(), Some("b.rs"));
    assert_eq!(state.editor.panes.len(), 2);
}

fn numbered_app(dirty: &[bool]) -> AppState {
    let mut state = app();
    let tabs: Vec<EditorTabState> = dirty
        .iter()
        .enumerate()
        .map(|(i, d)| {
            let mut t = EditorTabState::new(Some(format!("t{i}.rs")), None, "");
            t.id = 10 + i as u64;
            t.dirty = *d;
            t
        })
        .collect();
    state.editor.panes[0].tabs = tabs;
    state
}

#[test]
fn closing_clean_tabs_hands_them_to_the_editor() {
    let mut state = numbered_app(&[false, false, false]);
    let before = state.ui.clone();
    let out = close_tabs_with_unsaved_guard(&mut state, 0, vec![10, 12]);
    assert!(out.state_changed);
    match out.follow_up {
        Some(TabMenuFollowUp::CloseTabs { pane, tab_ids }) => {
            assert_eq!(pane, 0);
            assert_eq!(tab_ids, vec![10, 12]);
        },
        other => panic!("unexpected follow-up {other:?}"),
    }
    assert_eq!(state.ui.confirm_dialog.visible, before.confirm_dialog.visible);
    let out = close_tabs_with_unsaved_guard(&mut state, 0, vec![]);
    assert!(!out.state_changed);
    assert!(out.follow_up.is_none());
}

#[test]
fn closing_unsaved_tabs_asks_first() {
    let mut state = numbered_app(&[false, true, false]);
    let out = close_tabs_with_unsaved_guard(&mut state, 0, vec![10, 11]);
    assert!(out.state_changed);
    assert!(out.follow_up.is_none());
    assert!(state.ui.confirm_dialog.visible);
    assert_eq!(state.ui.confirm_dialog.message, "Unsaved changes. Close 2 tabs anyway?");
    match &state.ui.confirm_dialog.on_confirm {
        Some(PendingAction::CloseTabsBatch { pane, tab_ids }) => {
            assert_eq!(*pane, 0);
            assert_eq!(tab_ids, &vec![10, 11]);
        },
        other => panic!("unexpected pending action {other:?}"),
    }
    let mut state = numbered_app(&[true]);
    close_tabs_with_unsaved_guard(&mut state, 0, vec![10]);
    assert_eq!(state.ui.confirm_dialog.message, "Unsaved changes. Close anyway?");
    let mut state = numbered_app(&[false, true]);
    let out = close_tabs_with_unsaved_guard(&mut state, 0, vec![10]);
    assert!(!state.ui.confirm_dialog.visible);
    assert!(matches!(out.follow_up, Some(TabMenuFollowUp::CloseTabs { .. })));
}

fn closed_ids(out: zcode_store::store::context_menu::TabMenuOutcome) -> Vec<u64> {
    match out.follow_up {
        Some(TabMenuFollowUp::CloseTabs { tab_ids, .. }) => tab_ids,
        other => panic!("unexpected follow-up {other:?}"),
    }
}

#[test]
fn tab_menu_actions_pick_the_tabs_to_close() {
    let tab = Some(ContextMenuRequest::Tab { pane: 0, index: 1 });
    let mut state = numbered_app(&[false, false, false, false]);
    assert_eq!(closed_ids(dispatch_tab_menu_action(&mut state, TabMenuAction::Close, tab.clone())), vec![11]);
    assert_eq!(
        closed_ids(dispatch_tab_menu_action(&mut state, TabMenuAction::CloseOthers, tab.clone())),
        vec![10, 12, 13]
    );
    assert_eq!(closed_ids(dispatch_tab_menu_action(&mut state, TabMenuAction::CloseToRight, tab.clone())), vec![12, 13]);
    let bar = Some(ContextMenuRequest::TabBar { pane: 0 });
    assert_eq!(closed_ids(dispatch_tab_menu_action(&mut state, TabMenuAction::CloseAll, bar.clone())), vec![10, 11, 12, 13]);
    let out = dispatch_tab_menu_action(&mut state, TabMenuAction::Close, bar);
    assert!(!out.state_changed);
    assert!(out.follow_up.is_none());
    let out = dispatch_tab_menu_action(&mut state, TabMenuAction::Close, Some(ContextMenuRequest::Tab { pane: 0, index: 9 }));
    assert!(!out.state_changed);
    let out = dispatch_tab_menu_action(&mut state, TabMenuAction::CloseAll, Some(ContextMenuRequest::EditorArea { pane: 0 }));
    assert!(!out.state_changed);
    match dispatch_tab_menu_action(&mut state, TabMenuAction::SplitRight, tab.clone()).follow_up {
        Some(TabMenuFollowUp::Split { pane, tab_id, command }) => {
            assert_eq!((pane, tab_id), (0, 11));
            assert!(matches!(command, Command::SplitEditorVertical));
        },
        other => panic!("unexpected follow-up {other:?}"),
    }
    match dispatch_tab_menu_action(&mut state, TabMenuAction::SplitDown, tab).follow_up {
        Some(TabMenuFollowUp::Split { tab_id, command, .. }) => {
            assert_eq!(tab_id, 11);
            assert!(matches!(command, Command::SplitEditorHorizontal));
        },
        other => panic!("unexpected follow-up {other:?}"),
    }
}

#[test]
fn confirming_a_guarded_close_closes_the_asked_tabs() {
    let mut state = numbered_app(&[true, false, true]);
    close_tabs_with_unsaved_guard(&mut state, 0, vec![10, 12]);
    assert!(state.ui.confirm_dialog.visible);
    let out = reduce_confirm_dialog_action(&mut state, ConfirmDialogEvent::Accept);
    assert!(out.state_changed);
    match out.follow_up {
        Some(ConfirmFollowUp::CloseTabsById { pane, tab_ids }) => {
            assert_eq!(pane, 0);
            assert_eq!(tab_ids, vec![10, 12]);
        },
        other => panic!("unexpected follow-up {other:?}"),
    }
    assert!(!state.ui.confirm_dialog.visible);
    assert!(state.ui.confirm_dialog.message.is_empty());
    assert!(state.ui.confirm_dialog.on_confirm.is_none());
    let out = reduce_confirm_dialog_action(&mut state, ConfirmDialogEvent::Accept);
    assert!(!out.state_changed);
    assert!(out.follow_up.is_none());
}

#[test]
fn cancelling_the_confirm_dialog_hands_nothing_on() {
    let mut state = numbered_app(&[true]);
    close_tabs_with_unsaved_guard(&mut state, 0, vec![10]);
    let out = reduce_confirm_dialog_action(&mut state, ConfirmDialogEvent::Cancel);
    assert!(out.state_changed);
    assert!(out.follow_up.is_none());
    assert!(!state.ui.confirm_dialog.visible);
    assert!(state.ui.confirm_dialog.on_confirm.is_none());
    let out = reduce_confirm_dialog_action(&mut state, ConfirmDialogEvent::Cancel);
    assert!(!out.state_changed);
}

#[test]
fn confirmed_file_operations_stay_inside_the_workspace() {
    let mut state = app();
    let show = |path: &str| ConfirmDialogEvent::Show {
        message: "Delete?".to_string(),
        on_confirm: PendingAction::DeletePath { path: path.to_string(), is_dir: false },
    };
    let out = reduce_confirm_dialog_action(&mut state, show("/ws/a.rs"));
    assert!(out.state_changed);
    assert!(state.ui.confirm_dialog.visible);
    assert_eq!(state.ui.confirm_dialog.message, "Delete?");
    match reduce_confirm_dialog_action(&mut state, ConfirmDialogEvent::Accept).follow_up {
        Some(ConfirmFollowUp::DeletePath { path, is_dir }) => {
            assert_eq!(path, "/ws/a.rs");
            assert!(!is_dir);
        },
        other => panic!("unexpected follow-up {other:?}"),
    }
    reduce_confirm_dialog_action(&mut state, show("/ws"));
    let out = reduce_confirm_dialog_action(&mut state, ConfirmDialogEvent::Accept);
    assert!(out.state_changed);
    assert!(out.follow_up.is_none());
    reduce_confirm_dialog_action(&mut state, show("/elsewhere/a.rs"));
    assert!(reduce_confirm_dialog_action(&mut state, ConfirmDialogEvent::Accept).follow_up.is_none());
    let rename = |from: &str, to: &str| ConfirmDialogEvent::Show {
        message: "Overwrite?".to_string(),
        on_confirm: PendingAction::RenamePath { from: from.to_string(), to: to.to_string(), overwrite: true },
    };
    reduce_confirm_dialog_action(&mut state, rename("/ws/a.rs", "/ws/b.rs"));
    assert!(matches!(
        reduce_confirm_dialog_action(&mut state, ConfirmDialogEvent::Accept).follow_up,
        Some(ConfirmFollowUp::RenamePath { overwrite: true, .. })
    ));
    reduce_confirm_dialog_action(&mut state, rename("/ws/a.rs", "/tmp/b.rs"));
    assert!(reduce_confirm_dialog_action(&mut state, ConfirmDialogEvent::Accept).follow_up.is_none());
    reduce_confirm_dialog_action(
        &mut state,
        ConfirmDialogEvent::Show {
            message: "Copy?".to_string(),
            on_confirm: PendingAction::CopyPath { from: "/ws/a".to_string(), to: "/ws/b".to_string(), overwrite: false },
        },
    );
    assert!(matches!(
        reduce_confirm_dialog_action(&mut state, ConfirmDialogEvent::Accept).follow_up,
        Some(ConfirmFollowUp::CopyPath { overwrite: false, .. })
    ));
    assert!(matches!(
        pending_follow_up(PendingAction::CloseTab { pane: 1, index: 2 }, false),
        Some(ConfirmFollowUp::CloseTabAt { pane: 1, index: 2 })
    ));
    assert!(pending_follow_up(PendingAction::DeletePath { path: "/ws/x".to_string(), is_dir: true }, false).is_none());
}

#[test]
fn confirming_a_tab_menu_entry_carries_out_its_action() {
    let mut state = numbered_app(&[false, true]);
    let open = ContextMenuEvent::Open { request: ContextMenuRequest::Tab { pane: 0, index: 1 }, x: 0, y: 0 };
    match dispatch(&mut state, AppAction::ContextMenu { event: open, explorer: FLAGS }) {
        DispatchOutcome::ContextMenu { menu, then } => {
            assert!(menu.state_changed);
            assert!(then.is_none());
        },
        other => panic!("unexpected outcome {other:?}"),
    }
    assert_eq!(state.ui.context_menu.selected, 0);
    match dispatch(&mut state, AppAction::ContextMenu { event: ContextMenuEvent::Confirm, explorer: FLAGS }) {
        DispatchOutcome::ContextMenu { menu, then: Some(MenuFollowOutcome::Tab(t)) } => {
            assert!(menu.state_changed);
            assert!(t.state_changed);
            assert!(t.follow_up.is_none());
        },
        other => panic!("unexpected outcome {other:?}"),
    }
    assert!(!state.ui.context_menu.visible);
    assert!(state.ui.confirm_dialog.visible);
    assert_eq!(state.ui.confirm_dialog.message, "Unsaved changes. Close anyway?");
    match dispatch(&mut state, AppAction::ConfirmDialog(ConfirmDialogEvent::Accept)) {
        DispatchOutcome::ConfirmDialog(r) => match r.follow_up {
            Some(ConfirmFollowUp::CloseTabsById { pane, tab_ids }) => assert_eq!((pane, tab_ids), (0, vec![11])),
            other => panic!("unexpected follow-up {other:?}"),
        },
        other => panic!("unexpected outcome {other:?}"),
    }
}
