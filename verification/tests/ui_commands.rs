use zcode_store::editor::EditorState;
use zcode_store::kernel::{
    EditorLayoutState, SplitDirection,
    AppState, BottomPanelState, BottomPanelTab, Command, CommandPaletteState, FocusTarget, OverlayState, SidebarTab,
    UiState,
};
use zcode_store::store::context_menu::{ConfirmDialogState, ContextMenuState};
use zcode_store::store::confirm_dialog::ConfirmDialogEvent;
use zcode_store::store::dispatch::{dispatch, AppAction, DispatchOutcome};
use zcode_store::store::input_dialog::{InputDialogAction, InputDialogState};
use zcode_store::store::ui_commands::{
    dispatch_app_command, dispatch_ui_command, reduce_palette_action, AppEffect, PaletteAction, UiCommandOutcome,
};

fn state() -> AppState {
    AppState {
        ui: UiState {
            focus: FocusTarget::Editor,
            sidebar_tab: SidebarTab::Explorer,
            bottom_panel: BottomPanelState { visible: false, active_tab: BottomPanelTab::Problems },
            overlay: OverlayState { active: None },
            sidebar_visible: true,
            git_panel_expanded: false,
            should_quit: false,
            command_palette: CommandPaletteState::closed(),
            input_dialog: InputDialogState::hidden(),
            confirm_dialog: ConfirmDialogState::hidden(),
            editor_layout: EditorLayoutState { panes: 1, active_pane: 0, split_direction: SplitDirection::Vertical },
            context_menu: ContextMenuState::closed(),
        },
        editor: EditorState { panes: vec![] },
        workspace_root: "/ws".to_string(),
    }
}

fn changed(r: Option<UiCommandOutcome>) -> bool {
    r.expect("a UI command").state_changed
}

#[test]
fn palette_typing_edits_the_query() {
    let mut s = state();
    assert!(!reduce_palette_action(&mut s, PaletteAction::Append('x')));
    assert_eq!(s.ui.command_palette.query, "");
    assert!(changed(dispatch_ui_command(&mut s, &Command::CommandPalette)));
    assert!(s.ui.command_palette.visible);
    assert_eq!(s.ui.focus, FocusTarget::CommandPalette);
    assert!(reduce_palette_action(&mut s, PaletteAction::Append('a')));
    assert!(reduce_palette_action(&mut s, PaletteAction::Append('b')));
    assert_eq!(s.ui.command_palette.query, "ab");
    assert!(reduce_palette_action(&mut s, PaletteAction::MoveSelection(3)));
    assert_eq!(s.ui.command_palette.selected, 3);
    assert!(reduce_palette_action(&mut s, PaletteAction::MoveSelection(-5)));
    assert_eq!(s.ui.command_palette.selected, 0);
    assert!(!reduce_palette_action(&mut s, PaletteAction::MoveSelection(0)));
    assert!(reduce_palette_action(&mut s, PaletteAction::MoveSelection(isize::MAX)));
    assert!(reduce_palette_action(&mut s, PaletteAction::MoveSelection(isize::MAX)));
    assert!(reduce_palette_action(&mut s, PaletteAction::MoveSelection(isize::MAX)));
    assert_eq!(s.ui.command_palette.selected, usize::MAX);
    assert!(reduce_palette_action(&mut s, PaletteAction::Backspace));
    assert_eq!(s.ui.command_palette.query, "a");
    assert_eq!(s.ui.command_palette.selected, 0);
    assert!(reduce_palette_action(&mut s, PaletteAction::Backspace));
    assert!(!reduce_palette_action(&mut s, PaletteAction::Backspace));
    assert!(reduce_palette_action(&mut s, PaletteAction::Close));
    assert!(!s.ui.command_palette.visible);
    assert_eq!(s.ui.focus, FocusTarget::Editor);
    assert!(!reduce_palette_action(&mut s, PaletteAction::Close));
}

#[test]
fn palette_commands_move_and_close() {
    let mut s = state();
    assert!(!changed(dispatch_ui_command(&mut s, &Command::PaletteMoveDown)));
    assert!(!changed(dispatch_ui_command(&mut s, &Command::PaletteClose)));
    dispatch_ui_command(&mut s, &Command::CommandPalette);
    assert!(!changed(dispatch_ui_command(&mut s, &Command::PaletteMoveUp)));
    assert!(changed(dispatch_ui_command(&mut s, &Command::PaletteMoveDown)));
    assert_eq!(s.ui.command_palette.selected, 1);
    assert!(!changed(dispatch_ui_command(&mut s, &Command::PaletteBackspace)));
    reduce_palette_action(&mut s, PaletteAction::Append('q'));
    assert!(changed(dispatch_ui_command(&mut s, &Command::PaletteBackspace)));
    s.ui.focus = FocusTarget::Explorer;
    assert!(changed(dispatch_ui_command(&mut s, &Command::CommandPalette)));
    assert!(!s.ui.command_palette.visible);
    assert_eq!(s.ui.focus, FocusTarget::Explorer);
}

#[test]
fn sidebar_commands_show_and_focus_it() {
    let mut s = state();
    s.ui.focus = FocusTarget::Explorer;
    assert!(changed(dispatch_ui_command(&mut s, &Command::ToggleSidebar)));
    assert!(!s.ui.sidebar_visible);
    assert_eq!(s.ui.focus, FocusTarget::Editor);
    dispatch_ui_command(&mut s, &Command::FocusSearch);
    assert!(s.ui.sidebar_visible);
    assert_eq!((s.ui.sidebar_tab, s.ui.focus), (SidebarTab::Search, FocusTarget::Explorer));
    dispatch_ui_command(&mut s, &Command::ToggleSidebarTab);
    assert_eq!(s.ui.sidebar_tab, SidebarTab::Explorer);
    dispatch_ui_command(&mut s, &Command::FocusEditor);
    assert_eq!(s.ui.focus, FocusTarget::Editor);
    dispatch_ui_command(&mut s, &Command::FocusExplorer);
    assert_eq!((s.ui.sidebar_tab, s.ui.focus), (SidebarTab::Explorer, FocusTarget::Explorer));
    assert!(dispatch_ui_command(&mut s, &Command::Save).is_none());
}

#[test]
fn bottom_panel_commands_cycle_its_tabs() {
    let mut s = state();
    let r = dispatch_ui_command(&mut s, &Command::FocusBottomPanel).unwrap();
    assert_eq!(r, UiCommandOutcome { state_changed: true, terminal_wanted: false, ensure_panes: None, git_refresh_pane: None });
    assert!(s.ui.bottom_panel.visible);
    assert_eq!(s.ui.focus, FocusTarget::BottomPanel);
    let r = dispatch_ui_command(&mut s, &Command::PrevBottomPanelTab).unwrap();
    assert_eq!(r, UiCommandOutcome { state_changed: true, terminal_wanted: true, ensure_panes: None, git_refresh_pane: None });
    assert_eq!(s.ui.bottom_panel.active_tab, BottomPanelTab::Terminal);
    dispatch_ui_command(&mut s, &Command::NextBottomPanelTab);
    assert_eq!(s.ui.bottom_panel.active_tab, BottomPanelTab::Problems);
    dispatch_ui_command(&mut s, &Command::NextBottomPanelTab);
    assert_eq!(s.ui.bottom_panel.active_tab, BottomPanelTab::CodeActions);
    let r = dispatch_ui_command(&mut s, &Command::ToggleBottomPanel).unwrap();
    assert_eq!(r, UiCommandOutcome { state_changed: true, terminal_wanted: false, ensure_panes: None, git_refresh_pane: None });
    assert!(!s.ui.bottom_panel.visible);
    assert_eq!(s.ui.focus, FocusTarget::Editor);
    s.ui.bottom_panel.active_tab = BottomPanelTab::Terminal;
    let r = dispatch_ui_command(&mut s, &Command::ToggleBottomPanel).unwrap();
    assert_eq!(r, UiCommandOutcome { state_changed: true, terminal_wanted: true, ensure_panes: None, git_refresh_pane: None });
}

#[test]
fn split_commands_add_and_remove_a_pane() {
    let mut s = state();
    s.ui.focus = FocusTarget::Explorer;
    let r = dispatch_ui_command(&mut s, &Command::SplitEditorHorizontal).unwrap();
    assert_eq!(r, UiCommandOutcome { state_changed: true, terminal_wanted: false, ensure_panes: Some(2), git_refresh_pane: Some(0) });
    assert_eq!(s.ui.editor_layout, EditorLayoutState { panes: 2, active_pane: 0, split_direction: SplitDirection::Horizontal });
    assert_eq!(s.ui.focus, FocusTarget::Editor);
    let r = dispatch_ui_command(&mut s, &Command::SplitEditorHorizontal).unwrap();
    assert_eq!(r, UiCommandOutcome { state_changed: false, terminal_wanted: false, ensure_panes: None, git_refresh_pane: None });
    let r = dispatch_ui_command(&mut s, &Command::SplitEditorVertical).unwrap();
    assert_eq!(r, UiCommandOutcome { state_changed: true, terminal_wanted: false, ensure_panes: None, git_refresh_pane: Some(0) });
    assert_eq!(s.ui.editor_layout.split_direction, SplitDirection::Vertical);
    let r = dispatch_ui_command(&mut s, &Command::FocusNextEditorPane).unwrap();
    assert_eq!(r.git_refresh_pane, Some(1));
    assert_eq!(s.ui.editor_layout.active_pane, 1);
    dispatch_ui_command(&mut s, &Command::FocusNextEditorPane);
    assert_eq!(s.ui.editor_layout.active_pane, 0);
    dispatch_ui_command(&mut s, &Command::FocusPrevEditorPane);
    assert_eq!(s.ui.editor_layout.active_pane, 1);
    let r = dispatch_ui_command(&mut s, &Command::CloseEditorSplit).unwrap();
    assert_eq!(r, UiCommandOutcome { state_changed: true, terminal_wanted: false, ensure_panes: Some(1), git_refresh_pane: Some(0) });
    assert_eq!(s.ui.editor_layout, EditorLayoutState { panes: 1, active_pane: 0, split_direction: SplitDirection::Vertical });
    assert!(!dispatch_ui_command(&mut s, &Command::CloseEditorSplit).unwrap().state_changed);
    assert!(!dispatch_ui_command(&mut s, &Command::FocusNextEditorPane).unwrap().state_changed);
    s.ui.editor_layout.active_pane = 5;
    dispatch_ui_command(&mut s, &Command::SplitEditorVertical);
    assert_eq!(s.ui.editor_layout.active_pane, 1);
}

#[test]
fn application_commands_ask_the_caller() {
    let mut s = state();
    let out = dispatch_app_command(&mut s, &Command::Quit).unwrap();
    assert!(out.state_changed);
    assert!(matches!(out.effect, Some(AppEffect::LspShutdown)));
    assert!(s.ui.should_quit);
    let out = dispatch_app_command(&mut s, &Command::ReloadSettings).unwrap();
    assert!(!out.state_changed);
    assert!(matches!(out.effect, Some(AppEffect::ReloadSettings)));
    assert!(matches!(dispatch_app_command(&mut s, &Command::OpenSettings).unwrap().effect, Some(AppEffect::OpenSettings)));
    match dispatch_app_command(&mut s, &Command::HardReload).unwrap().effect {
        Some(AppEffect::Restart { path, hard }) => {
            assert_eq!(path, "/ws");
            assert!(hard);
        },
        other => panic!("unexpected effect {other:?}"),
    }
    s.ui.sidebar_visible = false;
    let out = dispatch_app_command(&mut s, &Command::GitTogglePanel).unwrap();
    assert!(out.state_changed);
    assert!(out.effect.is_none());
    assert!(s.ui.git_panel_expanded);
    assert!(s.ui.sidebar_visible);
    assert_eq!((s.ui.sidebar_tab, s.ui.focus), (SidebarTab::Explorer, FocusTarget::Explorer));
    dispatch_app_command(&mut s, &Command::GitTogglePanel);
    assert!(!s.ui.git_panel_expanded);
    assert!(dispatch_app_command(&mut s, &Command::FocusEditor).is_none());
}

#[test]
fn dispatch_routes_each_action_to_its_reducer() {
    let mut s = state();
    match dispatch(&mut s, AppAction::RunCommand(Command::CommandPalette)) {
        DispatchOutcome::Command { ui: Some(r), app: None } => assert!(r.state_changed),
        other => panic!("unexpected outcome {other:?}"),
    }
    match dispatch(&mut s, AppAction::Palette(PaletteAction::Append('z'))) {
        DispatchOutcome::Palette { state_changed } => assert!(state_changed),
        other => panic!("unexpected outcome {other:?}"),
    }
    assert_eq!(s.ui.command_palette.query, "z");
    match dispatch(&mut s, AppAction::RunCommand(Command::Quit)) {
        DispatchOutcome::Command { ui: None, app: Some(r) } => assert!(matches!(r.effect, Some(AppEffect::LspShutdown))),
        other => panic!("unexpected outcome {other:?}"),
    }
    match dispatch(&mut s, AppAction::RunCommand(Command::Save)) {
        DispatchOutcome::Command { ui: None, app: None } => {},
        other => panic!("unexpected outcome {other:?}"),
    }
    match dispatch(&mut s, AppAction::InputDialog(InputDialogAction::Append('a'))) {
        DispatchOutcome::InputDialog(r) => assert!(!r.state_changed),
        other => panic!("unexpected outcome {other:?}"),
    }
    match dispatch(&mut s, AppAction::ConfirmDialog(ConfirmDialogEvent::Cancel)) {
        DispatchOutcome::ConfirmDialog(r) => assert!(!r.state_changed),
        other => panic!("unexpected outcome {other:?}"),
    }
    assert!(matches!(dispatch(&mut s, AppAction::Tick { now_ms: 5 }), DispatchOutcome::Tick));
}
