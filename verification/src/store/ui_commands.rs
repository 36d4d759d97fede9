//! Commands that move the focus or show and hide the sidebar, the bottom panel and the
//! command palette, what typing into the palette does, and the application commands
//! (quitting, the settings, a restart, the git panel).

use vstd::prelude::*;

use crate::kernel::{
    palette_closed, AppState, BottomPanelState, BottomPanelTab, Command, EditorLayoutState,
    FocusTarget, SidebarTab, SplitDirection, UiState,
};
use crate::store::util::{bottom_panel_tab_order, bottom_panel_tabs, next_bottom_panel_tab, position_or_zero, prev_bottom_panel_tab};
use crate::text::{str_chars, string_from_chars, string_push};

verus! {

/// What the command palette is asked to do while it shows.
#[derive(Debug, Clone, Copy)]
pub enum PaletteAction {
    Append(char),
    Backspace,
    MoveSelection(isize),
    Close,
}

/// `a + b`, held at `usize::MAX`.
pub open spec fn saturating_add_spec(a: int, b: int) -> int {
    if a + b > usize::MAX {
        usize::MAX as int
    } else {
        a + b
    }
}

/// `a - b`, held at zero.
pub open spec fn saturating_sub_spec(a: int, b: int) -> int {
    if a < b {
        0
    } else {
        a - b
    }
}

/// The focus after the palette closes: the editor where the palette had it.
pub open spec fn focus_after_palette(f: FocusTarget) -> FocusTarget {
    if f == FocusTarget::CommandPalette {
        FocusTarget::Editor
    } else {
        f
    }
}

/// What a palette action does. A hidden palette ignores every action. Typing appends
/// to the query and selects the first match; backspace removes the last char and
/// selects the first match (nothing changes on an empty query); moving the selection
/// adds the step, held between zero and `usize::MAX` (a zero step changes nothing);
/// closing hides and clears the palette and hands the focus back to the editor where
/// the palette had it. Nothing else of the state changes.
pub open spec fn palette_post(o: AppState, a: PaletteAction, n: AppState, changed: bool) -> bool {
    let p = o.ui.command_palette;
    let q = n.ui.command_palette;
    &&& n.editor == o.editor
    &&& n.workspace_root == o.workspace_root
    &&& (UiState { command_palette: o.ui.command_palette, focus: o.ui.focus, ..n.ui }) == o.ui
    &&& if !p.visible {
        n.ui == o.ui && !changed
    } else {
        match a {
            PaletteAction::Append(c) => {
                &&& q.visible && q.query@ == p.query@.push(c) && q.selected == 0
                &&& n.ui.focus == o.ui.focus
                &&& changed
            },
            PaletteAction::Backspace => if p.query@.len() == 0 {
                n.ui == o.ui && !changed
            } else {
                &&& q.visible && q.query@ == p.query@.drop_last() && q.selected == 0
                &&& n.ui.focus == o.ui.focus
                &&& changed
            },
            PaletteAction::MoveSelection(d) => if d == 0 {
                n.ui == o.ui && !changed
            } else {
                &&& q.visible && q.query@ == p.query@
                &&& q.selected == if d > 0 {
                    saturating_add_spec(p.selected as int, d as int)
                } else {
                    saturating_sub_spec(p.selected as int, -d)
                }
                &&& n.ui.focus == o.ui.focus
                &&& changed
            },
            PaletteAction::Close => {
                &&& palette_closed(q)
                &&& n.ui.focus == focus_after_palette(o.ui.focus)
                &&& changed
            },
        }
    }
}

fn saturating_add_usize(a: usize, b: usize) -> (r: usize)
    ensures
        r == saturating_add_spec(a as int, b as int),
{
    if b > usize::MAX - a {
        usize::MAX
    } else {
        a + b
    }
}

fn saturating_sub_usize(a: usize, b: usize) -> (r: usize)
    ensures
        r == saturating_sub_spec(a as int, b as int),
{
    if a < b {
        0
    } else {
        a - b
    }
}

/// Applies a palette action; the result says whether the state changed.
pub fn reduce_palette_action(state: &mut AppState, action: PaletteAction) -> (changed: bool)
    requires
        !(action matches PaletteAction::MoveSelection(d) && d == isize::MIN),
    ensures
        palette_post(*old(state), action, *final(state), changed),
{
    if !state.ui.command_palette.visible {
        return false;
    }
    match action {
        PaletteAction::Append(c) => {
            string_push(&mut state.ui.command_palette.query, c);
            state.ui.command_palette.selected = 0;
            true
        },
        PaletteAction::Backspace => {
            let mut cs = str_chars(state.ui.command_palette.query.as_str());
            if cs.len() == 0 {
                return false;
            }
            cs.pop();
            state.ui.command_palette.query = string_from_chars(cs.as_slice());
            state.ui.command_palette.selected = 0;
            true
        },
        PaletteAction::MoveSelection(d) => {
            if d == 0 {
                return false;
            }
            let prev = state.ui.command_palette.selected;
            state.ui.command_palette.selected = if d > 0 {
                saturating_add_usize(prev, d as usize)
            } else {
                saturating_sub_usize(prev, (-d) as usize)
            };
            true
        },
        PaletteAction::Close => {
            state.ui.command_palette.reset();
            if state.ui.focus == FocusTarget::CommandPalette {
                state.ui.focus = FocusTarget::Editor;
            }
            true
        },
    }
}

/// Whether a UI command changed the state, and what it leaves to the caller: a
/// terminal session where the bottom panel now shows its terminal tab, the number of
/// editor panes to provide where the layout's count changed, and the pane whose
/// file's git status to refresh where the active pane moved or was split.
#[derive(Debug, Clone, Copy, PartialEq, Eq, Structural)]
pub struct UiCommandOutcome {
    pub state_changed: bool,
    pub terminal_wanted: bool,
    pub ensure_panes: Option<usize>,
    pub git_refresh_pane: Option<usize>,
}

/// An outcome that asks nothing of the caller but a terminal where `terminal`.
pub open spec fn outcome(changed: bool, terminal: bool) -> UiCommandOutcome {
    UiCommandOutcome { state_changed: changed, terminal_wanted: terminal, ensure_panes: None, git_refresh_pane: None }
}

/// Splitting the editor area in direction `d`: a single pane becomes two (the active
/// one kept where it exists), and the focus goes to the editor; the state changes,
/// and the active pane's git status is refreshed, only where the direction or the
/// focus changed or a pane was added.
pub open spec fn split_post(u: UiState, v: UiState, d: SplitDirection, r: Option<UiCommandOutcome>) -> bool {
    let l = u.editor_layout;
    if l.panes < 2 {
        let active: usize = if l.active_pane < 1 {
            l.active_pane
        } else {
            1
        };
        &&& v == UiState {
            editor_layout: EditorLayoutState { panes: 2, active_pane: active, split_direction: d },
            focus: FocusTarget::Editor,
            ..u
        }
        &&& r == Some(
            UiCommandOutcome {
                state_changed: true,
                terminal_wanted: false,
                ensure_panes: Some(2),
                git_refresh_pane: Some(active),
            },
        )
    } else {
        let changed = l.split_direction != d || u.focus != FocusTarget::Editor;
        &&& v == UiState {
            editor_layout: EditorLayoutState { split_direction: d, ..l },
            focus: FocusTarget::Editor,
            ..u
        }
        &&& r == Some(
            UiCommandOutcome {
                state_changed: changed,
                terminal_wanted: false,
                ensure_panes: None,
                git_refresh_pane: if changed {
                    Some(l.active_pane)
                } else {
                    None
                },
            },
        )
    }
}

/// Moving the active pane to `a` among more than one pane focuses the editor and
/// refreshes that pane's git status; with a single pane nothing changes.
pub open spec fn pane_focus_post(u: UiState, v: UiState, a: usize, r: Option<UiCommandOutcome>) -> bool {
    if pane_count(u.editor_layout) > 1 {
        &&& v == UiState {
            editor_layout: EditorLayoutState { active_pane: a, ..u.editor_layout },
            focus: FocusTarget::Editor,
            ..u
        }
        &&& r == Some(
            UiCommandOutcome { state_changed: true, terminal_wanted: false, ensure_panes: None, git_refresh_pane: Some(a) },
        )
    } else {
        v == u && r == Some(outcome(false, false))
    }
}

/// The number of panes the layout shows, at least one.
pub open spec fn pane_count(l: EditorLayoutState) -> int {
    if l.panes < 1 {
        1
    } else {
        l.panes as int
    }
}

/// The bottom panel tab after `t` in the panel's order, wrapping around.
pub open spec fn next_tab(t: BottomPanelTab) -> BottomPanelTab {
    bottom_panel_tab_order()[(position_or_zero(bottom_panel_tab_order(), t) + 1) % 7]
}

/// The bottom panel tab before `t` in the panel's order, wrapping around.
pub open spec fn prev_tab(t: BottomPanelTab) -> BottomPanelTab {
    let i = position_or_zero(bottom_panel_tab_order(), t);
    bottom_panel_tab_order()[if i == 0 {
        6
    } else {
        i - 1
    }]
}

/// Whether `c` is one of the commands that only move the focus or show and hide the
/// sidebar, the bottom panel or the command palette.
pub open spec fn is_ui_command(c: Command) -> bool {
    match c {
        Command::ToggleSidebar | Command::FocusExplorer | Command::FocusSearch | Command::ToggleSidebarTab
        | Command::FocusEditor | Command::ToggleBottomPanel | Command::FocusBottomPanel | Command::NextBottomPanelTab
        | Command::PrevBottomPanelTab | Command::CommandPalette | Command::PaletteClose | Command::PaletteBackspace
        | Command::PaletteMoveUp | Command::PaletteMoveDown | Command::SplitEditorVertical
        | Command::SplitEditorHorizontal | Command::CloseEditorSplit | Command::FocusNextEditorPane
        | Command::FocusPrevEditorPane => true,
        _ => false,
    }
}

/// A plain outcome: changed or not, no terminal wanted.
pub open spec fn plain(r: Option<UiCommandOutcome>, changed: bool) -> bool {
    r == Some(outcome(changed, false))
}

/// The bottom panel shown with `tab`, and the outcome of switching to it from `o`.
pub open spec fn panel_switched(o: UiState, n: UiState, tab: BottomPanelTab, r: Option<UiCommandOutcome>) -> bool {
    &&& n == UiState { bottom_panel: BottomPanelState { visible: true, active_tab: tab }, ..o }
    &&& r == Some(outcome(tab != o.bottom_panel.active_tab, tab == BottomPanelTab::Terminal))
}

/// What a UI command does to the UI (the editor and the workspace root never change):
///
/// - toggling the sidebar flips it, and moves the focus from a hidden explorer to the
///   editor; focusing the explorer or the search shows the sidebar on that tab;
///   toggling the sidebar tab shows the other tab and focuses the sidebar; focusing
///   the editor does just that;
/// - toggling the bottom panel flips it and moves the focus from a hidden panel to the
///   editor; focusing it shows it; switching to the next or previous tab shows the
///   panel on that tab and changes the state only where the tab changed; each wants a
///   terminal where the shown panel is on the terminal tab;
/// - the palette command flips the palette, clears it, and focuses it when it shows
///   (or gives the focus back to the editor when it hides); closing, backspace and
///   moving the selection act only on a showing palette, as `palette_post` says, and
///   moving changes the state only where the selection moved.
///
/// Any other command is not a UI command: nothing changes and the result is `None`.
pub open spec fn ui_command_post(o: AppState, c: Command, n: AppState, r: Option<UiCommandOutcome>) -> bool {
    let u = o.ui;
    let v = n.ui;
    &&& n.editor == o.editor
    &&& n.workspace_root == o.workspace_root
    &&& match c {
        Command::ToggleSidebar => {
            &&& v == UiState {
                sidebar_visible: !u.sidebar_visible,
                focus: if u.sidebar_visible && u.focus == FocusTarget::Explorer {
                    FocusTarget::Editor
                } else {
                    u.focus
                },
                ..u
            }
            &&& plain(r, true)
        },
        Command::FocusExplorer => v == UiState {
            focus: FocusTarget::Explorer,
            sidebar_visible: true,
            sidebar_tab: SidebarTab::Explorer,
            ..u
        } && plain(r, true),
        Command::FocusSearch => v == UiState {
            focus: FocusTarget::Explorer,
            sidebar_visible: true,
            sidebar_tab: SidebarTab::Search,
            ..u
        } && plain(r, true),
        Command::ToggleSidebarTab => v == UiState {
            focus: FocusTarget::Explorer,
            sidebar_visible: true,
            sidebar_tab: if u.sidebar_tab == SidebarTab::Explorer {
                SidebarTab::Search
            } else {
                SidebarTab::Explorer
            },
            ..u
        } && plain(r, true),
        Command::FocusEditor => v == UiState { focus: FocusTarget::Editor, ..u } && plain(r, true),
        Command::ToggleBottomPanel => {
            let shown = !u.bottom_panel.visible;
            &&& v == UiState {
                bottom_panel: BottomPanelState { visible: shown, ..u.bottom_panel },
                focus: if !shown && u.focus == FocusTarget::BottomPanel {
                    FocusTarget::Editor
                } else {
                    u.focus
                },
                ..u
            }
            &&& r == Some(outcome(true, shown && u.bottom_panel.active_tab == BottomPanelTab::Terminal))
        },
        Command::FocusBottomPanel => {
            &&& v == UiState {
                bottom_panel: BottomPanelState { visible: true, ..u.bottom_panel },
                focus: FocusTarget::BottomPanel,
                ..u
            }
            &&& r == Some(outcome(true, u.bottom_panel.active_tab == BottomPanelTab::Terminal))
        },
        Command::SplitEditorVertical => split_post(u, v, SplitDirection::Vertical, r),
        Command::SplitEditorHorizontal => split_post(u, v, SplitDirection::Horizontal, r),
        Command::CloseEditorSplit => if u.editor_layout.panes > 1 {
            &&& v == UiState {
                editor_layout: EditorLayoutState {
                    panes: 1,
                    active_pane: 0,
                    split_direction: SplitDirection::Vertical,
                },
                focus: FocusTarget::Editor,
                ..u
            }
            &&& r == Some(
                UiCommandOutcome {
                    state_changed: true,
                    terminal_wanted: false,
                    ensure_panes: Some(1),
                    git_refresh_pane: Some(0),
                },
            )
        } else {
            v == u && plain(r, false)
        },
        Command::FocusNextEditorPane => pane_focus_post(
            u,
            v,
            ((u.editor_layout.active_pane + 1) % pane_count(u.editor_layout)) as usize,
            r,
        ),
        Command::FocusPrevEditorPane => pane_focus_post(
            u,
            v,
            (if u.editor_layout.active_pane == 0 {
                pane_count(u.editor_layout) - 1
            } else {
                u.editor_layout.active_pane - 1
            }) as usize,
            r,
        ),
        Command::NextBottomPanelTab => panel_switched(u, v, next_tab(u.bottom_panel.active_tab), r),
        Command::PrevBottomPanelTab => panel_switched(u, v, prev_tab(u.bottom_panel.active_tab), r),
        Command::CommandPalette => {
            let shown = !u.command_palette.visible;
            &&& (UiState { command_palette: u.command_palette, focus: u.focus, ..v }) == u
            &&& v.command_palette.visible == shown
            &&& v.command_palette.query@.len() == 0
            &&& v.command_palette.selected == 0
            &&& v.focus == if shown {
                FocusTarget::CommandPalette
            } else {
                focus_after_palette(u.focus)
            }
            &&& plain(r, true)
        },
        Command::PaletteClose => exists|changed: bool|
            #![trigger palette_post(o, PaletteAction::Close, n, changed)]
            palette_post(o, PaletteAction::Close, n, changed) && plain(r, changed),
        Command::PaletteBackspace => exists|changed: bool|
            #![trigger palette_post(o, PaletteAction::Backspace, n, changed)]
            palette_post(o, PaletteAction::Backspace, n, changed) && plain(r, changed),
        Command::PaletteMoveUp => {
            &&& (UiState { command_palette: u.command_palette, ..v }) == u
            &&& v.command_palette.visible == u.command_palette.visible
            &&& v.command_palette.query == u.command_palette.query
            &&& v.command_palette.selected == if u.command_palette.visible {
                saturating_sub_spec(u.command_palette.selected as int, 1)
            } else {
                u.command_palette.selected as int
            }
            &&& plain(r, v.command_palette.selected != u.command_palette.selected)
        },
        Command::PaletteMoveDown => {
            &&& (UiState { command_palette: u.command_palette, ..v }) == u
            &&& v.command_palette.visible == u.command_palette.visible
            &&& v.command_palette.query == u.command_palette.query
            &&& v.command_palette.selected == if u.command_palette.visible {
                saturating_add_spec(u.command_palette.selected as int, 1)
            } else {
                u.command_palette.selected as int
            }
            &&& plain(r, v.command_palette.selected != u.command_palette.selected)
        },
        _ => v == u && r is None,
    }
}

/// The editor layout commands: splitting, closing the split, and moving between panes.
pub open spec fn is_layout_command(c: Command) -> bool {
    match c {
        Command::SplitEditorVertical | Command::SplitEditorHorizontal | Command::CloseEditorSplit
        | Command::FocusNextEditorPane | Command::FocusPrevEditorPane => true,
        _ => false,
    }
}

fn layout_command(state: &mut AppState, command: &Command) -> (r: UiCommandOutcome)
    requires
        is_layout_command(*command),
        *command is FocusNextEditorPane ==> old(state).ui.editor_layout.active_pane < usize::MAX,
    ensures
        ui_command_post(*old(state), *command, *final(state), Some(r)),
{
    let quiet = UiCommandOutcome { state_changed: false, terminal_wanted: false, ensure_panes: None, git_refresh_pane: None };
    match command {
        Command::SplitEditorVertical | Command::SplitEditorHorizontal => {
            let d = match command {
                Command::SplitEditorVertical => SplitDirection::Vertical,
                _ => SplitDirection::Horizontal,
            };
            let prev_dir = state.ui.editor_layout.split_direction;
            let prev_focus = state.ui.focus;
            state.ui.editor_layout.split_direction = d;
            state.ui.focus = FocusTarget::Editor;
            if state.ui.editor_layout.panes < 2 {
                state.ui.editor_layout.panes = 2;
                if state.ui.editor_layout.active_pane > 1 {
                    state.ui.editor_layout.active_pane = 1;
                }
                let active = state.ui.editor_layout.active_pane;
                return UiCommandOutcome {
                    state_changed: true,
                    terminal_wanted: false,
                    ensure_panes: Some(2),
                    git_refresh_pane: Some(active),
                };
            }
            let changed = prev_dir != d || prev_focus != FocusTarget::Editor;
            let refresh = if changed {
                Some(state.ui.editor_layout.active_pane)
            } else {
                None
            };
            UiCommandOutcome { state_changed: changed, terminal_wanted: false, ensure_panes: None, git_refresh_pane: refresh }
        },
        Command::CloseEditorSplit => {
            if state.ui.editor_layout.panes <= 1 {
                return quiet;
            }
            state.ui.editor_layout = EditorLayoutState { panes: 1, active_pane: 0, split_direction: SplitDirection::Vertical };
            state.ui.focus = FocusTarget::Editor;
            UiCommandOutcome { state_changed: true, terminal_wanted: false, ensure_panes: Some(1), git_refresh_pane: Some(0) }
        },
        _ => {
            let panes = if state.ui.editor_layout.panes < 1 {
                1
            } else {
                state.ui.editor_layout.panes
            };
            if panes <= 1 {
                return quiet;
            }
            let active = state.ui.editor_layout.active_pane;
            let next = match command {
                Command::FocusNextEditorPane => (active + 1) % panes,
                _ => if active == 0 {
                    panes - 1
                } else {
                    active - 1
                },
            };
            state.ui.editor_layout.active_pane = next;
            state.ui.focus = FocusTarget::Editor;
            UiCommandOutcome { state_changed: true, terminal_wanted: false, ensure_panes: None, git_refresh_pane: Some(next) }
        },
    }
}

/// Carries out a command that only moves the focus or shows and hides the sidebar, the
/// bottom panel or the command palette; any other command is left to the caller
/// (`None`).
pub fn dispatch_ui_command(state: &mut AppState, command: &Command) -> (r: Option<UiCommandOutcome>)
    requires
        *command is FocusNextEditorPane ==> old(state).ui.editor_layout.active_pane < usize::MAX,
    ensures
        ui_command_post(*old(state), *command, *final(state), r),
        r is Some <==> is_ui_command(*command),
{
    match command {
        Command::ToggleSidebar => {
            state.ui.sidebar_visible = !state.ui.sidebar_visible;
            if !state.ui.sidebar_visible && state.ui.focus == FocusTarget::Explorer {
                state.ui.focus = FocusTarget::Editor;
            }
            Some(UiCommandOutcome { state_changed: true, terminal_wanted: false, ensure_panes: None, git_refresh_pane: None })
        },
        Command::FocusExplorer => {
            state.ui.focus = FocusTarget::Explorer;
            state.ui.sidebar_visible = true;
            state.ui.sidebar_tab = SidebarTab::Explorer;
            Some(UiCommandOutcome { state_changed: true, terminal_wanted: false, ensure_panes: None, git_refresh_pane: None })
        },
        Command::FocusSearch => {
            state.ui.focus = FocusTarget::Explorer;
            state.ui.sidebar_visible = true;
            state.ui.sidebar_tab = SidebarTab::Search;
            Some(UiCommandOutcome { state_changed: true, terminal_wanted: false, ensure_panes: None, git_refresh_pane: None })
        },
        Command::ToggleSidebarTab => {
            state.ui.focus = FocusTarget::Explorer;
            state.ui.sidebar_visible = true;
            state.ui.sidebar_tab = match state.ui.sidebar_tab {
                SidebarTab::Explorer => SidebarTab::Search,
                SidebarTab::Search => SidebarTab::Explorer,
            };
            Some(UiCommandOutcome { state_changed: true, terminal_wanted: false, ensure_panes: None, git_refresh_pane: None })
        },
        Command::FocusEditor => {
            state.ui.focus = FocusTarget::Editor;
            Some(UiCommandOutcome { state_changed: true, terminal_wanted: false, ensure_panes: None, git_refresh_pane: None })
        },
        Command::ToggleBottomPanel => {
            let visible = !state.ui.bottom_panel.visible;
            state.ui.bottom_panel.visible = visible;
            if !visible && state.ui.focus == FocusTarget::BottomPanel {
                state.ui.focus = FocusTarget::Editor;
            }
            Some(
                UiCommandOutcome {
                    state_changed: true,
                    terminal_wanted: visible && state.ui.bottom_panel.active_tab == BottomPanelTab::Terminal,
                    ensure_panes: None,
                    git_refresh_pane: None,
                },
            )
        },
        Command::FocusBottomPanel => {
            state.ui.bottom_panel.visible = true;
            state.ui.focus = FocusTarget::BottomPanel;
            Some(
                UiCommandOutcome {
                    state_changed: true,
                    terminal_wanted: state.ui.bottom_panel.active_tab == BottomPanelTab::Terminal,
                    ensure_panes: None,
                    git_refresh_pane: None,
                },
            )
        },
        Command::SplitEditorVertical | Command::SplitEditorHorizontal | Command::CloseEditorSplit
        | Command::FocusNextEditorPane | Command::FocusPrevEditorPane => Some(layout_command(state, command)),
        Command::NextBottomPanelTab | Command::PrevBottomPanelTab => {
            state.ui.bottom_panel.visible = true;
            let tabs = bottom_panel_tabs();
            let current = state.ui.bottom_panel.active_tab;
            let target = match command {
                Command::NextBottomPanelTab => next_bottom_panel_tab(tabs.as_slice(), &current),
                _ => prev_bottom_panel_tab(tabs.as_slice(), &current),
            };
            let mut changed = false;
            if let Some(t) = target {
                if current != t {
                    state.ui.bottom_panel.active_tab = t;
                    changed = true;
                }
            }
            Some(
                UiCommandOutcome {
                    state_changed: changed,
                    terminal_wanted: state.ui.bottom_panel.active_tab == BottomPanelTab::Terminal,
                    ensure_panes: None,
                    git_refresh_pane: None,
                },
            )
        },
        Command::CommandPalette => {
            let visible = !state.ui.command_palette.visible;
            state.ui.command_palette.reset();
            state.ui.command_palette.visible = visible;
            if visible {
                state.ui.focus = FocusTarget::CommandPalette;
            } else if state.ui.focus == FocusTarget::CommandPalette {
                state.ui.focus = FocusTarget::Editor;
            }
            Some(UiCommandOutcome { state_changed: true, terminal_wanted: false, ensure_panes: None, git_refresh_pane: None })
        },
        Command::PaletteClose => {
            let changed = reduce_palette_action(state, PaletteAction::Close);
            Some(UiCommandOutcome { state_changed: changed, terminal_wanted: false, ensure_panes: None, git_refresh_pane: None })
        },
        Command::PaletteBackspace => {
            let changed = reduce_palette_action(state, PaletteAction::Backspace);
            Some(UiCommandOutcome { state_changed: changed, terminal_wanted: false, ensure_panes: None, git_refresh_pane: None })
        },
        Command::PaletteMoveUp | Command::PaletteMoveDown => {
            let mut changed = false;
            if state.ui.command_palette.visible {
                let prev = state.ui.command_palette.selected;
                state.ui.command_palette.selected = match command {
                    Command::PaletteMoveUp => saturating_sub_usize(prev, 1),
                    _ => saturating_add_usize(prev, 1),
                };
                changed = state.ui.command_palette.selected != prev;
            }
            Some(UiCommandOutcome { state_changed: changed, terminal_wanted: false, ensure_panes: None, git_refresh_pane: None })
        },
        _ => None,
    }
}

/// What an application command asks the caller to do: shut the language servers
/// down, reload or open the settings, or restart on the workspace.
#[derive(Debug, Clone)]
pub enum AppEffect {
    LspShutdown,
    ReloadSettings,
    OpenSettings,
    Restart { path: String, hard: bool },
}

/// Whether an application command changed the state, and what it asks of the caller.
#[derive(Debug, Clone)]
pub struct AppCommandOutcome {
    pub state_changed: bool,
    pub effect: Option<AppEffect>,
}

/// What an application command does: quitting marks the UI to quit and shuts the
/// language servers down; reloading or opening the settings and a hard reload only
/// ask the caller (a hard restart on the workspace root); toggling the git panel
/// flips it and shows and focuses the explorer. Any other command is left to the
/// caller (`None`) with nothing changed.
pub open spec fn app_command_post(o: AppState, c: Command, n: AppState, r: Option<AppCommandOutcome>) -> bool {
    let u = o.ui;
    &&& n.editor == o.editor
    &&& n.workspace_root == o.workspace_root
    &&& match c {
        Command::Quit => {
            &&& n.ui == UiState { should_quit: true, ..u }
            &&& r matches Some(out) && out.state_changed && out.effect == Some(AppEffect::LspShutdown)
        },
        Command::ReloadSettings => {
            &&& n.ui == u
            &&& r matches Some(out) && !out.state_changed && out.effect == Some(AppEffect::ReloadSettings)
        },
        Command::OpenSettings => {
            &&& n.ui == u
            &&& r matches Some(out) && !out.state_changed && out.effect == Some(AppEffect::OpenSettings)
        },
        Command::HardReload => {
            &&& n.ui == u
            &&& r matches Some(out) && !out.state_changed
            &&& r->0.effect matches Some(AppEffect::Restart { path, hard }) && path@ == o.workspace_root@ && hard
        },
        Command::GitTogglePanel => {
            &&& n.ui == UiState {
                git_panel_expanded: !u.git_panel_expanded,
                sidebar_visible: true,
                sidebar_tab: SidebarTab::Explorer,
                focus: FocusTarget::Explorer,
                ..u
            }
            &&& r matches Some(out) && out.state_changed && out.effect is None
        },
        _ => n.ui == u && r is None,
    }
}

/// Carries out an application command: quitting, the settings, a hard reload, or the
/// git panel; any other command is left to the caller (`None`).
pub fn dispatch_app_command(state: &mut AppState, command: &Command) -> (r: Option<AppCommandOutcome>)
    ensures
        app_command_post(*old(state), *command, *final(state), r),
{
    match command {
        Command::Quit => {
            state.ui.should_quit = true;
            Some(AppCommandOutcome { state_changed: true, effect: Some(AppEffect::LspShutdown) })
        },
        Command::ReloadSettings => Some(AppCommandOutcome { state_changed: false, effect: Some(AppEffect::ReloadSettings) }),
        Command::OpenSettings => Some(AppCommandOutcome { state_changed: false, effect: Some(AppEffect::OpenSettings) }),
        Command::HardReload => {
            let path = state.workspace_root.clone();
            Some(AppCommandOutcome { state_changed: false, effect: Some(AppEffect::Restart { path, hard: true }) })
        },
        Command::GitTogglePanel => {
            state.ui.git_panel_expanded = !state.ui.git_panel_expanded;
            state.ui.sidebar_visible = true;
            state.ui.sidebar_tab = SidebarTab::Explorer;
            state.ui.focus = FocusTarget::Explorer;
            Some(AppCommandOutcome { state_changed: true, effect: None })
        },
        _ => None,
    }
}

} // verus!
