//! Routing an application action to the reducer that handles it.

use vstd::prelude::*;

use crate::kernel::{AppState, Command};
use crate::store::confirm_dialog::{confirm_dialog_post, reduce_confirm_dialog_action, ConfirmDialogEvent, ConfirmOutcome};
use crate::store::context_menu::{
    context_menu_post, dispatch_tab_menu_action, reduce_context_menu_action, tab_menu_post, ContextMenuAction,
    ContextMenuEvent, ContextMenuOutcome, ContextMenuRequest, ExplorerMenuAction, ExplorerMenuFlags, TabMenuOutcome,
};
use crate::store::input_dialog::{
    dialog_wf, input_dialog_post, lemma_dialog_step_keeps_char_boundary, reduce_input_dialog_action, InputDialogAction, InputDialogEffect,
};
use crate::store::ui_commands::{
    app_command_post, dispatch_app_command, dispatch_ui_command, is_ui_command, palette_post, reduce_palette_action,
    ui_command_post, AppCommandOutcome, PaletteAction, UiCommandOutcome,
};
use crate::store::{char_boundary, tick, tick_post, DispatchResult};

verus! {

/// An action for the store: a command to run, a palette, context menu, input or
/// confirm dialog event, or the passing of time.
#[derive(Debug, Clone)]
pub enum AppAction {
    RunCommand(Command),
    Palette(PaletteAction),
    ContextMenu { event: ContextMenuEvent, explorer: ExplorerMenuFlags },
    InputDialog(InputDialogAction),
    ConfirmDialog(ConfirmDialogEvent),
    Tick { now_ms: u64 },
}

/// What dispatching an action produced, from the reducer that handled it. A command
/// is run as a UI command where it is one, else as an application command; a command
/// that is neither is left to the caller (both `None`).
#[derive(Debug, Clone)]
pub enum DispatchOutcome {
    Command { ui: Option<UiCommandOutcome>, app: Option<AppCommandOutcome> },
    Palette { state_changed: bool },
    ContextMenu { menu: ContextMenuOutcome, then: Option<MenuFollowOutcome> },
    InputDialog(DispatchResult<InputDialogEffect>),
    ConfirmDialog(ConfirmOutcome),
    Tick,
}

/// What the action of a confirmed context menu entry produced: a command run as a
/// UI or application command, a tab menu action, or an explorer menu action, which
/// is handed on to the caller.
#[derive(Debug, Clone)]
pub enum MenuFollowOutcome {
    Command { ui: Option<UiCommandOutcome>, app: Option<AppCommandOutcome> },
    Tab(TabMenuOutcome),
    Explorer(ExplorerMenuAction),
}

/// What running command `c` does, as a UI command where it is one, else as an
/// application command.
pub open spec fn command_post(
    o: AppState,
    c: Command,
    n: AppState,
    ui: Option<UiCommandOutcome>,
    app: Option<AppCommandOutcome>,
) -> bool {
    if is_ui_command(c) {
        ui_command_post(o, c, n, ui) && app is None
    } else {
        app_command_post(o, c, n, app) && ui is None
    }
}

/// What carrying out the action of a confirmed context menu entry does.
pub open spec fn menu_follow_post(
    o: AppState,
    f: Option<(ContextMenuAction, Option<ContextMenuRequest>)>,
    n: AppState,
    then: Option<MenuFollowOutcome>,
) -> bool {
    match f {
        None => n == o && then is None,
        Some((ContextMenuAction::RunCommand(c), _)) => match then {
            Some(MenuFollowOutcome::Command { ui, app }) => command_post(o, c, n, ui, app),
            _ => false,
        },
        Some((ContextMenuAction::Tab(a), request)) => match then {
            Some(MenuFollowOutcome::Tab(t)) => tab_menu_post(o, a, request, n, t),
            _ => false,
        },
        Some((ContextMenuAction::Explorer(e), _)) => n == o && then == Some(MenuFollowOutcome::Explorer(e)),
    }
}

/// The inputs on which a reducer would overflow: moving to the pane after
/// `usize::MAX`, a palette step of `isize::MIN`, or an input dialog whose cursor is
/// off a char boundary or whose text is near `isize::MAX` bytes. (A confirmed context
/// menu entry may run a command, so a context menu event asks the same of the active
/// pane as moving to the next pane.)
pub open spec fn dispatch_admissible(o: AppState, a: AppAction) -> bool {
    match a {
        AppAction::RunCommand(c) => c is FocusNextEditorPane ==> o.ui.editor_layout.active_pane < usize::MAX,
        AppAction::ContextMenu { .. } => o.ui.editor_layout.active_pane < usize::MAX,
        AppAction::Palette(p) => !(p matches PaletteAction::MoveSelection(d) && d == isize::MIN),
        AppAction::InputDialog(_) => dialog_wf(o.ui.input_dialog),
        _ => true,
    }
}

/// What dispatching `a` does: exactly what the reducer that handles it says; a
/// context menu event then carries out the action of a confirmed entry.
pub open spec fn dispatch_post(o: AppState, a: AppAction, n: AppState, out: DispatchOutcome) -> bool {
    match a {
        AppAction::RunCommand(c) => match out {
            DispatchOutcome::Command { ui, app } => command_post(o, c, n, ui, app),
            _ => false,
        },
        AppAction::Palette(p) => match out {
            DispatchOutcome::Palette { state_changed } => palette_post(o, p, n, state_changed),
            _ => false,
        },
        AppAction::ContextMenu { event, explorer } => match out {
            DispatchOutcome::ContextMenu { menu, then } => exists|mid: AppState|
                #![trigger context_menu_post(o, event, explorer, mid, menu)]
                context_menu_post(o, event, explorer, mid, menu) && menu_follow_post(mid, menu.follow_up, n, then),
            _ => false,
        },
        AppAction::InputDialog(d) => match out {
            DispatchOutcome::InputDialog(r) => input_dialog_post(o, d, n, r),
            _ => false,
        },
        AppAction::ConfirmDialog(e) => match out {
            DispatchOutcome::ConfirmDialog(r) => confirm_dialog_post(o, e, n, r),
            _ => false,
        },
        AppAction::Tick { now_ms } => {
            &&& out is Tick
            &&& tick_post(o.editor, now_ms, n.editor)
            &&& n.ui == o.ui
            &&& n.workspace_root == o.workspace_root
        },
    }
}

/// Runs `command` as a UI command where it is one, else as an application command.
fn run_command(state: &mut AppState, command: &Command) -> (r: (Option<UiCommandOutcome>, Option<AppCommandOutcome>))
    requires
        *command is FocusNextEditorPane ==> old(state).ui.editor_layout.active_pane < usize::MAX,
    ensures
        command_post(*old(state), *command, *final(state), r.0, r.1),
{
    let ui = dispatch_ui_command(state, command);
    if ui.is_some() {
        (ui, None)
    } else {
        let app = dispatch_app_command(state, command);
        (None, app)
    }
}

/// Hands `action` to the reducer that handles it.
pub fn dispatch(state: &mut AppState, action: AppAction) -> (out: DispatchOutcome)
    requires
        dispatch_admissible(*old(state), action),
    ensures
        dispatch_post(*old(state), action, *final(state), out),
{
    match action {
        AppAction::RunCommand(c) => {
            let (ui, app) = run_command(state, &c);
            DispatchOutcome::Command { ui, app }
        },
        AppAction::Palette(p) => {
            let state_changed = reduce_palette_action(state, p);
            DispatchOutcome::Palette { state_changed }
        },
        AppAction::ContextMenu { event, explorer } => {
            let menu = reduce_context_menu_action(state, event, explorer);
            let ghost mid = *state;
            let then = match &menu.follow_up {
                None => None,
                Some((ContextMenuAction::RunCommand(c), _)) => {
                    let (ui, app) = run_command(state, c);
                    Some(MenuFollowOutcome::Command { ui, app })
                },
                Some((ContextMenuAction::Tab(a), request)) => Some(
                    MenuFollowOutcome::Tab(dispatch_tab_menu_action(state, *a, *request)),
                ),
                Some((ContextMenuAction::Explorer(e), _)) => Some(MenuFollowOutcome::Explorer(*e)),
            };
            assert(context_menu_post(*old(state), event, explorer, mid, menu));
            DispatchOutcome::ContextMenu { menu, then }
        },
        AppAction::InputDialog(d) => DispatchOutcome::InputDialog(reduce_input_dialog_action(state, d)),
        AppAction::ConfirmDialog(e) => DispatchOutcome::ConfirmDialog(reduce_confirm_dialog_action(state, e)),
        AppAction::Tick { now_ms } => {
            tick(state, now_ms);
            DispatchOutcome::Tick
        },
    }
}

/// Whether the input dialog's cursor lies on a char boundary of its text.
pub open spec fn input_cursor_on_char(s: AppState) -> bool {
    char_boundary(s.ui.input_dialog.value@, s.ui.input_dialog.cursor as int)
}

/// Every dispatched action keeps the input dialog's cursor on a char boundary of its
/// text: only the input dialog's own events move it, and they move it by whole chars.
pub proof fn law_dispatch_keeps_the_input_cursor_on_a_char(o: AppState, a: AppAction, n: AppState, out: DispatchOutcome)
    requires
        input_cursor_on_char(o),
        dispatch_admissible(o, a),
        dispatch_post(o, a, n, out),
    ensures
        input_cursor_on_char(n),
{
    match a {
        AppAction::InputDialog(d) => {
            let r = out->InputDialog_0;
            lemma_dialog_step_keeps_char_boundary(o.ui.input_dialog, d, n.ui.input_dialog, r.state_changed, r.effects@);
        },
        AppAction::ContextMenu { event, explorer } => {
            let menu = out->ContextMenu_menu;
            let then = out->ContextMenu_then;
            let mid = choose|mid: AppState|
                #![trigger context_menu_post(o, event, explorer, mid, menu)]
                context_menu_post(o, event, explorer, mid, menu) && menu_follow_post(mid, menu.follow_up, n, then);
            assert(mid.ui.input_dialog == o.ui.input_dialog);
            assert(n.ui.input_dialog == mid.ui.input_dialog);
        },
        _ => {
            assert(n.ui.input_dialog == o.ui.input_dialog);
        },
    }
}

} // verus!
