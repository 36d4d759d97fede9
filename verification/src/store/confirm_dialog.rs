//! The confirm dialog: showing a question with what confirming carries out, and
//! accepting or cancelling it.

use vstd::prelude::*;

use crate::kernel::{AppState, UiState};
use crate::store::context_menu::{close_guard_post, closing_dirty, ConfirmDialogState, PendingAction, TabMenuOutcome};
use crate::store::input_dialog::{path_eq, path_starts_with};

verus! {

/// What the confirm dialog is asked to do.
#[derive(Debug, Clone)]
pub enum ConfirmDialogEvent {
    Show { message: String, on_confirm: PendingAction },
    Accept,
    Cancel,
}

/// What an accepted dialog hands on: an editor action that closes tabs, or a file
/// operation to carry out.
#[derive(Debug, Clone)]
pub enum ConfirmFollowUp {
    CloseTabAt { pane: usize, index: usize },
    CloseTabsById { pane: usize, tab_ids: Vec<u64> },
    DeletePath { path: String, is_dir: bool },
    RenamePath { from: String, to: String, overwrite: bool },
    CopyPath { from: String, to: String, overwrite: bool },
}

/// Whether the dialog's state changed, and what it hands on.
#[derive(Debug, Clone)]
pub struct ConfirmOutcome {
    pub state_changed: bool,
    pub follow_up: Option<ConfirmFollowUp>,
}

/// What confirming `pending` hands on. The tab actions are always handed on; a file
/// operation only where `inside_root` holds, that is where each of its paths lies
/// inside the workspace root and is not the root itself.
pub open spec fn pending_follow_up_spec(pending: PendingAction, inside_root: bool) -> Option<ConfirmFollowUp> {
    match pending {
        PendingAction::CloseTab { pane, index } => Some(ConfirmFollowUp::CloseTabAt { pane, index }),
        PendingAction::CloseTabsBatch { pane, tab_ids } => Some(ConfirmFollowUp::CloseTabsById { pane, tab_ids }),
        PendingAction::DeletePath { path, is_dir } => if inside_root {
            Some(ConfirmFollowUp::DeletePath { path, is_dir })
        } else {
            None
        },
        PendingAction::RenamePath { from, to, overwrite } => if inside_root {
            Some(ConfirmFollowUp::RenamePath { from, to, overwrite })
        } else {
            None
        },
        PendingAction::CopyPath { from, to, overwrite } => if inside_root {
            Some(ConfirmFollowUp::CopyPath { from, to, overwrite })
        } else {
            None
        },
    }
}

/// What confirming `pending` hands on, given whether its paths lie inside the
/// workspace root.
pub fn pending_follow_up(pending: PendingAction, inside_root: bool) -> (r: Option<ConfirmFollowUp>)
    ensures
        r == pending_follow_up_spec(pending, inside_root),
{
    match pending {
        PendingAction::CloseTab { pane, index } => Some(ConfirmFollowUp::CloseTabAt { pane, index }),
        PendingAction::CloseTabsBatch { pane, tab_ids } => Some(ConfirmFollowUp::CloseTabsById { pane, tab_ids }),
        PendingAction::DeletePath { path, is_dir } => if inside_root {
            Some(ConfirmFollowUp::DeletePath { path, is_dir })
        } else {
            None
        },
        PendingAction::RenamePath { from, to, overwrite } => if inside_root {
            Some(ConfirmFollowUp::RenamePath { from, to, overwrite })
        } else {
            None
        },
        PendingAction::CopyPath { from, to, overwrite } => if inside_root {
            Some(ConfirmFollowUp::CopyPath { from, to, overwrite })
        } else {
            None
        },
    }
}

/// Whether each path of `pending` lies inside `root` and is not `root` itself, as
/// `Path` compares them.
fn pending_inside_root(pending: &PendingAction, root: &str) -> bool {
    match pending {
        PendingAction::DeletePath { path, .. } => !path_eq(path.as_str(), root) && path_starts_with(path.as_str(), root),
        PendingAction::RenamePath { from, to, .. } | PendingAction::CopyPath { from, to, .. } => {
            !path_eq(from.as_str(), root) && !path_eq(to.as_str(), root) && path_starts_with(from.as_str(), root)
                && path_starts_with(to.as_str(), root)
        },
        _ => true,
    }
}

/// A hidden dialog with no message and nothing pending.
pub open spec fn dialog_hidden(d: ConfirmDialogState) -> bool {
    !d.visible && d.message@.len() == 0 && d.on_confirm is None
}

/// What an event does to the dialog. Showing sets the message and what confirming
/// does. Accepting or cancelling a hidden dialog does nothing; otherwise either hides
/// the dialog and clears it, and accepting hands on what was pending (a file
/// operation only where its paths lie inside the workspace root). Nothing else of
/// the state changes.
pub open spec fn confirm_dialog_post(o: AppState, event: ConfirmDialogEvent, n: AppState, out: ConfirmOutcome) -> bool {
    &&& n.editor == o.editor
    &&& n.workspace_root == o.workspace_root
    &&& (UiState { confirm_dialog: o.ui.confirm_dialog, ..n.ui }) == o.ui
    &&& match event {
        ConfirmDialogEvent::Show { message, on_confirm } => {
            &&& n.ui.confirm_dialog == ConfirmDialogState { visible: true, message, on_confirm: Some(on_confirm) }
            &&& out.state_changed
            &&& out.follow_up is None
        },
        ConfirmDialogEvent::Accept => if !o.ui.confirm_dialog.visible {
            n.ui == o.ui && !out.state_changed && out.follow_up is None
        } else {
            &&& dialog_hidden(n.ui.confirm_dialog)
            &&& out.state_changed
            &&& match o.ui.confirm_dialog.on_confirm {
                None => out.follow_up is None,
                Some(p) => out.follow_up == pending_follow_up_spec(p, true) || out.follow_up
                    == pending_follow_up_spec(p, false),
            }
        },
        ConfirmDialogEvent::Cancel => if !o.ui.confirm_dialog.visible {
            n.ui == o.ui && !out.state_changed && out.follow_up is None
        } else {
            dialog_hidden(n.ui.confirm_dialog) && out.state_changed && out.follow_up is None
        },
    }
}

/// Applies a confirm dialog event to the state.
pub fn reduce_confirm_dialog_action(state: &mut AppState, event: ConfirmDialogEvent) -> (out: ConfirmOutcome)
    ensures
        confirm_dialog_post(*old(state), event, *final(state), out),
{
    match event {
        ConfirmDialogEvent::Show { message, on_confirm } => {
            state.ui.confirm_dialog.visible = true;
            state.ui.confirm_dialog.message = message;
            state.ui.confirm_dialog.on_confirm = Some(on_confirm);
            ConfirmOutcome { state_changed: true, follow_up: None }
        },
        ConfirmDialogEvent::Accept => {
            if !state.ui.confirm_dialog.visible {
                return ConfirmOutcome { state_changed: false, follow_up: None };
            }
            let pending = state.ui.confirm_dialog.on_confirm.take();
            state.ui.confirm_dialog.visible = false;
            state.ui.confirm_dialog.message = String::new();
            let follow_up = match pending {
                Some(p) => {
                    let inside = pending_inside_root(&p, state.workspace_root.as_str());
                    pending_follow_up(p, inside)
                },
                None => None,
            };
            ConfirmOutcome { state_changed: true, follow_up }
        },
        ConfirmDialogEvent::Cancel => {
            if !state.ui.confirm_dialog.visible {
                return ConfirmOutcome { state_changed: false, follow_up: None };
            }
            state.ui.confirm_dialog.visible = false;
            state.ui.confirm_dialog.message = String::new();
            state.ui.confirm_dialog.on_confirm = None;
            ConfirmOutcome { state_changed: true, follow_up: None }
        },
    }
}

/// A close of tabs that the unsaved-changes guard held back closes, once the dialog is
/// accepted, exactly the tabs that were asked for, in the same pane; the editor is
/// untouched until then, and the rest of the UI is as it was before the close was
/// asked for.
pub proof fn law_confirmed_close_closes_the_asked_tabs(
    o: AppState,
    pane: usize,
    ids: Seq<u64>,
    asked: AppState,
    guarded: TabMenuOutcome,
    n: AppState,
    out: ConfirmOutcome,
)
    requires
        ids.len() > 0,
        closing_dirty(&o.editor, pane as int, ids),
        close_guard_post(o, pane, ids, asked, guarded),
        confirm_dialog_post(asked, ConfirmDialogEvent::Accept, n, out),
    ensures
        out.follow_up matches Some(ConfirmFollowUp::CloseTabsById { pane: p, tab_ids }) && p == pane && tab_ids@
            == ids,
        guarded.follow_up is None,
        n.editor == o.editor,
        dialog_hidden(n.ui.confirm_dialog),
        (UiState { confirm_dialog: o.ui.confirm_dialog, ..n.ui }) == o.ui,
{
}

/// A close of tabs that the unsaved-changes guard held back closes nothing once the
/// dialog is cancelled: nothing is handed on and the editor is untouched.
pub proof fn law_cancelled_close_closes_nothing(
    o: AppState,
    pane: usize,
    ids: Seq<u64>,
    asked: AppState,
    guarded: TabMenuOutcome,
    n: AppState,
    out: ConfirmOutcome,
)
    requires
        ids.len() > 0,
        closing_dirty(&o.editor, pane as int, ids),
        close_guard_post(o, pane, ids, asked, guarded),
        confirm_dialog_post(asked, ConfirmDialogEvent::Cancel, n, out),
    ensures
        out.follow_up is None,
        guarded.follow_up is None,
        n.editor == o.editor,
        dialog_hidden(n.ui.confirm_dialog),
        (UiState { confirm_dialog: o.ui.confirm_dialog, ..n.ui }) == o.ui,
{
}

} // verus!
