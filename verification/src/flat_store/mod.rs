//! The store's flat generation of the completion, LSP and semantic modules,
//! which work on raw language-server completion items, and its performance labels.

use vstd::prelude::*;

use crate::kernel::{ActionKind, Command};

pub mod completion;
pub mod lsp;
pub mod semantic;
pub mod snippet;

pub use crate::store::DispatchResult;

verus! {

/// The performance label of an action kind.
pub open spec fn action_label(a: ActionKind) -> Seq<char> {
    match a {
        ActionKind::RunCommand => "kernel.action.run_command"@,
        ActionKind::Editor => "kernel.action.editor"@,
        ActionKind::Tick => "kernel.action.tick"@,
        ActionKind::LspCompletion => "kernel.action.lsp_completion"@,
        ActionKind::LspCompletionResolved => "kernel.action.lsp_completion_resolved"@,
        ActionKind::LspSemanticTokens => "kernel.action.lsp_semantic_tokens"@,
        ActionKind::LspSemanticTokensRange => "kernel.action.lsp_semantic_tokens_range"@,
        ActionKind::LspInlayHints => "kernel.action.lsp_inlay_hints"@,
        ActionKind::LspFoldingRanges => "kernel.action.lsp_folding_ranges"@,
        ActionKind::LspDiagnostics => "kernel.action.lsp_diagnostics"@,
        ActionKind::LspHover => "kernel.action.lsp_hover"@,
        ActionKind::LspDefinition => "kernel.action.lsp_definition"@,
        ActionKind::LspReferences => "kernel.action.lsp_references"@,
        ActionKind::LspCodeActions => "kernel.action.lsp_code_actions"@,
        ActionKind::LspSymbols => "kernel.action.lsp_symbols"@,
        ActionKind::LspSignatureHelp => "kernel.action.lsp_signature_help"@,
        ActionKind::LspApplyWorkspaceEdit => "kernel.action.lsp_apply_workspace_edit"@,
        ActionKind::LspServerCapabilities => "kernel.action.lsp_server_capabilities"@,
        ActionKind::LspProgressEnd => "kernel.action.lsp_progress_end"@,
        ActionKind::SearchMessage => "kernel.action.search_message"@,
        ActionKind::SearchStarted => "kernel.action.search_started"@,
        ActionKind::DirLoaded => "kernel.action.dir_loaded"@,
        ActionKind::DirLoadError => "kernel.action.dir_load_error"@,
        ActionKind::GitStatusUpdated => "kernel.action.git_status_updated"@,
        ActionKind::GitDiffUpdated => "kernel.action.git_diff_updated"@,
        ActionKind::TerminalOutput => "kernel.action.terminal_output"@,
        _ => "kernel.action.other"@,
    }
}

/// The label under which an action's handling time is recorded.
pub fn perf_action_label(action: &ActionKind) -> (r: &'static str)
    ensures
        r@ == action_label(*action),
{
    match action {
        ActionKind::RunCommand => "kernel.action.run_command",
        ActionKind::Editor => "kernel.action.editor",
        ActionKind::Tick => "kernel.action.tick",
        ActionKind::LspCompletion => "kernel.action.lsp_completion",
        ActionKind::LspCompletionResolved => "kernel.action.lsp_completion_resolved",
        ActionKind::LspSemanticTokens => "kernel.action.lsp_semantic_tokens",
        ActionKind::LspSemanticTokensRange => "kernel.action.lsp_semantic_tokens_range",
        ActionKind::LspInlayHints => "kernel.action.lsp_inlay_hints",
        ActionKind::LspFoldingRanges => "kernel.action.lsp_folding_ranges",
        ActionKind::LspDiagnostics => "kernel.action.lsp_diagnostics",
        ActionKind::LspHover => "kernel.action.lsp_hover",
        ActionKind::LspDefinition => "kernel.action.lsp_definition",
        ActionKind::LspReferences => "kernel.action.lsp_references",
        ActionKind::LspCodeActions => "kernel.action.lsp_code_actions",
        ActionKind::LspSymbols => "kernel.action.lsp_symbols",
        ActionKind::LspSignatureHelp => "kernel.action.lsp_signature_help",
        ActionKind::LspApplyWorkspaceEdit => "kernel.action.lsp_apply_workspace_edit",
        ActionKind::LspServerCapabilities => "kernel.action.lsp_server_capabilities",
        ActionKind::LspProgressEnd => "kernel.action.lsp_progress_end",
        ActionKind::SearchMessage => "kernel.action.search_message",
        ActionKind::SearchStarted => "kernel.action.search_started",
        ActionKind::DirLoaded => "kernel.action.dir_loaded",
        ActionKind::DirLoadError => "kernel.action.dir_load_error",
        ActionKind::GitStatusUpdated => "kernel.action.git_status_updated",
        ActionKind::GitDiffUpdated => "kernel.action.git_diff_updated",
        ActionKind::TerminalOutput => "kernel.action.terminal_output",
        _ => "kernel.action.other",
    }
}

/// The performance label of a command.
pub open spec fn command_label(c: Command) -> Seq<char> {
    match c {
        Command::InsertChar(_) => "kernel.command.insert_char"@,
        Command::DeleteBackward => "kernel.command.delete_backward"@,
        Command::DeleteForward => "kernel.command.delete_forward"@,
        Command::DeleteSelection => "kernel.command.delete_selection"@,
        Command::CursorLeft => "kernel.command.cursor_left"@,
        Command::CursorRight => "kernel.command.cursor_right"@,
        Command::CursorUp => "kernel.command.cursor_up"@,
        Command::CursorDown => "kernel.command.cursor_down"@,
        Command::LspCompletion => "kernel.command.lsp_completion"@,
        Command::LspSemanticTokens => "kernel.command.lsp_semantic_tokens"@,
        Command::LspInlayHints => "kernel.command.lsp_inlay_hints"@,
        Command::LspFoldingRange => "kernel.command.lsp_folding_range"@,
        Command::LspHover => "kernel.command.lsp_hover"@,
        Command::LspSignatureHelp => "kernel.command.lsp_signature_help"@,
        Command::EditorSearchBarBackspace => "kernel.command.editor_search_backspace"@,
        Command::GlobalSearchBackspace => "kernel.command.global_search_backspace"@,
        Command::Find => "kernel.command.find"@,
        Command::FindNext => "kernel.command.find_next"@,
        Command::FindPrev => "kernel.command.find_prev"@,
        Command::Save => "kernel.command.save"@,
        Command::OpenFile => "kernel.command.open_file"@,
        Command::CloseTab => "kernel.command.close_tab"@,
        Command::FocusEditor => "kernel.command.focus_editor"@,
        Command::FocusExplorer => "kernel.command.focus_explorer"@,
        Command::FocusSearch => "kernel.command.focus_search"@,
        Command::FocusBottomPanel => "kernel.command.focus_bottom_panel"@,
        Command::CommandPalette => "kernel.command.command_palette"@,
        Command::Escape => "kernel.command.escape"@,
        _ => "kernel.command.other"@,
    }
}

/// The label under which a command's handling time is recorded.
pub fn perf_command_label(command: &Command) -> (r: &'static str)
    ensures
        r@ == command_label(*command),
{
    match command {
        Command::InsertChar(_) => "kernel.command.insert_char",
        Command::DeleteBackward => "kernel.command.delete_backward",
        Command::DeleteForward => "kernel.command.delete_forward",
        Command::DeleteSelection => "kernel.command.delete_selection",
        Command::CursorLeft => "kernel.command.cursor_left",
        Command::CursorRight => "kernel.command.cursor_right",
        Command::CursorUp => "kernel.command.cursor_up",
        Command::CursorDown => "kernel.command.cursor_down",
        Command::LspCompletion => "kernel.command.lsp_completion",
        Command::LspSemanticTokens => "kernel.command.lsp_semantic_tokens",
        Command::LspInlayHints => "kernel.command.lsp_inlay_hints",
        Command::LspFoldingRange => "kernel.command.lsp_folding_range",
        Command::LspHover => "kernel.command.lsp_hover",
        Command::LspSignatureHelp => "kernel.command.lsp_signature_help",
        Command::EditorSearchBarBackspace => "kernel.command.editor_search_backspace",
        Command::GlobalSearchBackspace => "kernel.command.global_search_backspace",
        Command::Find => "kernel.command.find",
        Command::FindNext => "kernel.command.find_next",
        Command::FindPrev => "kernel.command.find_prev",
        Command::Save => "kernel.command.save",
        Command::OpenFile => "kernel.command.open_file",
        Command::CloseTab => "kernel.command.close_tab",
        Command::FocusEditor => "kernel.command.focus_editor",
        Command::FocusExplorer => "kernel.command.focus_explorer",
        Command::FocusSearch => "kernel.command.focus_search",
        Command::FocusBottomPanel => "kernel.command.focus_bottom_panel",
        Command::CommandPalette => "kernel.command.command_palette",
        Command::Escape => "kernel.command.escape",
        _ => "kernel.command.other",
    }
}

} // verus!
