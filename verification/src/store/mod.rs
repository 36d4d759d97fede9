//! The editor kernel's store: completion, LSP and semantic-highlight logic, and
//! the helpers its dispatch uses.

use vstd::prelude::*;

use crate::editor::{DiskState, EditorPane, EditorState, lemma_count_nl_take_le, lemma_line_start_before, lemma_line_to_char_bounds, EditorTabState, HighlightKind};
use crate::kernel::{overlay_changed, ActionKind, AppState, Command, FocusTarget, OverlayKind, UiState};
use crate::rope::{
    char_to_line, count_nl, line_to_char, rope_len_bytes, rope_line_to_char, rope_slice_string, rope_text,
};
use crate::text::{
    is_xid_continue, is_xid_start, lemma_utf8_len_take_mono, len_utf8, str_chars, string_from_chars, utf8_len,
    utf8_width, xid_continue_char, xid_start_char,
};

pub mod intel;
pub mod confirm_dialog;
pub mod dispatch;
pub mod context_menu;
pub mod input_dialog;
pub mod search;
pub mod ui_commands;
pub mod util;

verus! {

/// What dispatching an action produced: the effects to run, and whether the state
/// changed.
#[derive(Debug, Clone)]
pub struct DispatchResult<E> {
    pub effects: Vec<E>,
    pub state_changed: bool,
}

/// The performance label of an action kind.
pub open spec fn action_label(a: ActionKind) -> Seq<char> {
    match a {
        ActionKind::RunCommand => "kernel.action.run_command"@,
        ActionKind::Editor => "kernel.action.editor"@,
        ActionKind::Tick => "kernel.action.tick"@,
        ActionKind::LspCompletion => "kernel.action.lsp_completion"@,
        ActionKind::LspCompletionResolved => "kernel.action.lsp_completion_resolved"@,
        ActionKind::LspSemanticTokens => "kernel.action.lsp_semantic_tokens"@,
        ActionKind::LspSemanticTokensRange => "kernel.action.lsp_semantic_tokens_range"@,
        ActionKind::LspInlayHints => "kernel.action.lsp_inlay_hints"@,
        ActionKind::LspFoldingRanges => "kernel.action.lsp_folding_ranges"@,
        ActionKind::LspDiagnostics => "kernel.action.lsp_diagnostics"@,
        ActionKind::LspHoverClear => "kernel.action.lsp_hover_clear"@,
        ActionKind::LspHoverResponse => "kernel.action.lsp_hover_response"@,
        ActionKind::LspHoverImplementationPreview => "kernel.action.lsp_hover_implementation_preview"@,
        ActionKind::LspHoverDefinitionPreview => "kernel.action.lsp_hover_definition_preview"@,
        ActionKind::LspDefinition => "kernel.action.lsp_definition"@,
        ActionKind::LspReferences => "kernel.action.lsp_references"@,
        ActionKind::LspCodeActions => "kernel.action.lsp_code_actions"@,
        ActionKind::LspSymbols => "kernel.action.lsp_symbols"@,
        ActionKind::LspSignatureHelp => "kernel.action.lsp_signature_help"@,
        ActionKind::LspApplyWorkspaceEdit => "kernel.action.lsp_apply_workspace_edit"@,
        ActionKind::LspServerCapabilities => "kernel.action.lsp_server_capabilities"@,
        ActionKind::LspProgressEnd => "kernel.action.lsp_progress_end"@,
        ActionKind::SearchMessage => "kernel.action.search_message"@,
        ActionKind::SearchStarted => "kernel.action.search_started"@,
        ActionKind::DirLoaded => "kernel.action.dir_loaded"@,
        ActionKind::DirLoadError => "kernel.action.dir_load_error"@,
        _ => "kernel.action.other"@,
    }
}

/// The label under which an action's handling time is recorded.
pub fn perf_action_label(action: &ActionKind) -> (r: &'static str)
    ensures
        r@ == action_label(*action),
{
    match action {
        ActionKind::RunCommand => "kernel.action.run_command",
        ActionKind::Editor => "kernel.action.editor",
        ActionKind::Tick => "kernel.action.tick",
        ActionKind::LspCompletion => "kernel.action.lsp_completion",
        ActionKind::LspCompletionResolved => "kernel.action.lsp_completion_resolved",
        ActionKind::LspSemanticTokens => "kernel.action.lsp_semantic_tokens",
        ActionKind::LspSemanticTokensRange => "kernel.action.lsp_semantic_tokens_range",
        ActionKind::LspInlayHints => "kernel.action.lsp_inlay_hints",
        ActionKind::LspFoldingRanges => "kernel.action.lsp_folding_ranges",
        ActionKind::LspDiagnostics => "kernel.action.lsp_diagnostics",
        ActionKind::LspHoverClear => "kernel.action.lsp_hover_clear",
        ActionKind::LspHoverResponse => "kernel.action.lsp_hover_response",
        ActionKind::LspHoverImplementationPreview => "kernel.action.lsp_hover_implementation_preview",
        ActionKind::LspHoverDefinitionPreview => "kernel.action.lsp_hover_definition_preview",
        ActionKind::LspDefinition => "kernel.action.lsp_definition",
        ActionKind::LspReferences => "kernel.action.lsp_references",
        ActionKind::LspCodeActions => "kernel.action.lsp_code_actions",
        ActionKind::LspSymbols => "kernel.action.lsp_symbols",
        ActionKind::LspSignatureHelp => "kernel.action.lsp_signature_help",
        ActionKind::LspApplyWorkspaceEdit => "kernel.action.lsp_apply_workspace_edit",
        ActionKind::LspServerCapabilities => "kernel.action.lsp_server_capabilities",
        ActionKind::LspProgressEnd => "kernel.action.lsp_progress_end",
        ActionKind::SearchMessage => "kernel.action.search_message",
        ActionKind::SearchStarted => "kernel.action.search_started",
        ActionKind::DirLoaded => "kernel.action.dir_loaded",
        ActionKind::DirLoadError => "kernel.action.dir_load_error",
        _ => "kernel.action.other",
    }
}

/// The performance label of a command.
pub open spec fn command_label(c: Command) -> Seq<char> {
    match c {
        Command::InsertChar(_) => "kernel.command.insert_char"@,
        Command::DeleteBackward => "kernel.command.delete_backward"@,
        Command::DeleteForward => "kernel.command.delete_forward"@,
        Command::DeleteSelection => "kernel.command.delete_selection"@,
        Command::CursorLeft => "kernel.command.cursor_left"@,
        Command::CursorRight => "kernel.command.cursor_right"@,
        Command::CursorUp => "kernel.command.cursor_up"@,
        Command::CursorDown => "kernel.command.cursor_down"@,
        Command::LspCompletion => "kernel.command.lsp_completion"@,
        Command::LspSemanticTokens => "kernel.command.lsp_semantic_tokens"@,
        Command::LspInlayHints => "kernel.command.lsp_inlay_hints"@,
        Command::LspFoldingRange => "kernel.command.lsp_folding_range"@,
        Command::LspHover => "kernel.command.lsp_hover"@,
        Command::LspSignatureHelp => "kernel.command.lsp_signature_help"@,
        Command::EditorSearchBarBackspace => "kernel.command.editor_search_backspace"@,
        Command::Find => "kernel.command.find"@,
        Command::FindNext => "kernel.command.find_next"@,
        Command::FindPrev => "kernel.command.find_prev"@,
        Command::Save => "kernel.command.save"@,
        Command::OpenFile => "kernel.command.open_file"@,
        Command::CloseTab => "kernel.command.close_tab"@,
        Command::FocusEditor => "kernel.command.focus_editor"@,
        Command::FocusExplorer => "kernel.command.focus_explorer"@,
        Command::FocusSearch => "kernel.command.focus_search"@,
        Command::OpenDiagnostics => "kernel.command.open_diagnostics"@,
        Command::CloseOverlay => "kernel.command.close_overlay"@,
        Command::Escape => "kernel.command.escape"@,
        _ => "kernel.command.other"@,
    }
}

/// The label under which a command's handling time is recorded.
pub fn perf_command_label(command: &Command) -> (r: &'static str)
    ensures
        r@ == command_label(*command),
{
    match command {
        Command::InsertChar(_) => "kernel.command.insert_char",
        Command::DeleteBackward => "kernel.command.delete_backward",
        Command::DeleteForward => "kernel.command.delete_forward",
        Command::DeleteSelection => "kernel.command.delete_selection",
        Command::CursorLeft => "kernel.command.cursor_left",
        Command::CursorRight => "kernel.command.cursor_right",
        Command::CursorUp => "kernel.command.cursor_up",
        Command::CursorDown => "kernel.command.cursor_down",
        Command::LspCompletion => "kernel.command.lsp_completion",
        Command::LspSemanticTokens => "kernel.command.lsp_semantic_tokens",
        Command::LspInlayHints => "kernel.command.lsp_inlay_hints",
        Command::LspFoldingRange => "kernel.command.lsp_folding_range",
        Command::LspHover => "kernel.command.lsp_hover",
        Command::LspSignatureHelp => "kernel.command.lsp_signature_help",
        Command::EditorSearchBarBackspace => "kernel.command.editor_search_backspace",
        Command::Find => "kernel.command.find",
        Command::FindNext => "kernel.command.find_next",
        Command::FindPrev => "kernel.command.find_prev",
        Command::Save => "kernel.command.save",
        Command::OpenFile => "kernel.command.open_file",
        Command::CloseTab => "kernel.command.close_tab",
        Command::FocusEditor => "kernel.command.focus_editor",
        Command::FocusExplorer => "kernel.command.focus_explorer",
        Command::FocusSearch => "kernel.command.focus_search",
        Command::OpenDiagnostics => "kernel.command.open_diagnostics",
        Command::CloseOverlay => "kernel.command.close_overlay",
        Command::Escape => "kernel.command.escape",
        _ => "kernel.command.other",
    }
}

/// Chars that start an identifier for completion: `_` and `XID_Start`.
pub open spec fn ident_start(c: char) -> bool {
    c == '_' || xid_start_char(c)
}

/// Chars that continue an identifier for completion: `_` and `XID_Continue`.
pub open spec fn ident_continue(c: char) -> bool {
    c == '_' || xid_continue_char(c)
}

/// Whether `ch` can start an identifier.
pub fn is_completion_identifier_start(ch: char) -> (r: bool)
    ensures
        r == ident_start(ch),
{
    ch == '_' || is_xid_start(ch)
}

/// Whether `ch` can continue an identifier.
pub fn is_completion_identifier_continue(ch: char) -> (r: bool)
    ensures
        r == ident_continue(ch),
{
    ch == '_' || is_xid_continue(ch)
}

/// End of the run of identifier chars of `t` from `i`.
pub open spec fn ident_end(t: Seq<char>, i: int) -> int
    decreases t.len() - i,
{
    if i < 0 || i >= t.len() || !ident_continue(t[i]) {
        i
    } else {
        ident_end(t, i + 1)
    }
}

/// The identifier run from `i` stays within the text.
pub proof fn lemma_ident_end(t: Seq<char>, i: int)
    requires
        0 <= i <= t.len(),
    ensures
        i <= ident_end(t, i) <= t.len(),
    decreases t.len() - i,
{
    if i < t.len() && ident_continue(t[i]) {
        lemma_ident_end(t, i + 1);
    }
}

/// Whether byte offset `b` lies between chars of `t`.
pub open spec fn char_boundary(t: Seq<char>, b: int) -> bool {
    exists|k: int| 0 <= k <= t.len() && utf8_len(t.take(k)) == b
}

/// The char index at byte boundary `b`.
pub open spec fn char_at_byte(t: Seq<char>, b: int) -> int {
    choose|k: int| 0 <= k <= t.len() && utf8_len(t.take(k)) == b
}

/// Finds the char index at byte boundary `b`.
pub(crate) fn char_index_of_byte(t: &Vec<char>, b: usize) -> (k: usize)
    requires
        char_boundary(t@, b as int),
    ensures
        k <= t@.len(),
        utf8_len(t@.take(k as int)) == b,
        k == char_at_byte(t@, b as int),
{
    let ghost k0 = char_at_byte(t@, b as int);
    let _n = t.len();
    let mut k: usize = 0;
    let mut bytes: usize = 0;
    proof {
        assert(t@.take(0) =~= Seq::<char>::empty());
    }
    while bytes < b
        invariant
            0 <= k0 <= t@.len(),
            t@.len() <= usize::MAX,
            utf8_len(t@.take(k0)) == b,
            k <= k0,
            bytes == utf8_len(t@.take(k as int)),
            bytes <= b,
        decreases b - bytes,
    {
        proof {
            if k == k0 {
                assert(false);
            }
            lemma_utf8_len_take_mono(t@, k + 1, k0);
            assert(t@.take(k + 1).drop_last() =~= t@.take(k as int));
        }
        bytes = bytes + len_utf8(t[k]) as usize;
        k += 1;
    }
    proof {
        if k < k0 {
            lemma_utf8_len_take_mono(t@, k as int, k0);
        }
        if k > k0 {
            assert(false);
        }
    }
    k
}

/// The byte offset where char `char_offset` of `text` starts (the text's byte length
/// past its end).
pub fn byte_offset_for_char_offset(text: &str, char_offset: usize) -> (r: usize)
    requires
        utf8_len(text@) <= usize::MAX,
    ensures
        r == utf8_len(text@.take(if char_offset < text@.len() {
            char_offset as int
        } else {
            text@.len() as int
        })),
{
    let t = str_chars(text);
    let stop = if char_offset < t.len() {
        char_offset
    } else {
        t.len()
    };
    let mut k: usize = 0;
    let mut bytes: usize = 0;
    proof {
        assert(t@.take(0) =~= Seq::<char>::empty());
    }
    while k < stop
        invariant
            k <= stop <= t@.len(),
            t@ == text@,
            utf8_len(text@) <= usize::MAX,
            bytes == utf8_len(t@.take(k as int)),
        decreases stop - k,
    {
        proof {
            lemma_utf8_len_take_mono(t@, k + 1, t@.len() as int);
            assert(t@.take(t@.len() as int) =~= t@);
            assert(t@.take(k + 1).drop_last() =~= t@.take(k as int));
        }
        bytes = bytes + len_utf8(t[k]) as usize;
        k += 1;
    }
    bytes
}

/// The byte offset where the identifier run that starts at byte `start` ends.
pub fn advance_identifier_end(text: &str, start: usize) -> (r: usize)
    requires
        char_boundary(text@, start as int),
        utf8_len(text@) <= usize::MAX,
    ensures
        r == utf8_len(text@.take(ident_end(text@, char_at_byte(text@, start as int)))),
{
    let t = str_chars(text);
    let k = char_index_of_byte(&t, start);
    proof {
        lemma_ident_end(t@, k as int);
    }
    let mut e = k;
    let mut end = start;
    while e < t.len() && is_completion_identifier_continue(t[e])
        invariant
            k <= e <= t@.len(),
            t@ == text@,
            utf8_len(text@) <= usize::MAX,
            end == utf8_len(t@.take(e as int)),
            ident_end(t@, k as int) == ident_end(t@, e as int),
        decreases t@.len() - e,
    {
        proof {
            lemma_utf8_len_take_mono(t@, e + 1, t@.len() as int);
            assert(t@.take(t@.len() as int) =~= t@);
            assert(t@.take(e + 1).drop_last() =~= t@.take(e as int));
        }
        end = end + len_utf8(t[e]) as usize;
        e += 1;
    }
    end
}

/// Whether the identifier at byte range `start..end` of `line` stands alone: no
/// identifier char right before it or right after it.
pub open spec fn seed_boundary(t: Seq<char>, s: int, e: int) -> bool {
    &&& (s == 0 || !ident_continue(t[s - 1]))
    &&& (e >= t.len() || !ident_continue(t[e]))
}

/// Whether no identifier char touches the byte range `start..end` of `line`.
pub fn completion_seed_matches_boundary(line: &str, start: usize, end: usize) -> (r: bool)
    requires
        char_boundary(line@, start as int),
        char_boundary(line@, end as int),
    ensures
        r == seed_boundary(line@, char_at_byte(line@, start as int), char_at_byte(line@, end as int)),
{
    let t = str_chars(line);
    let s = char_index_of_byte(&t, start);
    let e = char_index_of_byte(&t, end);
    let prev_ok = s == 0 || !is_completion_identifier_continue(t[s - 1]);
    let next_ok = e >= t.len() || !is_completion_identifier_continue(t[e]);
    prev_ok && next_ok
}

/// The first char of `t` from `i` that starts an identifier, or `t.len()`.
pub open spec fn first_ident_start(t: Seq<char>, i: int) -> int
    decreases t.len() - i,
{
    if i < 0 || i >= t.len() {
        t.len() as int
    } else if ident_start(t[i]) {
        i
    } else {
        first_ident_start(t, i + 1)
    }
}

/// Length of the member separator at `e`: `::` and `->` are two chars, `.` is one.
pub open spec fn separator_len(t: Seq<char>, e: int) -> int {
    if e + 1 < t.len() && ((t[e] == ':' && t[e + 1] == ':') || (t[e] == '-' && t[e + 1] == '>')) {
        2
    } else if 0 <= e < t.len() && t[e] == '.' {
        1
    } else {
        0
    }
}

/// The last identifier of the chain of `::`, `->` and `.` separated identifiers that
/// continues from identifier `s..e`.
pub open spec fn seed_last(t: Seq<char>, s: int, e: int) -> (int, int)
    decreases t.len() - e,
{
    let sl = separator_len(t, e);
    if sl == 0 || e < 0 || e + sl >= t.len() || !ident_start(t[e + sl]) {
        (s, e)
    } else {
        proof {
            lemma_ident_end(t, e + sl);
        }
        seed_last(t, e + sl, ident_end(t, e + sl))
    }
}

/// The identifier a completion text seeds its highlighting with: the last one of the
/// first chain of member-separated identifiers; none without an identifier.
pub open spec fn seed_head(t: Seq<char>) -> Option<(int, int)> {
    let f = first_ident_start(t, 0);
    if f >= t.len() {
        None
    } else {
        Some(seed_last(t, f, ident_end(t, f)))
    }
}

proof fn lemma_first_ident_start(t: Seq<char>, i: int)
    requires
        0 <= i <= t.len(),
    ensures
        i <= first_ident_start(t, i) <= t.len(),
    decreases t.len() - i,
{
    if i < t.len() && !ident_start(t[i]) {
        lemma_first_ident_start(t, i + 1);
    }
}

proof fn lemma_seed_last(t: Seq<char>, s: int, e: int)
    requires
        0 <= s <= e <= t.len(),
    ensures
        0 <= seed_last(t, s, e).0 <= seed_last(t, s, e).1 <= t.len(),
    decreases t.len() - e,
{
    let sl = separator_len(t, e);
    if !(sl == 0 || e + sl >= t.len() || !ident_start(t[e + sl])) {
        lemma_ident_end(t, e + sl);
        lemma_seed_last(t, e + sl, ident_end(t, e + sl));
    }
}

fn ident_end_exec(t: &Vec<char>, i: usize) -> (e: usize)
    requires
        i <= t@.len(),
    ensures
        e == ident_end(t@, i as int),
        i <= e <= t@.len(),
{
    proof {
        lemma_ident_end(t@, i as int);
    }
    let mut e = i;
    while e < t.len() && is_completion_identifier_continue(t[e])
        invariant
            i <= e <= t@.len(),
            ident_end(t@, i as int) == ident_end(t@, e as int),
        decreases t@.len() - e,
    {
        e += 1;
    }
    e
}

/// The identifier a completion text seeds its highlighting with, as `seed_head` picks it.
pub fn completion_seed_head(text: &str) -> (r: Option<String>)
    ensures
        match seed_head(text@) {
            Some((s, e)) => r is Some && r.unwrap()@ == text@.subrange(s, e),
            None => r is None,
        },
{
    let t = str_chars(text);
    let mut f: usize = 0;
    while f < t.len() && !is_completion_identifier_start(t[f])
        invariant
            f <= t@.len(),
            first_ident_start(t@, 0) == first_ident_start(t@, f as int),
        decreases t@.len() - f,
    {
        f += 1;
    }
    if f >= t.len() {
        return None;
    }
    let mut start = f;
    let mut end = ident_end_exec(&t, f);
    let mut done = false;
    while !done
        invariant
            start <= end <= t@.len(),
            t@ == text@,
            seed_head(text@) == Some(seed_last(t@, start as int, end as int)),
            done ==> seed_last(t@, start as int, end as int) == (start as int, end as int),
        decreases t@.len() - end + if done {
            0int
        } else {
            1int
        },
    {
        let sep: usize = if t.len() > 1 && end < t.len() - 1 && ((t[end] == ':' && t[end + 1] == ':') || (t[end]
            == '-' && t[end + 1] == '>')) {
            2
        } else if end < t.len() && t[end] == '.' {
            1
        } else {
            0
        };
        if sep == 0 || end + sep >= t.len() {
            done = true;
        } else {
            let next_start = end + sep;
            if !is_completion_identifier_start(t[next_start]) {
                done = true;
            } else {
                start = next_start;
                end = ident_end_exec(&t, next_start);
            }
        }
    }
    let mut head: Vec<char> = Vec::new();
    let mut i = start;
    while i < end
        invariant
            start <= i <= end <= t@.len(),
            head@ == t@.subrange(start as int, i as int),
        decreases end - i,
    {
        head.push(t[i]);
        proof {
            assert(t@.subrange(start as int, i + 1) =~= t@.subrange(start as int, i as int).push(t@[i as int]));
        }
        i += 1;
    }
    Some(string_from_chars(head.as_slice()))
}

/// `l` without one trailing `'\n'`, then without one trailing `'\r'`.
pub open spec fn strip_line_break(l: Seq<char>) -> Seq<char> {
    let a = if l.len() > 0 && l.last() == '\n' {
        l.drop_last()
    } else {
        l
    };
    if a.len() > 0 && a.last() == '\r' {
        a.drop_last()
    } else {
        a
    }
}

/// `h` occurs in `l` at char `i` with no identifier char right before or after it.
pub open spec fn seed_match_at(l: Seq<char>, h: Seq<char>, i: int) -> bool {
    &&& 0 <= i
    &&& i + h.len() <= l.len()
    &&& l.subrange(i, i + h.len()) == h
    &&& seed_boundary(l, i, i + h.len())
}

/// The last standalone occurrence of `h` in `l` that starts at or before `i`.
pub open spec fn last_seed_match(l: Seq<char>, h: Seq<char>, i: int) -> Option<int>
    decreases i + 1,
{
    if i < 0 {
        None
    } else if seed_match_at(l, h, i) {
        Some(i)
    } else {
        last_seed_match(l, h, i - 1)
    }
}

/// Start of the occurrence of `h` that a seed picks in `l` with the cursor at `c`:
/// the last standalone one that ends by `c`, else the last standalone one in `l`.
pub open spec fn seed_start(l: Seq<char>, h: Seq<char>, c: int) -> Option<int> {
    match last_seed_match(l, h, c - h.len()) {
        Some(i) => Some(i),
        None => last_seed_match(l, h, l.len() - h.len()),
    }
}

/// Char range, in the line without its line break, of the identifier that an
/// inserted completion seeds its highlight on: the seed head's occurrence that
/// `seed_start` picks with the cursor clamped to the line; none for a multi-line
/// insertion or one without an identifier.
pub open spec fn seed_span(line: Seq<char>, cursor_char: int, inserted: Seq<char>) -> Option<(int, int)> {
    if inserted.contains('\n') {
        None
    } else {
        match seed_head(inserted) {
            None => None,
            Some((hs, he)) => {
                let h = inserted.subrange(hs, he);
                let l = strip_line_break(line);
                let c = if cursor_char < l.len() {
                    cursor_char
                } else {
                    l.len() as int
                };
                match seed_start(l, h, c) {
                    Some(i) => Some((i, i + h.len())),
                    None => None,
                }
            },
        }
    }
}

fn seed_match_exec(l: &Vec<char>, h: &Vec<char>, i: usize) -> (r: bool)
    ensures
        r == seed_match_at(l@, h@, i as int),
{
    if h.len() > l.len() || i > l.len() - h.len() {
        return false;
    }
    let mut k: usize = 0;
    while k < h.len()
        invariant
            k <= h@.len(),
            i + h@.len() <= l@.len(),
            l@.len() == l.len(),
            forall|j: int| 0 <= j < k ==> l@[i + j] == h@[j],
        decreases h@.len() - k,
    {
        if l[i + k] != h[k] {
            proof {
                assert(l@.subrange(i as int, i + h@.len())[k as int] != h@[k as int]);
            }
            return false;
        }
        k += 1;
    }
    proof {
        assert(l@.subrange(i as int, i + h@.len()) =~= h@);
    }
    let e = i + h.len();
    let prev_ok = i == 0 || !is_completion_identifier_continue(l[i - 1]);
    let next_ok = e >= l.len() || !is_completion_identifier_continue(l[e]);
    prev_ok && next_ok
}

fn last_seed_match_exec(l: &Vec<char>, h: &Vec<char>, from: usize) -> (r: Option<usize>)
    ensures
        match last_seed_match(l@, h@, from as int) {
            Some(i) => r == Some(i as usize) && i <= from,
            None => r is None,
        },
{
    let mut i: usize = from;
    loop
        invariant
            i <= from,
            last_seed_match(l@, h@, from as int) == last_seed_match(l@, h@, i as int),
        decreases i,
    {
        if seed_match_exec(l, h, i) {
            return Some(i);
        }
        if i == 0 {
            return None;
        }
        i -= 1;
    }
}

/// Byte range in `line` of the identifier that an inserted completion seeds its
/// highlight on, as `seed_span` picks it with the cursor at char column `cursor_char`.
pub fn completion_seed_span(line: &str, cursor_char: usize, inserted_text: &str) -> (r: Option<(usize, usize)>)
    requires
        utf8_len(line@) <= usize::MAX,
    ensures
        match seed_span(line@, cursor_char as int, inserted_text@) {
            Some((s, e)) => r matches Some((a, b)) && a == utf8_len(line@.take(s)) && b == utf8_len(line@.take(e)),
            None => r is None,
        },
{
    let ins = str_chars(inserted_text);
    let mut k: usize = 0;
    while k < ins.len()
        invariant
            k <= ins@.len(),
            ins@ == inserted_text@,
            forall|j: int| 0 <= j < k ==> ins@[j] != '\n',
        decreases ins@.len() - k,
    {
        if ins[k] == '\n' {
            proof {
                assert(inserted_text@.contains('\n'));
            }
            return None;
        }
        k += 1;
    }
    proof {
        assert(!inserted_text@.contains('\n'));
    }
    let head = match completion_seed_head(inserted_text) {
        Some(head) => head,
        None => {
            return None;
        },
    };
    let h = str_chars(head.as_str());
    let mut l = str_chars(line);
    let ghost full = l@;
    if l.len() > 0 && l[l.len() - 1] == '\n' {
        l.pop();
    }
    if l.len() > 0 && l[l.len() - 1] == '\r' {
        l.pop();
    }
    proof {
        assert(l@ == strip_line_break(line@));
        assert(l@ =~= full.take(l@.len() as int));
    }
    let c = if cursor_char < l.len() {
        cursor_char
    } else {
        l.len()
    };
    let found = seed_start_exec(&l, &h, c);
    proof {
        assert(seed_span(line@, cursor_char as int, inserted_text@) == match seed_start(l@, h@, c as int) {
            Some(i) => Some((i, i + h@.len())),
            None => None::<(int, int)>,
        });
    }
    match found {
        Some(s) => {
            proof {
                assert(l@.take(s as int) =~= line@.take(s as int));
                assert(l@.take(s + h@.len()) =~= line@.take(s + h@.len()));
            }
            let e = s + h.len();
            let sb = byte_offset_for_char_offset(line, s);
            let eb = byte_offset_for_char_offset(line, e);
            Some((sb, eb))
        },
        None => None,
    }
}

fn seed_start_exec(l: &Vec<char>, h: &Vec<char>, c: usize) -> (r: Option<usize>)
    requires
        c <= l@.len(),
    ensures
        match seed_start(l@, h@, c as int) {
            Some(i) => r == Some(i as usize) && seed_match_at(l@, h@, i),
            None => r is None,
        },
{
    proof {
        lemma_last_seed_match(l@, h@, c - h@.len());
        lemma_last_seed_match(l@, h@, l@.len() - h@.len());
    }
    let mut found: Option<usize> = None;
    if c >= h.len() {
        found = last_seed_match_exec(l, h, c - h.len());
    }
    if found.is_none() && l.len() >= h.len() {
        found = last_seed_match_exec(l, h, l.len() - h.len());
    }
    found
}

/// What `last_seed_match` finds is a standalone occurrence.
pub proof fn lemma_last_seed_match(l: Seq<char>, h: Seq<char>, i: int)
    ensures
        last_seed_match(l, h, i) matches Some(k) ==> seed_match_at(l, h, k) && k <= i,
    decreases i + 1,
{
    if i >= 0 && !seed_match_at(l, h, i) {
        lemma_last_seed_match(l, h, i - 1);
    }
}

/// UTF-8 length of a slice: the bytes between the two prefixes.
pub proof fn lemma_utf8_len_subrange(t: Seq<char>, a: int, b: int)
    requires
        0 <= a <= b <= t.len(),
    ensures
        utf8_len(t.subrange(a, b)) + utf8_len(t.take(a)) == utf8_len(t.take(b)),
        utf8_len(t.subrange(a, b)) <= utf8_len(t),
    decreases b - a,
{
    if a == b {
        assert(t.subrange(a, b) =~= Seq::<char>::empty());
    } else {
        lemma_utf8_len_subrange(t, a, b - 1);
        assert(t.subrange(a, b).drop_last() =~= t.subrange(a, b - 1));
        assert(t.take(b).drop_last() =~= t.take(b - 1));
    }
    lemma_utf8_len_take_mono(t, b, t.len() as int);
    assert(t.take(t.len() as int) =~= t);
}

/// Where an inserted completion seeds a semantic highlight: the cursor's line, the
/// byte range of the seeded identifier in it, the byte length of the line without
/// its line break, and the highlight kind.
#[derive(Debug, Clone, Copy, PartialEq, Eq, Structural)]
pub struct SemanticSeed {
    pub row: usize,
    pub start: usize,
    pub end: usize,
    pub line_len: usize,
    pub kind: HighlightKind,
}

/// The chars of line `row` of `t`, with its line break.
pub open spec fn line_chars(t: Seq<char>, row: nat) -> Seq<char> {
    t.subrange(line_to_char(t, row) as int, line_to_char(t, row + 1) as int)
}

/// The seed an inserted completion gives the tab's cursor line: on the identifier
/// that `seed_span` picks there with the cursor's column, with `kind`; none when it
/// picks nothing. The editor applies the seed to its highlight state.
pub fn seed_completion_semantic_highlight(tab: &EditorTabState, inserted_text: &str, kind: HighlightKind) -> (r:
    Option<SemanticSeed>)
    ensures
        ({
            let t = tab.buffer.text();
            let row = char_to_line(t, tab.buffer.cursor_at() as int);
            let line = line_chars(t, row);
            let col = tab.buffer.cursor_at() - line_to_char(t, row);
            match seed_span(line, col, inserted_text@) {
                Some((s, e)) => r matches Some(seed) && seed.row == row && seed.start == utf8_len(line.take(s))
                    && seed.end == utf8_len(line.take(e)) && seed.line_len == utf8_len(strip_line_break(line))
                    && seed.kind == kind,
                None => r is None,
            }
        }),
{
    let (row, col) = tab.buffer.cursor();
    let _cursor = tab.buffer.cursor_char_offset();
    let _lines = tab.buffer.len_lines();
    let rope = tab.buffer.rope();
    let ghost t = rope_text(*rope);
    let ghost c = tab.buffer.cursor_at() as int;
    proof {
        lemma_count_nl_take_le(t, c);
        lemma_line_start_before(t, c);
    }
    let line_start = rope_line_to_char(rope, row);
    let line_end = rope_line_to_char(rope, row + 1);
    proof {
        if row + 1 <= count_nl(t) {
            lemma_line_to_char_bounds(t, (row + 1) as nat);
            let le = line_end as int;
            if le <= c {
                lemma_count_nl_take_le(t.take(c), le);
                assert(t.take(c).take(le) =~= t.take(le));
            }
        }
    }
    let total = rope_len_bytes(rope);
    let line = rope_slice_string(rope, line_start, line_end);
    proof {
        lemma_utf8_len_subrange(t, line_start as int, line_end as int);
    }
    let span = completion_seed_span(line.as_str(), col, inserted_text);
    match span {
        None => None,
        Some((start, end)) => {
            let lc = str_chars(line.as_str());
            let mut stripped = lc.len();
            if stripped > 0 && lc[stripped - 1] == '\n' {
                stripped -= 1;
            }
            if stripped > 0 && lc[stripped - 1] == '\r' {
                stripped -= 1;
            }
            proof {
                assert(strip_line_break(line@) =~= line@.take(stripped as int));
            }
            let line_len = byte_offset_for_char_offset(line.as_str(), stripped);
            Some(SemanticSeed { row, start, end, line_len, kind })
        },
    }
}

/// Opens the centred overlay on `kind` and focuses it, as every LSP list, diagnostic
/// and search result is shown; whether anything changed.
pub fn open_overlay(ui: &mut UiState, kind: OverlayKind) -> (changed: bool)
    ensures
        final(ui).overlay == old(ui).overlay.opened(kind),
        final(ui).focus == FocusTarget::Overlay,
        final(ui).sidebar_tab == old(ui).sidebar_tab,
        final(ui).bottom_panel == old(ui).bottom_panel,
        changed == (overlay_changed(old(ui).overlay, kind) || old(ui).focus != FocusTarget::Overlay),
{
    let mut changed = ui.overlay.open(kind);
    if ui.focus != FocusTarget::Overlay {
        ui.focus = FocusTarget::Overlay;
        changed = true;
    }
    changed
}

/// Closes the centred overlay; the focus goes back to the editor exactly when it was
/// on the overlay. Whether anything changed.
pub fn close_overlay(ui: &mut UiState) -> (changed: bool)
    ensures
        final(ui).overlay.active is None,
        final(ui).focus == if old(ui).focus == FocusTarget::Overlay {
            FocusTarget::Editor
        } else {
            old(ui).focus
        },
        final(ui).sidebar_tab == old(ui).sidebar_tab,
        final(ui).bottom_panel == old(ui).bottom_panel,
        changed == (old(ui).overlay.active is Some || old(ui).focus == FocusTarget::Overlay),
{
    let mut changed = ui.overlay.close();
    if ui.focus == FocusTarget::Overlay {
        ui.focus = FocusTarget::Editor;
        changed = true;
    }
    changed
}


/// How long a reload from disk stays shown, in milliseconds.
pub const RELOAD_NOTICE_MS: u64 = 3000;

/// A tab's disk state at time `now_ms`: a reload from disk at least
/// `RELOAD_NOTICE_MS` old (or stamped later than `now_ms`, which counts as no time
/// passed) turns back to in step.
pub open spec fn ticked(d: DiskState, now_ms: u64) -> DiskState {
    match d {
        DiskState::ReloadedFromDisk { at_ms } => if now_ms >= at_ms && now_ms - at_ms >= RELOAD_NOTICE_MS {
            DiskState::InSync
        } else {
            d
        },
        DiskState::InSync => d,
    }
}

/// The editor after a tick: every tab as before, with its disk state ticked.
pub open spec fn tick_post(o: EditorState, now_ms: u64, n: EditorState) -> bool {
    &&& n.panes@.len() == o.panes@.len()
    &&& forall|p: int|
        0 <= p < o.panes@.len() ==> {
            &&& #[trigger] n.panes@[p].active == o.panes@[p].active
            &&& n.panes@[p].tabs@.len() == o.panes@[p].tabs@.len()
            &&& forall|k: int|
                0 <= k < o.panes@[p].tabs@.len() ==> #[trigger] n.panes@[p].tabs@[k] == (EditorTabState {
                    disk_state: ticked(o.panes@[p].tabs@[k].disk_state, now_ms),
                    ..o.panes@[p].tabs@[k]
                })
        }
}

/// The tabs of a pane with their disk states ticked.
fn tick_tabs(tabs: Vec<EditorTabState>, now_ms: u64) -> (r: Vec<EditorTabState>)
    ensures
        r@.len() == tabs@.len(),
        forall|k: int|
            0 <= k < tabs@.len() ==> #[trigger] r@[k] == (EditorTabState {
                disk_state: ticked(tabs@[k].disk_state, now_ms),
                ..tabs@[k]
            }),
{
    let ghost orig = tabs@;
    let mut rest = tabs;
    let mut out: Vec<EditorTabState> = Vec::new();
    while rest.len() > 0
        invariant
            out@.len() + rest@.len() == orig.len(),
            rest@ == orig.skip(out@.len() as int),
            forall|k: int|
                0 <= k < out@.len() ==> #[trigger] out@[k] == (EditorTabState {
                    disk_state: ticked(orig[k].disk_state, now_ms),
                    ..orig[k]
                }),
        decreases rest@.len(),
    {
        let mut tab = rest.remove(0);
        proof {
            assert(tab == orig[out@.len() as int]);
        }
        match tab.disk_state {
            DiskState::ReloadedFromDisk { at_ms } => {
                if now_ms >= at_ms && now_ms - at_ms >= RELOAD_NOTICE_MS {
                    tab.disk_state = DiskState::InSync;
                }
            },
            DiskState::InSync => {},
        }
        out.push(tab);
        proof {
            assert(rest@ =~= orig.skip(out@.len() as int));
        }
    }
    out
}

/// Advances time to `now_ms`: the reload notice of each tab reloaded from disk at
/// least `RELOAD_NOTICE_MS` ago ends.
pub fn tick(state: &mut AppState, now_ms: u64)
    ensures
        tick_post(old(state).editor, now_ms, final(state).editor),
        final(state).ui == old(state).ui,
        final(state).workspace_root == old(state).workspace_root,
{
    let ghost orig = state.editor.panes@;
    let mut rest: Vec<EditorPane> = Vec::new();
    std::mem::swap(&mut rest, &mut state.editor.panes);
    let mut out: Vec<EditorPane> = Vec::new();
    while rest.len() > 0
        invariant
            out@.len() + rest@.len() == orig.len(),
            rest@ == orig.skip(out@.len() as int),
            forall|q: int|
                0 <= q < out@.len() ==> {
                    &&& #[trigger] out@[q].active == orig[q].active
                    &&& out@[q].tabs@.len() == orig[q].tabs@.len()
                    &&& forall|k: int|
                        0 <= k < orig[q].tabs@.len() ==> #[trigger] out@[q].tabs@[k] == (EditorTabState {
                            disk_state: ticked(orig[q].tabs@[k].disk_state, now_ms),
                            ..orig[q].tabs@[k]
                        })
                },
        decreases rest@.len(),
    {
        let pane = rest.remove(0);
        proof {
            assert(pane == orig[out@.len() as int]);
        }
        let tabs = tick_tabs(pane.tabs, now_ms);
        out.push(EditorPane { tabs, active: pane.active });
        proof {
            assert(rest@ =~= orig.skip(out@.len() as int));
        }
    }
    state.editor.panes = out;
}

} // verus!
