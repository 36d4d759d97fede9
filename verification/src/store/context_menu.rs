//! Context menu entries and moving the selection between the entries that can be
//! chosen.

use vstd::prelude::*;

use crate::editor::{EditorState, EditorTabState};
use crate::kernel::{AppState, Command, EditorLayoutState, FocusTarget, SidebarTab, UiState};
use crate::text::{str_chars, str_eq};

verus! {

/// What an explorer context menu entry does.
#[derive(Debug, Clone, Copy, PartialEq, Eq, Structural)]
pub enum ExplorerMenuAction {
    NewFile,
    NewFolder,
    Rename,
    Delete,
    Copy,
    Cut,
    Paste,
    CopyPath,
    CopyRelativePath,
}

/// What a tab context menu entry does.
#[derive(Debug, Clone, Copy, PartialEq, Eq, Structural)]
pub enum TabMenuAction {
    Close,
    CloseOthers,
    CloseToRight,
    CloseAll,
    SplitRight,
    SplitDown,
}

/// What a context menu entry does.
#[derive(Debug, Clone)]
pub enum ContextMenuAction {
    RunCommand(Command),
    Explorer(ExplorerMenuAction),
    Tab(TabMenuAction),
}

/// An entry of a context menu: its label, its action (none for a separator), and
/// whether it can be chosen.
#[derive(Debug, Clone)]
pub struct ContextMenuEntry {
    pub label: String,
    pub action: Option<ContextMenuAction>,
    pub enabled: bool,
}

impl ContextMenuEntry {
    /// An entry that can be chosen.
    pub fn action(label: &str, action: ContextMenuAction) -> (e: Self)
        ensures
            e.label@ == label@,
            e.action == Some(action),
            e.enabled,
    {
        let chars = str_chars(label);
        ContextMenuEntry { label: crate::text::string_from_chars(chars.as_slice()), action: Some(action), enabled: true }
    }

    /// An entry shown greyed out.
    pub fn disabled_action(label: &str, action: ContextMenuAction) -> (e: Self)
        ensures
            e.label@ == label@,
            e.action == Some(action),
            !e.enabled,
    {
        let chars = str_chars(label);
        ContextMenuEntry { label: crate::text::string_from_chars(chars.as_slice()), action: Some(action), enabled: false }
    }

    /// A separator line: no label, no action, never chosen.
    pub fn separator() -> (e: Self)
        ensures
            e.label@.len() == 0,
            e.action is None,
            !e.enabled,
    {
        ContextMenuEntry { label: String::new(), action: None, enabled: false }
    }

    /// Whether the entry can be chosen.
    pub fn is_selectable(&self) -> (r: bool)
        ensures
            r == self.enabled,
    {
        self.enabled
    }
}

/// An entry for `action`, greyed out unless `enabled`.
pub fn action_entry(label: &str, action: ContextMenuAction, enabled: bool) -> (e: ContextMenuEntry)
    ensures
        e.label@ == label@,
        e.action == Some(action),
        e.enabled == enabled,
{
    if enabled {
        ContextMenuEntry::action(label, action)
    } else {
        ContextMenuEntry::disabled_action(label, action)
    }
}

/// Which entries can be chosen.
pub open spec fn selectable(items: Seq<ContextMenuEntry>) -> Seq<bool> {
    items.map_values(|e: ContextMenuEntry| e.enabled)
}

/// The first entry that can be chosen, if any.
pub fn first_selectable_context_menu_index(items: &[ContextMenuEntry]) -> (r: Option<usize>)
    ensures
        match r {
            Some(i) => i < items@.len() && items@[i as int].enabled && forall|k: int|
                0 <= k < i ==> !items@[k].enabled,
            None => forall|k: int| 0 <= k < items@.len() ==> !items@[k].enabled,
        },
{
    let mut i: usize = 0;
    while i < items.len()
        invariant
            i <= items@.len(),
            forall|k: int| 0 <= k < i ==> !items@[k].enabled,
        decreases items@.len() - i,
    {
        if items[i].is_selectable() {
            return Some(i);
        }
        i += 1;
    }
    None
}

/// One step from `i` forward (or backward), wrapping around `n` positions.
pub open spec fn wrap_step(i: int, forward: bool, n: int) -> int {
    if forward {
        if i + 1 >= n {
            0
        } else {
            i + 1
        }
    } else {
        if i <= 0 {
            n - 1
        } else {
            i - 1
        }
    }
}

/// Steps from `i` until a selectable position, trying at most `fuel + 1` positions.
pub open spec fn seek(sel: Seq<bool>, i: int, forward: bool, fuel: nat) -> int
    decreases fuel,
{
    let j = wrap_step(i, forward, sel.len() as int);
    if sel[j] || fuel == 0 {
        j
    } else {
        seek(sel, j, forward, (fuel - 1) as nat)
    }
}

/// `n` moves from `i`, each to the next selectable position in the direction.
pub open spec fn moves(sel: Seq<bool>, i: int, forward: bool, n: nat) -> int
    decreases n,
{
    if n == 0 {
        i
    } else {
        moves(sel, seek(sel, i, forward, (sel.len() - 1) as nat), forward, (n - 1) as nat)
    }
}

/// How many single steps lead from `i` to `k`, between one and `n`.
pub open spec fn distance(i: int, k: int, forward: bool, n: int) -> int {
    if forward {
        if k > i {
            k - i
        } else {
            k - i + n
        }
    } else {
        if i > k {
            i - k
        } else {
            i - k + n
        }
    }
}

/// A seek finds the selectable position `k` if it lies no more than `fuel + 1` steps
/// ahead, or an earlier selectable one.
proof fn lemma_seek_finds(sel: Seq<bool>, i: int, forward: bool, fuel: nat, k: int)
    requires
        sel.len() > 0,
        0 <= i < sel.len(),
        0 <= k < sel.len(),
        sel[k],
        distance(i, k, forward, sel.len() as int) <= fuel + 1,
    ensures
        0 <= seek(sel, i, forward, fuel) < sel.len(),
        sel[seek(sel, i, forward, fuel)],
    decreases fuel,
{
    let n = sel.len() as int;
    let j = wrap_step(i, forward, n);
    if !sel[j] {
        if j == k {
            assert(false);
        }
        if fuel == 0 {
            assert(distance(i, k, forward, n) >= 2);
            assert(false);
        }
        assert(distance(j, k, forward, n) == distance(i, k, forward, n) - 1);
        lemma_seek_finds(sel, j, forward, (fuel - 1) as nat, k);
    }
}

/// Moves stay within the entries.
proof fn lemma_seek_in_range(sel: Seq<bool>, i: int, forward: bool, fuel: nat)
    requires
        sel.len() > 0,
        0 <= i < sel.len(),
    ensures
        0 <= seek(sel, i, forward, fuel) < sel.len(),
    decreases fuel,
{
    let j = wrap_step(i, forward, sel.len() as int);
    if !(sel[j] || fuel == 0) {
        lemma_seek_in_range(sel, j, forward, (fuel - 1) as nat);
    }
}

/// Moves the selection `delta` selectable entries forward (backward when negative),
/// wrapping around, from `current` clamped to the last entry; none when there are no
/// entries, no move, or nothing selectable.
pub fn move_context_menu_selection(items: &[ContextMenuEntry], current: usize, delta: isize) -> (r: Option<usize>)
    ensures
        items@.len() == 0 || delta == 0 || (forall|k: int| 0 <= k < items@.len() ==> !items@[k].enabled) ==> r is None,
        items@.len() > 0 && delta != 0 && (exists|k: int| 0 <= k < items@.len() && items@[k].enabled) ==> {
            let n = items@.len() as int;
            let start = if current < n {
                current as int
            } else {
                n - 1
            };
            let count = if delta > 0 {
                delta as int
            } else {
                -delta
            };
            r == Some(moves(selectable(items@), start, delta > 0, count as nat) as usize)
        },
{
    let len = items.len();
    if len == 0 || delta == 0 {
        return None;
    }
    let mut any = false;
    let mut k: usize = 0;
    while k < len
        invariant
            k <= len == items@.len(),
            any == (exists|m: int| 0 <= m < k && items@[m].enabled),
        decreases len - k,
    {
        if items[k].is_selectable() {
            any = true;
        }
        k += 1;
    }
    if !any {
        return None;
    }
    let ghost sel = selectable(items@);
    let ghost witness = choose|m: int| 0 <= m < items@.len() && items@[m].enabled;
    assert(sel[witness]);
    let mut next: usize = if current < len {
        current
    } else {
        len - 1
    };
    let forward = delta > 0;
    let count: usize = if delta > 0 {
        delta as usize
    } else if delta == isize::MIN {
        (isize::MAX as usize) + 1
    } else {
        (-delta) as usize
    };
    let ghost start = next as int;
    let mut done_moves: usize = 0;
    while done_moves < count
        invariant
            len == items@.len() > 0,
            sel == selectable(items@),
            0 <= witness < len,
            sel[witness],
            done_moves <= count,
            next < len,
            moves(sel, start, forward, count as nat) == moves(sel, next as int, forward, (count - done_moves) as nat),
        decreases count - done_moves,
    {
        let ghost target = seek(sel, next as int, forward, (len - 1) as nat);
        proof {
            lemma_seek_finds(sel, next as int, forward, (len - 1) as nat, witness);
        }
        let mut tries: usize = 0;
        let mut found = false;
        while !found
            invariant
                len == items@.len() > 0,
                sel == selectable(items@),
                next < len,
                tries < len,
                0 <= target < len,
                sel[target],
                !found ==> seek(sel, next as int, forward, (len - 1 - tries) as nat) == target,
                found ==> next == target,
            decreases len - tries + if found {
                0int
            } else {
                1int
            },
        {
            let ghost fuel = (len - 1 - tries) as nat;
            let ghost prev = next as int;
            next = if forward {
                if next + 1 >= len {
                    0
                } else {
                    next + 1
                }
            } else {
                if next == 0 {
                    len - 1
                } else {
                    next - 1
                }
            };
            assert(next == wrap_step(prev, forward, len as int));
            assert(sel[next as int] == items@[next as int].enabled);
            if items[next].is_selectable() {
                found = true;
            } else {
                if tries + 1 >= len {
                    assert(fuel == 0);
                    assert(false);
                }
                tries += 1;
            }
        }
        done_moves += 1;
    }
    Some(next)
}

/// A menu as label, action and enabled flag of each entry, in order; a separator is
/// an empty label with no action, disabled.
pub open spec fn menu_is(r: Seq<ContextMenuEntry>, m: Seq<(Seq<char>, Option<ContextMenuAction>, bool)>) -> bool {
    &&& r.len() == m.len()
    &&& forall|i: int|
        0 <= i < r.len() ==> #[trigger] r[i].label@ == m[i].0 && r[i].action == m[i].1 && r[i].enabled == m[i].2
}

/// A menu line: a label, an action and whether it can be chosen.
pub open spec fn line(label: &str, action: ContextMenuAction, enabled: bool) -> (
    Seq<char>,
    Option<ContextMenuAction>,
    bool,
) {
    (label@, Some(action), enabled)
}

/// A separator line.
pub open spec fn separator_line() -> (Seq<char>, Option<ContextMenuAction>, bool) {
    (Seq::empty(), None, false)
}

/// Number of tabs of pane `pane`, zero for a pane that does not exist.
pub open spec fn pane_tab_count(editor: &EditorState, pane: int) -> int {
    if 0 <= pane < editor.panes@.len() {
        editor.panes@[pane].tabs@.len() as int
    } else {
        0
    }
}

/// The tab context menu for tab `index` of a pane with `tab_count` tabs.
pub open spec fn tab_menu(tab_count: int, index: Option<usize>) -> Seq<(Seq<char>, Option<ContextMenuAction>, bool)> {
    let can_target = index matches Some(i) && i < tab_count;
    seq![
        line("Close", ContextMenuAction::Tab(TabMenuAction::Close), can_target),
        line("Close Others", ContextMenuAction::Tab(TabMenuAction::CloseOthers), can_target && tab_count > 1),
        line(
            "Close to the Right",
            ContextMenuAction::Tab(TabMenuAction::CloseToRight),
            can_target && index.unwrap() + 1 < tab_count,
        ),
        line("Close All", ContextMenuAction::Tab(TabMenuAction::CloseAll), tab_count > 0),
        separator_line(),
        line("Split Right", ContextMenuAction::Tab(TabMenuAction::SplitRight), can_target),
        line("Split Down", ContextMenuAction::Tab(TabMenuAction::SplitDown), can_target),
    ]
}

/// The context menu of a tab in `pane`: closing it, the others, those to its right or
/// all, and splitting it; entries that need a tab are disabled unless `index` names a
/// tab of the pane.
pub fn build_tab_context_menu_items(editor: &EditorState, pane: usize, index: Option<usize>) -> (r: Vec<
    ContextMenuEntry,
>)
    ensures
        menu_is(r@, tab_menu(pane_tab_count(editor, pane as int), index)),
{
    let tab_count = if pane < editor.panes.len() {
        editor.panes[pane].tabs.len()
    } else {
        0
    };
    let can_target_tab = match index {
        Some(idx) => idx < tab_count,
        None => false,
    };
    let close_right = can_target_tab && match index {
        Some(idx) => idx + 1 < tab_count,
        None => false,
    };
    let r = vec![
        action_entry("Close", ContextMenuAction::Tab(TabMenuAction::Close), can_target_tab),
        action_entry("Close Others", ContextMenuAction::Tab(TabMenuAction::CloseOthers), can_target_tab && tab_count > 1),
        action_entry("Close to the Right", ContextMenuAction::Tab(TabMenuAction::CloseToRight), close_right),
        action_entry("Close All", ContextMenuAction::Tab(TabMenuAction::CloseAll), tab_count > 0),
        ContextMenuEntry::separator(),
        action_entry("Split Right", ContextMenuAction::Tab(TabMenuAction::SplitRight), can_target_tab),
        action_entry("Split Down", ContextMenuAction::Tab(TabMenuAction::SplitDown), can_target_tab),
    ];
    proof {
        assert(r@[4].label@ =~= Seq::<char>::empty());
    }
    r
}

/// The editor-area context menu with every entry enabled or every one disabled.
pub open spec fn editor_area_menu(enabled: bool) -> Seq<(Seq<char>, Option<ContextMenuAction>, bool)> {
    seq![
        line("Cut", ContextMenuAction::RunCommand(Command::Cut), enabled),
        line("Copy", ContextMenuAction::RunCommand(Command::Copy), enabled),
        line("Paste", ContextMenuAction::RunCommand(Command::Paste), enabled),
        line("Select All", ContextMenuAction::RunCommand(Command::SelectAll), enabled),
        separator_line(),
        line("Go to Definition", ContextMenuAction::RunCommand(Command::LspDefinition), enabled),
        line("Find References", ContextMenuAction::RunCommand(Command::LspReferences), enabled),
        line("Rename Symbol", ContextMenuAction::RunCommand(Command::LspRename), enabled),
        separator_line(),
        line("Format Document", ContextMenuAction::RunCommand(Command::LspFormat), enabled),
        line("Code Action", ContextMenuAction::RunCommand(Command::LspCodeAction), enabled),
    ]
}

/// Whether pane `pane` exists and has an active tab.
pub open spec fn pane_has_active_tab(editor: &EditorState, pane: int) -> bool {
    0 <= pane < editor.panes@.len() && editor.panes@[pane].active < editor.panes@[pane].tabs@.len()
}

/// The context menu of the editor area of `pane`: clipboard, navigation, rename and
/// formatting commands, enabled when the pane has an active tab.
pub fn build_editor_area_context_menu_items(editor: &EditorState, pane: usize) -> (r: Vec<ContextMenuEntry>)
    ensures
        menu_is(r@, editor_area_menu(pane_has_active_tab(editor, pane as int))),
{
    let has_active_tab = pane < editor.panes.len() && editor.panes[pane].active_tab().is_some();
    let r = vec![
        action_entry("Cut", ContextMenuAction::RunCommand(Command::Cut), has_active_tab),
        action_entry("Copy", ContextMenuAction::RunCommand(Command::Copy), has_active_tab),
        action_entry("Paste", ContextMenuAction::RunCommand(Command::Paste), has_active_tab),
        action_entry("Select All", ContextMenuAction::RunCommand(Command::SelectAll), has_active_tab),
        ContextMenuEntry::separator(),
        action_entry("Go to Definition", ContextMenuAction::RunCommand(Command::LspDefinition), has_active_tab),
        action_entry("Find References", ContextMenuAction::RunCommand(Command::LspReferences), has_active_tab),
        action_entry("Rename Symbol", ContextMenuAction::RunCommand(Command::LspRename), has_active_tab),
        ContextMenuEntry::separator(),
        action_entry("Format Document", ContextMenuAction::RunCommand(Command::LspFormat), has_active_tab),
        action_entry("Code Action", ContextMenuAction::RunCommand(Command::LspCodeAction), has_active_tab),
    ];
    proof {
        assert(r@[4].label@ =~= Seq::<char>::empty());
        assert(r@[8].label@ =~= Seq::<char>::empty());
    }
    r
}

/// The explorer context menu: creating entries always, moving, copying, renaming and
/// deleting when the selection may be changed, pasting when a paste has a target, and
/// copying the selection's path when there is a selection.
pub open spec fn explorer_menu(can_mutate_selected: bool, can_paste: bool, can_copy_path: bool) -> Seq<
    (Seq<char>, Option<ContextMenuAction>, bool),
> {
    seq![
        line("New File", ContextMenuAction::Explorer(ExplorerMenuAction::NewFile), true),
        line("New Folder", ContextMenuAction::Explorer(ExplorerMenuAction::NewFolder), true),
        separator_line(),
        line("Cut", ContextMenuAction::Explorer(ExplorerMenuAction::Cut), can_mutate_selected),
        line("Copy", ContextMenuAction::Explorer(ExplorerMenuAction::Copy), can_mutate_selected),
        line("Paste", ContextMenuAction::Explorer(ExplorerMenuAction::Paste), can_paste),
        separator_line(),
        line("Rename", ContextMenuAction::Explorer(ExplorerMenuAction::Rename), can_mutate_selected),
        line("Delete", ContextMenuAction::Explorer(ExplorerMenuAction::Delete), can_mutate_selected),
        separator_line(),
        line("Copy Path", ContextMenuAction::Explorer(ExplorerMenuAction::CopyPath), can_copy_path),
        line("Copy Relative Path", ContextMenuAction::Explorer(ExplorerMenuAction::CopyRelativePath), can_copy_path),
    ]
}

/// The explorer context menu, given whether the selection is a workspace entry that
/// may be changed, whether the clipboard can be pasted, and whether anything is
/// selected.
pub fn build_explorer_context_menu_items(can_mutate_selected: bool, can_paste: bool, can_copy_path: bool) -> (r: Vec<
    ContextMenuEntry,
>)
    ensures
        menu_is(r@, explorer_menu(can_mutate_selected, can_paste, can_copy_path)),
{
    let r = vec![
        action_entry("New File", ContextMenuAction::Explorer(ExplorerMenuAction::NewFile), true),
        action_entry("New Folder", ContextMenuAction::Explorer(ExplorerMenuAction::NewFolder), true),
        ContextMenuEntry::separator(),
        action_entry("Cut", ContextMenuAction::Explorer(ExplorerMenuAction::Cut), can_mutate_selected),
        action_entry("Copy", ContextMenuAction::Explorer(ExplorerMenuAction::Copy), can_mutate_selected),
        action_entry("Paste", ContextMenuAction::Explorer(ExplorerMenuAction::Paste), can_paste),
        ContextMenuEntry::separator(),
        action_entry("Rename", ContextMenuAction::Explorer(ExplorerMenuAction::Rename), can_mutate_selected),
        action_entry("Delete", ContextMenuAction::Explorer(ExplorerMenuAction::Delete), can_mutate_selected),
        ContextMenuEntry::separator(),
        action_entry("Copy Path", ContextMenuAction::Explorer(ExplorerMenuAction::CopyPath), can_copy_path),
        action_entry(
            "Copy Relative Path",
            ContextMenuAction::Explorer(ExplorerMenuAction::CopyRelativePath),
            can_copy_path,
        ),
    ];
    proof {
        assert(r@[2].label@ =~= Seq::<char>::empty());
        assert(r@[6].label@ =~= Seq::<char>::empty());
        assert(r@[9].label@ =~= Seq::<char>::empty());
    }
    r
}

/// Two commands are the same: the same variant with the same char, or with the same
/// text for a custom command.
pub open spec fn command_same(a: Command, b: Command) -> bool {
    match (a, b) {
        (Command::Custom(x), Command::Custom(y)) => x@ == y@,
        _ => a == b,
    }
}

/// Whether two commands are the same, as `command_same` says.
#[verifier::rlimit(50)]
pub fn command_eq(a: &Command, b: &Command) -> (r: bool)
    ensures
        r == command_same(*a, *b),
{
    match a {
        Command::InsertChar(x) => match b {
            Command::InsertChar(y) => *x == *y,
            _ => false,
        },
        Command::Custom(x) => match b {
            Command::Custom(y) => str_eq(x.as_str(), y.as_str()),
            _ => false,
        },
        Command::ClearSelection => matches!(b, Command::ClearSelection),
        Command::CloseEditorSplit => matches!(b, Command::CloseEditorSplit),
        Command::CloseOverlay => matches!(b, Command::CloseOverlay),
        Command::CloseTab => matches!(b, Command::CloseTab),
        Command::CommandLineBackspace => matches!(b, Command::CommandLineBackspace),
        Command::CommandLineClose => matches!(b, Command::CommandLineClose),
        Command::CommandLineConfirm => matches!(b, Command::CommandLineConfirm),
        Command::CommandLineMoveDown => matches!(b, Command::CommandLineMoveDown),
        Command::CommandLineMoveUp => matches!(b, Command::CommandLineMoveUp),
        Command::CommandPalette => matches!(b, Command::CommandPalette),
        Command::Copy => matches!(b, Command::Copy),
        Command::CursorDown => matches!(b, Command::CursorDown),
        Command::CursorLeft => matches!(b, Command::CursorLeft),
        Command::CursorRight => matches!(b, Command::CursorRight),
        Command::CursorUp => matches!(b, Command::CursorUp),
        Command::Cut => matches!(b, Command::Cut),
        Command::DeleteBackward => matches!(b, Command::DeleteBackward),
        Command::DeleteForward => matches!(b, Command::DeleteForward),
        Command::DeleteLine => matches!(b, Command::DeleteLine),
        Command::DeleteSelection => matches!(b, Command::DeleteSelection),
        Command::DeleteToLineEnd => matches!(b, Command::DeleteToLineEnd),
        Command::EditorFold => matches!(b, Command::EditorFold),
        Command::EditorFoldToggle => matches!(b, Command::EditorFoldToggle),
        Command::EditorSearchBarBackspace => matches!(b, Command::EditorSearchBarBackspace),
        Command::EditorSearchBarClose => matches!(b, Command::EditorSearchBarClose),
        Command::EditorUnfold => matches!(b, Command::EditorUnfold),
        Command::Escape => matches!(b, Command::Escape),
        Command::ExplorerActivate => matches!(b, Command::ExplorerActivate),
        Command::ExplorerCollapse => matches!(b, Command::ExplorerCollapse),
        Command::ExplorerCopy => matches!(b, Command::ExplorerCopy),
        Command::ExplorerCut => matches!(b, Command::ExplorerCut),
        Command::ExplorerDelete => matches!(b, Command::ExplorerDelete),
        Command::ExplorerDown => matches!(b, Command::ExplorerDown),
        Command::ExplorerNewFile => matches!(b, Command::ExplorerNewFile),
        Command::ExplorerNewFolder => matches!(b, Command::ExplorerNewFolder),
        Command::ExplorerPaste => matches!(b, Command::ExplorerPaste),
        Command::ExplorerRename => matches!(b, Command::ExplorerRename),
        Command::ExplorerScrollDown => matches!(b, Command::ExplorerScrollDown),
        Command::ExplorerScrollUp => matches!(b, Command::ExplorerScrollUp),
        Command::ExplorerUp => matches!(b, Command::ExplorerUp),
        Command::Find => matches!(b, Command::Find),
        Command::FindNext => matches!(b, Command::FindNext),
        Command::FindPrev => matches!(b, Command::FindPrev),
        Command::FocusBottomPanel => matches!(b, Command::FocusBottomPanel),
        Command::FocusEditor => matches!(b, Command::FocusEditor),
        Command::FocusExplorer => matches!(b, Command::FocusExplorer),
        Command::FocusNextEditorPane => matches!(b, Command::FocusNextEditorPane),
        Command::FocusPrevEditorPane => matches!(b, Command::FocusPrevEditorPane),
        Command::FocusSearch => matches!(b, Command::FocusSearch),
        Command::GitTogglePanel => matches!(b, Command::GitTogglePanel),
        Command::GitWorktreeAdd => matches!(b, Command::GitWorktreeAdd),
        Command::GlobalSearchBackspace => matches!(b, Command::GlobalSearchBackspace),
        Command::GlobalSearchCursorLeft => matches!(b, Command::GlobalSearchCursorLeft),
        Command::GlobalSearchCursorRight => matches!(b, Command::GlobalSearchCursorRight),
        Command::GlobalSearchStart => matches!(b, Command::GlobalSearchStart),
        Command::GlobalSearchToggleCaseSensitive => matches!(b, Command::GlobalSearchToggleCaseSensitive),
        Command::GlobalSearchToggleRegex => matches!(b, Command::GlobalSearchToggleRegex),
        Command::HardReload => matches!(b, Command::HardReload),
        Command::InsertNewline => matches!(b, Command::InsertNewline),
        Command::InsertTab => matches!(b, Command::InsertTab),
        Command::LspCodeAction => matches!(b, Command::LspCodeAction),
        Command::LspCompletion => matches!(b, Command::LspCompletion),
        Command::LspDefinition => matches!(b, Command::LspDefinition),
        Command::LspDocumentSymbols => matches!(b, Command::LspDocumentSymbols),
        Command::LspFoldingRange => matches!(b, Command::LspFoldingRange),
        Command::LspFormat => matches!(b, Command::LspFormat),
        Command::LspFormatSelection => matches!(b, Command::LspFormatSelection),
        Command::LspHover => matches!(b, Command::LspHover),
        Command::LspInlayHints => matches!(b, Command::LspInlayHints),
        Command::LspReferences => matches!(b, Command::LspReferences),
        Command::LspRename => matches!(b, Command::LspRename),
        Command::LspSemanticTokens => matches!(b, Command::LspSemanticTokens),
        Command::LspSignatureHelp => matches!(b, Command::LspSignatureHelp),
        Command::LspWorkspaceSymbols => matches!(b, Command::LspWorkspaceSymbols),
        Command::NextBottomPanelTab => matches!(b, Command::NextBottomPanelTab),
        Command::NextTab => matches!(b, Command::NextTab),
        Command::OpenCommandLine => matches!(b, Command::OpenCommandLine),
        Command::OpenDiagnostics => matches!(b, Command::OpenDiagnostics),
        Command::OpenFile => matches!(b, Command::OpenFile),
        Command::OpenSettings => matches!(b, Command::OpenSettings),
        Command::OpenThemeEditor => matches!(b, Command::OpenThemeEditor),
        Command::PaletteBackspace => matches!(b, Command::PaletteBackspace),
        Command::PaletteClose => matches!(b, Command::PaletteClose),
        Command::PaletteConfirm => matches!(b, Command::PaletteConfirm),
        Command::PaletteMoveDown => matches!(b, Command::PaletteMoveDown),
        Command::PaletteMoveUp => matches!(b, Command::PaletteMoveUp),
        Command::Paste => matches!(b, Command::Paste),
        Command::PrevBottomPanelTab => matches!(b, Command::PrevBottomPanelTab),
        Command::PrevTab => matches!(b, Command::PrevTab),
        Command::Quit => matches!(b, Command::Quit),
        Command::Redo => matches!(b, Command::Redo),
        Command::ReloadFromDisk => matches!(b, Command::ReloadFromDisk),
        Command::ReloadSettings => matches!(b, Command::ReloadSettings),
        Command::RemoveSecondaryCursors => matches!(b, Command::RemoveSecondaryCursors),
        Command::Save => matches!(b, Command::Save),
        Command::SearchResultsMoveDown => matches!(b, Command::SearchResultsMoveDown),
        Command::SearchResultsMoveUp => matches!(b, Command::SearchResultsMoveUp),
        Command::SearchResultsOpenSelected => matches!(b, Command::SearchResultsOpenSelected),
        Command::SearchResultsScrollDown => matches!(b, Command::SearchResultsScrollDown),
        Command::SearchResultsScrollUp => matches!(b, Command::SearchResultsScrollUp),
        Command::SearchResultsToggleExpand => matches!(b, Command::SearchResultsToggleExpand),
        Command::SelectAll => matches!(b, Command::SelectAll),
        Command::SplitEditorHorizontal => matches!(b, Command::SplitEditorHorizontal),
        Command::SplitEditorVertical => matches!(b, Command::SplitEditorVertical),
        Command::ToggleBottomPanel => matches!(b, Command::ToggleBottomPanel),
        Command::ToggleSidebar => matches!(b, Command::ToggleSidebar),
        Command::ToggleSidebarTab => matches!(b, Command::ToggleSidebarTab),
        Command::Undo => matches!(b, Command::Undo),
    }
}

/// Two menu actions are the same: both none, or the same action.
pub open spec fn action_same(a: Option<ContextMenuAction>, b: Option<ContextMenuAction>) -> bool {
    match (a, b) {
        (None, None) => true,
        (Some(ContextMenuAction::RunCommand(x)), Some(ContextMenuAction::RunCommand(y))) => command_same(x, y),
        (Some(ContextMenuAction::Explorer(x)), Some(ContextMenuAction::Explorer(y))) => x == y,
        (Some(ContextMenuAction::Tab(x)), Some(ContextMenuAction::Tab(y))) => x == y,
        _ => false,
    }
}

/// Two menu entries are the same: same label, action and enabled flag.
pub open spec fn entry_same(a: ContextMenuEntry, b: ContextMenuEntry) -> bool {
    a.label@ == b.label@ && action_same(a.action, b.action) && a.enabled == b.enabled
}

fn action_eq(a: &Option<ContextMenuAction>, b: &Option<ContextMenuAction>) -> (r: bool)
    ensures
        r == action_same(*a, *b),
{
    match (a, b) {
        (None, None) => true,
        (Some(ContextMenuAction::RunCommand(x)), Some(ContextMenuAction::RunCommand(y))) => command_eq(x, y),
        (Some(ContextMenuAction::Explorer(x)), Some(ContextMenuAction::Explorer(y))) => *x == *y,
        (Some(ContextMenuAction::Tab(x)), Some(ContextMenuAction::Tab(y))) => *x == *y,
        _ => false,
    }
}

fn entry_eq(a: &ContextMenuEntry, b: &ContextMenuEntry) -> (r: bool)
    ensures
        r == entry_same(*a, *b),
{
    str_eq(a.label.as_str(), b.label.as_str()) && a.enabled == b.enabled && action_eq(&a.action, &b.action)
}

/// What a context menu was opened for.
#[derive(Debug, Clone, Copy, PartialEq, Eq, Structural)]
pub enum ContextMenuRequest {
    Explorer { tree_row: Option<usize> },
    Tab { pane: usize, index: usize },
    TabBar { pane: usize },
    EditorArea { pane: usize },
}

/// The context menu: whether it shows, where, the selected entry, the entries and
/// what it was opened for.
#[derive(Debug, Clone)]
pub struct ContextMenuState {
    pub visible: bool,
    pub anchor_x: u16,
    pub anchor_y: u16,
    pub selected: usize,
    pub items: Vec<ContextMenuEntry>,
    pub request: Option<ContextMenuRequest>,
}

/// Whether two menu states are the same: same flags, anchor, selection, request and
/// entries.
pub open spec fn menu_same(a: ContextMenuState, b: ContextMenuState) -> bool {
    &&& a.visible == b.visible
    &&& a.anchor_x == b.anchor_x
    &&& a.anchor_y == b.anchor_y
    &&& a.selected == b.selected
    &&& a.request == b.request
    &&& a.items@.len() == b.items@.len()
    &&& forall|i: int| 0 <= i < a.items@.len() ==> #[trigger] entry_same(a.items@[i], b.items@[i])
}

/// The closed menu: hidden, anchored at the origin, nothing selected, no entries, no request.
pub open spec fn menu_closed(m: ContextMenuState) -> bool {
    &&& !m.visible
    &&& m.anchor_x == 0
    &&& m.anchor_y == 0
    &&& m.selected == 0
    &&& m.items@.len() == 0
    &&& m.request is None
}

impl ContextMenuState {
    /// The closed menu.
    pub fn closed() -> (m: Self)
        ensures
            menu_closed(m),
    {
        ContextMenuState { visible: false, anchor_x: 0, anchor_y: 0, selected: 0, items: Vec::new(), request: None }
    }
}

fn menu_eq(a: &ContextMenuState, b: &ContextMenuState) -> (r: bool)
    ensures
        r == menu_same(*a, *b),
{
    if a.visible != b.visible || a.anchor_x != b.anchor_x || a.anchor_y != b.anchor_y || a.selected != b.selected
        || a.request != b.request || a.items.len() != b.items.len() {
        return false;
    }
    let mut i: usize = 0;
    while i < a.items.len()
        invariant
            i <= a.items@.len() == b.items@.len(),
            forall|k: int| 0 <= k < i ==> #[trigger] entry_same(a.items@[k], b.items@[k]),
        decreases a.items@.len() - i,
    {
        if !entry_eq(&a.items[i], &b.items[i]) {
            return false;
        }
        i += 1;
    }
    true
}

/// The first entry that can be chosen at or after `i`; 0 when there is none.
pub open spec fn first_enabled(s: Seq<ContextMenuEntry>, i: int) -> int
    decreases s.len() - i,
{
    if i < 0 || i >= s.len() {
        0
    } else if s[i].enabled {
        i
    } else {
        first_enabled(s, i + 1)
    }
}

proof fn lemma_first_enabled_skip(s: Seq<ContextMenuEntry>, k: int, i: int)
    requires
        0 <= k <= i <= s.len(),
        forall|j: int| k <= j < i ==> !s[j].enabled,
    ensures
        first_enabled(s, k) == first_enabled(s, i),
    decreases i - k,
{
    if k < i {
        lemma_first_enabled_skip(s, k + 1, i);
    }
}

/// The menu opened for `request` at `(x, y)` with `items`, selecting the first entry
/// that can be chosen (the first entry when none can).
pub open spec fn menu_opened(m: ContextMenuState, request: ContextMenuRequest, x: u16, y: u16, items: Seq<
    ContextMenuEntry,
>) -> bool {
    &&& m.visible
    &&& m.anchor_x == x
    &&& m.anchor_y == y
    &&& m.selected == first_enabled(items, 0)
    &&& m.items@ == items
    &&& m.request == Some(request)
}

/// Opens the context menu for `request` at `(x, y)` with `items`; whether the menu
/// state changed.
pub fn open_context_menu(ui: &mut UiState, request: ContextMenuRequest, x: u16, y: u16, items: Vec<
    ContextMenuEntry,
>) -> (changed: bool)
    ensures
        menu_opened(final(ui).context_menu, request, x, y, items@),
        changed == !menu_same(final(ui).context_menu, old(ui).context_menu),
        (UiState { context_menu: old(ui).context_menu, ..*final(ui) }) == *old(ui),
{
    let ghost items_view = items@;
    let selected = match first_selectable_context_menu_index(items.as_slice()) {
        Some(i) => {
            proof {
                lemma_first_enabled_skip(items_view, 0, i as int);
            }
            i
        },
        None => {
            proof {
                lemma_first_enabled_skip(items_view, 0, items_view.len() as int);
            }
            0
        },
    };
    let next = ContextMenuState { visible: true, anchor_x: x, anchor_y: y, selected, items, request: Some(request) };
    let changed = !menu_eq(&next, &ui.context_menu);
    ui.context_menu = next;
    changed
}

/// Where a selection move lands in a menu, as `move_context_menu_selection` states it.
pub open spec fn menu_move(items: Seq<ContextMenuEntry>, current: usize, delta: isize) -> Option<usize> {
    if items.len() == 0 || delta == 0 || (forall|k: int| 0 <= k < items.len() ==> !items[k].enabled) {
        None
    } else {
        let n = items.len() as int;
        let start = if current < n {
            current as int
        } else {
            n - 1
        };
        let count = if delta > 0 {
            delta as int
        } else {
            -delta
        };
        Some(moves(selectable(items), start, delta > 0, count as nat) as usize)
    }
}

/// An event for the context menu.
#[derive(Debug, Clone, Copy, PartialEq, Eq, Structural)]
pub enum ContextMenuEvent {
    Open { request: ContextMenuRequest, x: u16, y: u16 },
    Close,
    MoveSelection { delta: isize },
    SetSelected { index: usize },
    Confirm,
}

/// What the explorer says of its selection once the menu's row is selected: whether
/// it may be changed, whether the clipboard can be pasted, whether anything is
/// selected.
#[derive(Debug, Clone, Copy, PartialEq, Eq, Structural)]
pub struct ExplorerMenuFlags {
    pub can_mutate_selected: bool,
    pub can_paste: bool,
    pub can_copy_path: bool,
}

/// What handling a context menu event produced: whether the state changed, a tree row
/// for the explorer to select, and a chosen action with the menu's request, to be
/// carried out next.
#[derive(Debug, Clone)]
pub struct ContextMenuOutcome {
    pub state_changed: bool,
    pub select_explorer_row: Option<usize>,
    pub follow_up: Option<(ContextMenuAction, Option<ContextMenuRequest>)>,
}

/// The entries of the menu opened for `request`.
pub open spec fn request_menu(editor: &EditorState, request: ContextMenuRequest, ex: ExplorerMenuFlags) -> Seq<
    (Seq<char>, Option<ContextMenuAction>, bool),
> {
    match request {
        ContextMenuRequest::Explorer { .. } => explorer_menu(ex.can_mutate_selected, ex.can_paste, ex.can_copy_path),
        ContextMenuRequest::Tab { pane, index } => tab_menu(pane_tab_count(editor, pane as int), Some(index)),
        ContextMenuRequest::TabBar { pane } => tab_menu(pane_tab_count(editor, pane as int), None),
        ContextMenuRequest::EditorArea { pane } => editor_area_menu(pane_has_active_tab(editor, pane as int)),
    }
}

/// The UI after opening the menu for `request`: the explorer request shows the
/// sidebar on its explorer tab and focuses the explorer; the others focus the editor
/// and make the request's pane active.
pub open spec fn open_ui(o: UiState, n: UiState, request: ContextMenuRequest) -> bool {
    match request {
        ContextMenuRequest::Explorer { .. } => {
            &&& n.sidebar_visible
            &&& n.sidebar_tab == SidebarTab::Explorer
            &&& n.focus == FocusTarget::Explorer
            &&& n.editor_layout == o.editor_layout
        },
        ContextMenuRequest::Tab { pane, .. } | ContextMenuRequest::TabBar { pane } | ContextMenuRequest::EditorArea {
            pane,
        } => {
            &&& n.sidebar_visible == o.sidebar_visible
            &&& n.sidebar_tab == o.sidebar_tab
            &&& n.focus == FocusTarget::Editor
            &&& n.editor_layout == (EditorLayoutState { active_pane: pane, ..o.editor_layout })
        },
    }
}

/// An outcome with no change, no row and no follow-up.
pub open spec fn quiet(out: ContextMenuOutcome) -> bool {
    !out.state_changed && out.select_explorer_row is None && out.follow_up is None
}

/// What a context menu event does to the state and what it reports.
pub open spec fn context_menu_post(
    o: AppState,
    ev: ContextMenuEvent,
    ex: ExplorerMenuFlags,
    n: AppState,
    out: ContextMenuOutcome,
) -> bool {
    &&& n.editor == o.editor
    &&& n.workspace_root == o.workspace_root
    &&& match ev {
        ContextMenuEvent::Open { request, x, y } => if o.ui.command_palette.visible || o.ui.input_dialog.visible
            || o.ui.confirm_dialog.visible {
            n.ui == o.ui && quiet(out)
        } else {
            &&& open_ui(o.ui, n.ui, request)
            &&& n.ui.bottom_panel == o.ui.bottom_panel
            &&& n.ui.overlay == o.ui.overlay
            &&& n.ui.command_palette == o.ui.command_palette
            &&& n.ui.input_dialog == o.ui.input_dialog
            &&& n.ui.confirm_dialog == o.ui.confirm_dialog
            &&& menu_is(n.ui.context_menu.items@, request_menu(&o.editor, request, ex))
            &&& menu_opened(n.ui.context_menu, request, x, y, n.ui.context_menu.items@)
            &&& out.select_explorer_row == match request {
                ContextMenuRequest::Explorer { tree_row } => tree_row,
                _ => None,
            }
            &&& out.follow_up is None
            &&& out.state_changed == (n.ui.sidebar_visible != o.ui.sidebar_visible || n.ui.sidebar_tab
                != o.ui.sidebar_tab || n.ui.focus != o.ui.focus || n.ui.editor_layout.active_pane != o.ui.editor_layout.active_pane
                || !menu_same(n.ui.context_menu, o.ui.context_menu))
        },
        ContextMenuEvent::Close => if !o.ui.context_menu.visible {
            n.ui == o.ui && quiet(out)
        } else {
            &&& menu_closed(n.ui.context_menu)
            &&& (UiState { context_menu: o.ui.context_menu, ..n.ui }) == o.ui
            &&& out.state_changed && out.select_explorer_row is None && out.follow_up is None
        },
        ContextMenuEvent::MoveSelection { delta } => match menu_move(
            o.ui.context_menu.items@,
            o.ui.context_menu.selected,
            delta,
        ) {
            Some(next) if o.ui.context_menu.visible => {
                &&& n.ui == (UiState {
                    context_menu: ContextMenuState { selected: next, ..o.ui.context_menu },
                    ..o.ui
                })
                &&& out.state_changed == (next != o.ui.context_menu.selected)
                &&& out.select_explorer_row is None && out.follow_up is None
            },
            _ => n.ui == o.ui && quiet(out),
        },
        ContextMenuEvent::SetSelected { index } => if o.ui.context_menu.visible && index
            < o.ui.context_menu.items@.len() && o.ui.context_menu.items@[index as int].enabled {
            &&& n.ui == (UiState {
                context_menu: ContextMenuState { selected: index, ..o.ui.context_menu },
                ..o.ui
            })
            &&& out.state_changed == (index != o.ui.context_menu.selected)
            &&& out.select_explorer_row is None && out.follow_up is None
        } else {
            n.ui == o.ui && quiet(out)
        },
        ContextMenuEvent::Confirm => if !o.ui.context_menu.visible {
            n.ui == o.ui && quiet(out)
        } else {
            let m = o.ui.context_menu;
            &&& menu_closed(n.ui.context_menu)
            &&& (UiState { context_menu: o.ui.context_menu, ..n.ui }) == o.ui
            &&& out.state_changed
            &&& out.select_explorer_row is None
            &&& out.follow_up == if m.selected < m.items@.len() && m.items@[m.selected as int].enabled
                && m.items@[m.selected as int].action is Some {
                Some((m.items@[m.selected as int].action.unwrap(), m.request))
            } else {
                None
            }
        },
    }
}

/// Handles a context menu event: opening a menu (unless a palette or dialog is
/// shown), closing it, moving or setting the selection among the entries that can be
/// chosen, or confirming the selected entry, which closes the menu and hands its
/// action on.
pub fn reduce_context_menu_action(state: &mut AppState, event: ContextMenuEvent, explorer: ExplorerMenuFlags) -> (out:
    ContextMenuOutcome)
    ensures
        context_menu_post(*old(state), event, explorer, *final(state), out),
{
    match event {
        ContextMenuEvent::Open { request, x, y } => {
            if state.ui.command_palette.visible || state.ui.input_dialog.visible || state.ui.confirm_dialog.visible {
                return ContextMenuOutcome { state_changed: false, select_explorer_row: None, follow_up: None };
            }
            let mut state_changed = false;
            match request {
                ContextMenuRequest::Explorer { tree_row } => {
                    if !state.ui.sidebar_visible {
                        state.ui.sidebar_visible = true;
                        state_changed = true;
                    }
                    if state.ui.sidebar_tab != SidebarTab::Explorer {
                        state.ui.sidebar_tab = SidebarTab::Explorer;
                        state_changed = true;
                    }
                    if state.ui.focus != FocusTarget::Explorer {
                        state.ui.focus = FocusTarget::Explorer;
                        state_changed = true;
                    }
                    let items = build_explorer_context_menu_items(
                        explorer.can_mutate_selected,
                        explorer.can_paste,
                        explorer.can_copy_path,
                    );
                    let opened = open_context_menu(&mut state.ui, request, x, y, items);
                    ContextMenuOutcome {
                        state_changed: state_changed || opened,
                        select_explorer_row: tree_row,
                        follow_up: None,
                    }
                },
                ContextMenuRequest::Tab { pane, index } => {
                    if state.ui.focus != FocusTarget::Editor {
                        state.ui.focus = FocusTarget::Editor;
                        state_changed = true;
                    }
                    if state.ui.editor_layout.active_pane != pane {
                        state.ui.editor_layout.active_pane = pane;
                        state_changed = true;
                    }
                    let items = build_tab_context_menu_items(&state.editor, pane, Some(index));
                    let opened = open_context_menu(&mut state.ui, request, x, y, items);
                    ContextMenuOutcome { state_changed: state_changed || opened, select_explorer_row: None, follow_up: None }
                },
                ContextMenuRequest::TabBar { pane } => {
                    if state.ui.focus != FocusTarget::Editor {
                        state.ui.focus = FocusTarget::Editor;
                        state_changed = true;
                    }
                    if state.ui.editor_layout.active_pane != pane {
                        state.ui.editor_layout.active_pane = pane;
                        state_changed = true;
                    }
                    let items = build_tab_context_menu_items(&state.editor, pane, None);
                    let opened = open_context_menu(&mut state.ui, request, x, y, items);
                    ContextMenuOutcome { state_changed: state_changed || opened, select_explorer_row: None, follow_up: None }
                },
                ContextMenuRequest::EditorArea { pane } => {
                    if state.ui.focus != FocusTarget::Editor {
                        state.ui.focus = FocusTarget::Editor;
                        state_changed = true;
                    }
                    if state.ui.editor_layout.active_pane != pane {
                        state.ui.editor_layout.active_pane = pane;
                        state_changed = true;
                    }
                    let items = build_editor_area_context_menu_items(&state.editor, pane);
                    let opened = open_context_menu(&mut state.ui, request, x, y, items);
                    ContextMenuOutcome { state_changed: state_changed || opened, select_explorer_row: None, follow_up: None }
                },
            }
        },
        ContextMenuEvent::Close => {
            if !state.ui.context_menu.visible {
                return ContextMenuOutcome { state_changed: false, select_explorer_row: None, follow_up: None };
            }
            state.ui.context_menu = ContextMenuState::closed();
            ContextMenuOutcome { state_changed: true, select_explorer_row: None, follow_up: None }
        },
        ContextMenuEvent::MoveSelection { delta } => {
            if !state.ui.context_menu.visible || delta == 0 {
                return ContextMenuOutcome { state_changed: false, select_explorer_row: None, follow_up: None };
            }
            let current = state.ui.context_menu.selected;
            let next = match move_context_menu_selection(state.ui.context_menu.items.as_slice(), current, delta) {
                Some(next) => next,
                None => {
                    return ContextMenuOutcome { state_changed: false, select_explorer_row: None, follow_up: None };
                },
            };
            let changed = next != state.ui.context_menu.selected;
            state.ui.context_menu.selected = next;
            ContextMenuOutcome { state_changed: changed, select_explorer_row: None, follow_up: None }
        },
        ContextMenuEvent::SetSelected { index } => {
            if !state.ui.context_menu.visible {
                return ContextMenuOutcome { state_changed: false, select_explorer_row: None, follow_up: None };
            }
            if index >= state.ui.context_menu.items.len() || !state.ui.context_menu.items[index].is_selectable() {
                return ContextMenuOutcome { state_changed: false, select_explorer_row: None, follow_up: None };
            }
            let changed = index != state.ui.context_menu.selected;
            state.ui.context_menu.selected = index;
            ContextMenuOutcome { state_changed: changed, select_explorer_row: None, follow_up: None }
        },
        ContextMenuEvent::Confirm => {
            if !state.ui.context_menu.visible {
                return ContextMenuOutcome { state_changed: false, select_explorer_row: None, follow_up: None };
            }
            let mut menu = ContextMenuState::closed();
            std::mem::swap(&mut menu, &mut state.ui.context_menu);
            let selected = menu.selected;
            let request = menu.request;
            let mut items = menu.items;
            let follow_up = if selected < items.len() && items[selected].enabled {
                let entry = items.remove(selected);
                match entry.action {
                    Some(action) => Some((action, request)),
                    None => None,
                }
            } else {
                None
            };
            ContextMenuOutcome { state_changed: true, select_explorer_row: None, follow_up }
        },
    }
}

/// What confirming the confirm dialog carries out.
#[derive(Debug, Clone)]
pub enum PendingAction {
    CloseTab { pane: usize, index: usize },
    CloseTabsBatch { pane: usize, tab_ids: Vec<u64> },
    DeletePath { path: String, is_dir: bool },
    RenamePath { from: String, to: String, overwrite: bool },
    CopyPath { from: String, to: String, overwrite: bool },
}

/// The confirm dialog: whether it shows, its message, and what confirming does.
#[derive(Debug, Clone)]
pub struct ConfirmDialogState {
    pub visible: bool,
    pub message: String,
    pub on_confirm: Option<PendingAction>,
}

impl ConfirmDialogState {
    /// A hidden dialog with no message and nothing pending.
    pub fn hidden() -> (d: Self)
        ensures
            !d.visible,
            d.message@.len() == 0,
            d.on_confirm is None,
    {
        ConfirmDialogState { visible: false, message: String::new(), on_confirm: None }
    }
}

/// The decimal digit `d` as a char.
pub open spec fn digit_char(d: nat) -> char {
    if d == 0 {
        '0'
    } else if d == 1 {
        '1'
    } else if d == 2 {
        '2'
    } else if d == 3 {
        '3'
    } else if d == 4 {
        '4'
    } else if d == 5 {
        '5'
    } else if d == 6 {
        '6'
    } else if d == 7 {
        '7'
    } else if d == 8 {
        '8'
    } else {
        '9'
    }
}

/// The decimal digits of `n`.
pub open spec fn decimal(n: nat) -> Seq<char>
    decreases n,
{
    if n < 10 {
        seq![digit_char(n)]
    } else {
        decimal(n / 10).push(digit_char(n % 10))
    }
}

fn digit_exec(d: usize) -> (c: char)
    requires
        d < 10,
    ensures
        c == digit_char(d as nat),
{
    match d {
        0 => '0',
        1 => '1',
        2 => '2',
        3 => '3',
        4 => '4',
        5 => '5',
        6 => '6',
        7 => '7',
        8 => '8',
        _ => '9',
    }
}

/// `n` written in decimal.
fn decimal_chars(n: usize) -> (r: Vec<char>)
    ensures
        r@ == decimal(n as nat),
{
    let mut low: Vec<char> = Vec::new();
    let mut cur = n;
    while cur >= 10
        invariant
            decimal(n as nat) == decimal(cur as nat) + low@.reverse(),
        decreases cur,
    {
        let d = digit_exec(cur % 10);
        proof {
            assert(low@.push(d).reverse() =~= seq![d] + low@.reverse());
            assert(decimal(cur as nat) == decimal((cur / 10) as nat).push(d));
            assert(decimal((cur / 10) as nat).push(d) + low@.reverse() =~= decimal((cur / 10) as nat) + (seq![d]
                + low@.reverse()));
        }
        low.push(d);
        cur = cur / 10;
    }
    let mut out: Vec<char> = Vec::new();
    out.push(digit_exec(cur));
    let mut i = low.len();
    while i > 0
        invariant
            i <= low@.len(),
            decimal(n as nat) == decimal(cur as nat) + low@.reverse(),
            cur < 10,
            out@ == decimal(cur as nat) + low@.take(i as int).reverse().take(0) + low@.subrange(i as int, low@.len() as int).reverse(),
        decreases i,
    {
        i -= 1;
        proof {
            assert(low@.subrange(i as int, low@.len() as int).reverse() =~= low@.subrange(i + 1, low@.len() as int).reverse().push(low@[i as int]));
            assert(low@.take((i + 1) as int).reverse().take(0) =~= Seq::<char>::empty());
            assert(low@.take(i as int).reverse().take(0) =~= Seq::<char>::empty());
        }
        out.push(low[i]);
    }
    proof {
        assert(low@.subrange(0, low@.len() as int) =~= low@);
        assert(low@.take(0).reverse().take(0) =~= Seq::<char>::empty());
    }
    out
}

/// The message asking whether to close `count` tabs with unsaved changes.
pub open spec fn unsaved_message(count: nat) -> Seq<char> {
    if count == 1 {
        "Unsaved changes. Close anyway?"@
    } else {
        "Unsaved changes. Close "@ + decimal(count) + " tabs anyway?"@
    }
}

/// The ids of the tabs of `pane`, in order; none for a pane that does not exist.
pub open spec fn pane_tab_ids(editor: &EditorState, pane: int) -> Seq<u64> {
    if 0 <= pane < editor.panes@.len() {
        editor.panes@[pane].tabs@.map_values(|t: EditorTabState| t.id)
    } else {
        Seq::empty()
    }
}

/// Whether a tab of `pane` with an id in `ids` has unsaved changes.
pub open spec fn closing_dirty(editor: &EditorState, pane: int, ids: Seq<u64>) -> bool {
    0 <= pane < editor.panes@.len() && exists|k: int|
        0 <= k < editor.panes@[pane].tabs@.len() && #[trigger] editor.panes@[pane].tabs@[k].dirty && ids.contains(
            editor.panes@[pane].tabs@[k].id,
        )
}

/// What a tab menu action hands on to the editor: closing tabs by id, or splitting
/// the editor with a command and moving a tab to the other pane.
#[derive(Debug, Clone)]
pub enum TabMenuFollowUp {
    CloseTabs { pane: usize, tab_ids: Vec<u64> },
    Split { pane: usize, tab_id: u64, command: Command },
}

/// What a tab menu action produced: whether the state changed, and what is handed on.
#[derive(Debug, Clone)]
pub struct TabMenuOutcome {
    pub state_changed: bool,
    pub follow_up: Option<TabMenuFollowUp>,
}

/// Closing the tabs `ids` of `pane`: nothing for no ids; when one of them has unsaved
/// changes, the confirm dialog asks first (and closes them on confirm); otherwise the
/// editor closes them.
pub open spec fn close_guard_post(o: AppState, pane: usize, ids: Seq<u64>, n: AppState, out: TabMenuOutcome) -> bool {
    &&& n.editor == o.editor
    &&& n.workspace_root == o.workspace_root
    &&& if ids.len() == 0 {
        n.ui == o.ui && !out.state_changed && out.follow_up is None
    } else if closing_dirty(&o.editor, pane as int, ids) {
        &&& (UiState { confirm_dialog: o.ui.confirm_dialog, ..n.ui }) == o.ui
        &&& n.ui.confirm_dialog.visible
        &&& n.ui.confirm_dialog.message@ == unsaved_message(ids.len())
        &&& n.ui.confirm_dialog.on_confirm matches Some(PendingAction::CloseTabsBatch { pane: p, tab_ids }) && p
            == pane && tab_ids@ == ids
        &&& out.state_changed && out.follow_up is None
    } else {
        &&& n.ui == o.ui
        &&& out.state_changed
        &&& out.follow_up matches Some(TabMenuFollowUp::CloseTabs { pane: p, tab_ids }) && p == pane && tab_ids@
            == ids
    }
}

fn tab_ids_of(editor: &EditorState, pane: usize) -> (r: Vec<u64>)
    ensures
        r@ == pane_tab_ids(editor, pane as int),
{
    let mut r: Vec<u64> = Vec::new();
    if pane < editor.panes.len() {
        let tabs = &editor.panes[pane].tabs;
        let mut i: usize = 0;
        while i < tabs.len()
            invariant
                pane < editor.panes@.len(),
                *tabs == editor.panes@[pane as int].tabs,
                i <= tabs@.len(),
                r@ == tabs@.take(i as int).map_values(|t: EditorTabState| t.id),
            decreases tabs@.len() - i,
        {
            r.push(tabs[i].id);
            proof {
                assert(tabs@.take(i + 1).map_values(|t: EditorTabState| t.id) =~= tabs@.take(i as int).map_values(
                    |t: EditorTabState| t.id,
                ).push(tabs@[i as int].id));
            }
            i += 1;
        }
        proof {
            assert(tabs@.take(i as int) =~= tabs@);
        }
    } else {
        proof {
            assert(r@ =~= Seq::<u64>::empty());
        }
    }
    r
}

fn vec_has(v: &Vec<u64>, x: u64) -> (r: bool)
    ensures
        r == v@.contains(x),
{
    let mut i: usize = 0;
    while i < v.len()
        invariant
            i <= v@.len(),
            forall|k: int| 0 <= k < i ==> v@[k] != x,
        decreases v@.len() - i,
    {
        if v[i] == x {
            proof {
                assert(v@[i as int] == x);
            }
            return true;
        }
        i += 1;
    }
    false
}

/// Closes the tabs `tab_ids` of `pane`, asking first when one has unsaved changes.
pub fn close_tabs_with_unsaved_guard(state: &mut AppState, pane: usize, tab_ids: Vec<u64>) -> (out: TabMenuOutcome)
    ensures
        close_guard_post(*old(state), pane, tab_ids@, *final(state), out),
{
    if tab_ids.len() == 0 {
        return TabMenuOutcome { state_changed: false, follow_up: None };
    }
    let mut has_dirty = false;
    if pane < state.editor.panes.len() {
        let tabs = &state.editor.panes[pane].tabs;
        let mut i: usize = 0;
        while i < tabs.len()
            invariant
                pane < state.editor.panes@.len(),
                *tabs == state.editor.panes@[pane as int].tabs,
                i <= tabs@.len(),
                has_dirty == exists|k: int| 0 <= k < i && #[trigger] tabs@[k].dirty && tab_ids@.contains(tabs@[k].id),
            decreases tabs@.len() - i,
        {
            if tabs[i].dirty && vec_has(&tab_ids, tabs[i].id) {
                has_dirty = true;
            }
            i += 1;
        }
    }
    if has_dirty {
        let message = if tab_ids.len() == 1 {
            let cs = str_chars("Unsaved changes. Close anyway?");
            crate::text::string_from_chars(cs.as_slice())
        } else {
            let mut cs = str_chars("Unsaved changes. Close ");
            let mut digits = decimal_chars(tab_ids.len());
            cs.append(&mut digits);
            let mut tail = str_chars(" tabs anyway?");
            cs.append(&mut tail);
            crate::text::string_from_chars(cs.as_slice())
        };
        state.ui.confirm_dialog.visible = true;
        state.ui.confirm_dialog.message = message;
        state.ui.confirm_dialog.on_confirm = Some(PendingAction::CloseTabsBatch { pane, tab_ids });
        return TabMenuOutcome { state_changed: true, follow_up: None };
    }
    TabMenuOutcome { state_changed: true, follow_up: Some(TabMenuFollowUp::CloseTabs { pane, tab_ids }) }
}

/// `s` without its element at `t`.
pub open spec fn without_index(s: Seq<u64>, t: int) -> Seq<u64> {
    s.take(t) + s.skip(t + 1)
}

/// The pane and tab a tab menu was opened for; none for another menu.
pub open spec fn tab_menu_target(request: Option<ContextMenuRequest>) -> Option<(usize, Option<usize>)> {
    match request {
        Some(ContextMenuRequest::Tab { pane, index }) => Some((pane, Some(index))),
        Some(ContextMenuRequest::TabBar { pane }) => Some((pane, None)),
        _ => None,
    }
}

/// What a tab menu action does: the close actions close the chosen tab, the others,
/// those to its right, or all tabs of the pane (through `close_guard_post`); the
/// split actions hand on a vertical or horizontal split for the chosen tab; actions
/// that need a tab do nothing without one.
pub open spec fn tab_menu_post(
    o: AppState,
    action: TabMenuAction,
    request: Option<ContextMenuRequest>,
    n: AppState,
    out: TabMenuOutcome,
) -> bool {
    match tab_menu_target(request) {
        None => n.ui == o.ui && n.editor == o.editor && n.workspace_root == o.workspace_root && !out.state_changed
            && out.follow_up is None,
        Some((pane, idx)) => {
            let ids = pane_tab_ids(&o.editor, pane as int);
            let target: Option<int> = match idx {
                Some(i) => if i < ids.len() {
                    Some(i as int)
                } else {
                    None
                },
                None => None,
            };
            match action {
                TabMenuAction::CloseAll => close_guard_post(o, pane, ids, n, out),
                _ => match target {
                    None => n.ui == o.ui && n.editor == o.editor && n.workspace_root == o.workspace_root
                        && !out.state_changed && out.follow_up is None,
                    Some(t) => match action {
                        TabMenuAction::Close => close_guard_post(o, pane, seq![ids[t]], n, out),
                        TabMenuAction::CloseOthers => close_guard_post(o, pane, without_index(ids, t), n, out),
                        TabMenuAction::CloseToRight => close_guard_post(o, pane, ids.skip(t + 1), n, out),
                        _ => {
                            &&& n.ui == o.ui && n.editor == o.editor && n.workspace_root == o.workspace_root
                            &&& out.state_changed
                            &&& out.follow_up matches Some(TabMenuFollowUp::Split { pane: p, tab_id, command }) && p
                                == pane && tab_id == ids[t] && command == if action == TabMenuAction::SplitRight {
                                Command::SplitEditorVertical
                            } else {
                                Command::SplitEditorHorizontal
                            }
                        },
                    },
                },
            }
        },
    }
}

/// Carries out a tab menu action for the tab (or tab bar) the menu was opened for.
pub fn dispatch_tab_menu_action(state: &mut AppState, action: TabMenuAction, request: Option<ContextMenuRequest>) -> (out:
    TabMenuOutcome)
    ensures
        tab_menu_post(*old(state), action, request, *final(state), out),
{
    let (pane, request_index) = match request {
        Some(ContextMenuRequest::Tab { pane, index }) => (pane, Some(index)),
        Some(ContextMenuRequest::TabBar { pane }) => (pane, None),
        _ => {
            return TabMenuOutcome { state_changed: false, follow_up: None };
        },
    };
    let tab_ids = tab_ids_of(&state.editor, pane);
    let tab_count = tab_ids.len();
    let target_index = match request_index {
        Some(i) => if i < tab_count {
            Some(i)
        } else {
            None
        },
        None => None,
    };
    let ids: Vec<u64> = match action {
        TabMenuAction::CloseAll => tab_ids,
        _ => {
            let index = match target_index {
                Some(i) => i,
                None => {
                    return TabMenuOutcome { state_changed: false, follow_up: None };
                },
            };
            match action {
                TabMenuAction::Close => {
                    let ids = vec![tab_ids[index]];
                    proof {
                        assert(ids@ =~= seq![tab_ids@[index as int]]);
                    }
                    ids
                },
                TabMenuAction::CloseOthers => {
                    let mut ids: Vec<u64> = Vec::new();
                    let mut k: usize = 0;
                    while k < tab_ids.len()
                        invariant
                            k <= tab_ids@.len(),
                            index < tab_ids@.len(),
                            ids@ == if k <= index {
                                tab_ids@.take(k as int)
                            } else {
                                without_index(tab_ids@.take(k as int), index as int)
                            },
                        decreases tab_ids@.len() - k,
                    {
                        if k != index {
                            ids.push(tab_ids[k]);
                        }
                        proof {
                            if k < index {
                                assert(tab_ids@.take(k + 1) =~= tab_ids@.take(k as int).push(tab_ids@[k as int]));
                            } else if k == index {
                                assert(without_index(tab_ids@.take(k + 1), index as int) =~= tab_ids@.take(k as int));
                            } else {
                                assert(without_index(tab_ids@.take(k + 1), index as int) =~= without_index(
                                    tab_ids@.take(k as int),
                                    index as int,
                                ).push(tab_ids@[k as int]));
                            }
                        }
                        k += 1;
                    }
                    proof {
                        assert(tab_ids@.take(k as int) =~= tab_ids@);
                    }
                    ids
                },
                TabMenuAction::CloseToRight => {
                    let mut ids: Vec<u64> = Vec::new();
                    let mut k: usize = index + 1;
                    while k < tab_ids.len()
                        invariant
                            index < k <= tab_ids@.len(),
                            ids@ == tab_ids@.subrange(index + 1, k as int),
                        decreases tab_ids@.len() - k,
                    {
                        ids.push(tab_ids[k]);
                        proof {
                            assert(tab_ids@.subrange(index + 1, k + 1) =~= tab_ids@.subrange(index + 1, k as int).push(
                                tab_ids@[k as int],
                            ));
                        }
                        k += 1;
                    }
                    proof {
                        assert(tab_ids@.subrange(index + 1, tab_ids@.len() as int) =~= tab_ids@.skip(index + 1));
                    }
                    ids
                },
                TabMenuAction::SplitRight => {
                    return TabMenuOutcome {
                        state_changed: true,
                        follow_up: Some(
                            TabMenuFollowUp::Split { pane, tab_id: tab_ids[index], command: Command::SplitEditorVertical },
                        ),
                    };
                },
                _ => {
                    return TabMenuOutcome {
                        state_changed: true,
                        follow_up: Some(
                            TabMenuFollowUp::Split {
                                pane,
                                tab_id: tab_ids[index],
                                command: Command::SplitEditorHorizontal,
                            },
                        ),
                    };
                },
            }
        },
    };
    close_tabs_with_unsaved_guard(state, pane, ids)
}

} // verus!
