//! The kernel's vocabulary that the store logic reads: commands, the kinds of
//! actions it dispatches, languages, panels and focus targets.

use vstd::prelude::*;

use crate::editor::EditorState;
use crate::store::context_menu::{ConfirmDialogState, ContextMenuState};
use crate::store::input_dialog::InputDialogState;

verus! {

/// Languages that carry completion behaviour of their own.
#[derive(Debug, Clone, Copy, PartialEq, Eq, Hash, Structural)]
pub enum LanguageId {
    Rust,
    C,
    Cpp,
    Python,
    Java,
}

/// An editor command.
#[derive(Debug, Clone)]
pub enum Command {
    InsertChar(char),
    Custom(String),
    ClearSelection,
    CloseEditorSplit,
    CloseOverlay,
    CloseTab,
    CommandLineBackspace,
    CommandLineClose,
    CommandLineConfirm,
    CommandLineMoveDown,
    CommandLineMoveUp,
    CommandPalette,
    Copy,
    CursorDown,
    CursorLeft,
    CursorRight,
    CursorUp,
    Cut,
    DeleteBackward,
    DeleteForward,
    DeleteLine,
    DeleteSelection,
    DeleteToLineEnd,
    EditorFold,
    EditorFoldToggle,
    EditorSearchBarBackspace,
    EditorSearchBarClose,
    EditorUnfold,
    Escape,
    ExplorerActivate,
    ExplorerCollapse,
    ExplorerCopy,
    ExplorerCut,
    ExplorerDelete,
    ExplorerDown,
    ExplorerNewFile,
    ExplorerNewFolder,
    ExplorerPaste,
    ExplorerRename,
    ExplorerScrollDown,
    ExplorerScrollUp,
    ExplorerUp,
    Find,
    FindNext,
    FindPrev,
    FocusBottomPanel,
    FocusEditor,
    FocusExplorer,
    FocusNextEditorPane,
    FocusPrevEditorPane,
    FocusSearch,
    GitTogglePanel,
    GitWorktreeAdd,
    GlobalSearchBackspace,
    GlobalSearchCursorLeft,
    GlobalSearchCursorRight,
    GlobalSearchStart,
    GlobalSearchToggleCaseSensitive,
    GlobalSearchToggleRegex,
    HardReload,
    InsertNewline,
    InsertTab,
    LspCodeAction,
    LspCompletion,
    LspDefinition,
    LspDocumentSymbols,
    LspFoldingRange,
    LspFormat,
    LspFormatSelection,
    LspHover,
    LspInlayHints,
    LspReferences,
    LspRename,
    LspSemanticTokens,
    LspSignatureHelp,
    LspWorkspaceSymbols,
    NextBottomPanelTab,
    NextTab,
    OpenCommandLine,
    OpenDiagnostics,
    OpenFile,
    OpenSettings,
    OpenThemeEditor,
    PaletteBackspace,
    PaletteClose,
    PaletteConfirm,
    PaletteMoveDown,
    PaletteMoveUp,
    Paste,
    PrevBottomPanelTab,
    PrevTab,
    Quit,
    Redo,
    ReloadFromDisk,
    ReloadSettings,
    RemoveSecondaryCursors,
    Save,
    SearchResultsMoveDown,
    SearchResultsMoveUp,
    SearchResultsOpenSelected,
    SearchResultsScrollDown,
    SearchResultsScrollUp,
    SearchResultsToggleExpand,
    SelectAll,
    SplitEditorHorizontal,
    SplitEditorVertical,
    ToggleBottomPanel,
    ToggleSidebar,
    ToggleSidebarTab,
    Undo,
}

/// The kind of an action dispatched to the store (its variant, without payload).
#[derive(Debug, Clone, Copy, PartialEq, Eq, Structural)]
pub enum ActionKind {
    RunCommand,
    Editor,
    Tick,
    LspCompletion,
    LspCompletionResolved,
    LspSemanticTokens,
    LspSemanticTokensRange,
    LspInlayHints,
    LspFoldingRanges,
    LspDiagnostics,
    LspHover,
    LspHoverClear,
    LspHoverResponse,
    LspHoverImplementationPreview,
    LspHoverDefinitionPreview,
    LspDefinition,
    LspReferences,
    LspCodeActions,
    LspSymbols,
    LspSignatureHelp,
    LspApplyWorkspaceEdit,
    LspServerCapabilities,
    LspFormatCompleted,
    LspProgressEnd,
    SearchMessage,
    SearchStarted,
    DirLoaded,
    DirLoadError,
    GitStatusUpdated,
    GitDiffUpdated,
    TerminalOutput,
    CompletionClose,
    CompletionConfirm,
    CompletionMoveSelection,
    PaletteAppend,
    SearchAppend,
    ContextMenuOpen,
    ExplorerActivate,
    TerminalWrite,
}

/// The kind of an editor action (its variant, without payload).
#[derive(Debug, Clone, Copy, PartialEq, Eq, Structural)]
pub enum EditorActionKind {
    ApplySyntaxHighlightPatches,
    ApplyTextEditToTab,
    CloseTabAt,
    CloseTabsById,
    GotoByteOffset,
    MoveTab,
    OpenFile,
    Saved,
    SearchMessage,
    SearchStarted,
    SetActiveTab,
    SetViewportSize,
}

/// Tabs of the bottom panel.
#[derive(Debug, Clone, Copy, PartialEq, Eq, Structural)]
pub enum BottomPanelTab {
    Problems,
    CodeActions,
    Locations,
    Symbols,
    SearchResults,
    Logs,
    Terminal,
}

/// Where keyboard focus is.
#[derive(Debug, Clone, Copy, PartialEq, Eq, Structural)]
pub enum FocusTarget {
    Editor,
    Explorer,
    BottomPanel,
    CommandPalette,
    CommandLine,
    Overlay,
    ThemeEditor,
}

/// Tabs of the sidebar.
#[derive(Debug, Clone, Copy, PartialEq, Eq, Structural)]
pub enum SidebarTab {
    Explorer,
    Search,
}

/// Where search results are shown.
#[derive(Debug, Clone, Copy, PartialEq, Eq, Structural)]
pub enum SearchViewport {
    Sidebar,
    BottomPanel,
}

/// The bottom panel's state that the store reads.
#[derive(Debug, Clone, Copy, PartialEq, Eq, Structural)]
pub struct BottomPanelState {
    pub visible: bool,
    pub active_tab: BottomPanelTab,
}

/// What the centred overlay shows: LSP lists, diagnostics and search results.
#[derive(Debug, Clone, Copy, PartialEq, Eq, Structural)]
pub enum OverlayKind {
    Search,
    Problems,
    CodeActions,
    Locations,
    Symbols,
}

/// The centred overlay: the kind it shows, none when it is closed.
#[derive(Debug, Clone, Copy, PartialEq, Eq, Structural)]
pub struct OverlayState {
    pub active: Option<OverlayKind>,
}

impl OverlayState {
    /// The overlay showing `kind`.
    pub open spec fn opened(self, kind: OverlayKind) -> OverlayState {
        OverlayState { active: Some(kind) }
    }

    /// Shows `kind`; whether that changed what is shown.
    pub fn open(&mut self, kind: OverlayKind) -> (changed: bool)
        ensures
            *final(self) == old(self).opened(kind),
            changed == (old(self).active != Some(kind)),
    {
        let changed = match self.active {
            Some(k) => k != kind,
            None => true,
        };
        self.active = Some(kind);
        changed
    }

    /// Closes the overlay; whether it was open.
    pub fn close(&mut self) -> (changed: bool)
        ensures
            final(self).active is None,
            changed == old(self).active is Some,
    {
        let changed = self.active.is_some();
        self.active = None;
        changed
    }

    /// Whether the overlay is open.
    pub fn is_visible(&self) -> (r: bool)
        ensures
            r == self.active is Some,
    {
        self.active.is_some()
    }
}

/// Whether opening `kind` changes what the overlay shows.
pub open spec fn overlay_changed(o: OverlayState, kind: OverlayKind) -> bool {
    o.active != Some(kind)
}

/// How the editor area is split: side by side or one above the other.
#[derive(Debug, Clone, Copy, PartialEq, Eq, Structural)]
pub enum SplitDirection {
    Vertical,
    Horizontal,
}

/// The editor area's layout: how many panes it shows, which one is active, and how
/// it is split.
#[derive(Debug, Clone, Copy, PartialEq, Eq, Structural)]
pub struct EditorLayoutState {
    pub panes: usize,
    pub active_pane: usize,
    pub split_direction: SplitDirection,
}

/// The command palette: whether it shows, the query typed into it, and the selected
/// match.
#[derive(Debug, Clone)]
pub struct CommandPaletteState {
    pub visible: bool,
    pub query: String,
    pub selected: usize,
}

/// A hidden palette with an empty query and the first match selected.
pub open spec fn palette_closed(p: CommandPaletteState) -> bool {
    !p.visible && p.query@.len() == 0 && p.selected == 0
}

impl CommandPaletteState {
    /// A hidden palette with an empty query.
    pub fn closed() -> (p: Self)
        ensures
            palette_closed(p),
    {
        CommandPaletteState { visible: false, query: String::new(), selected: 0 }
    }

    /// Hides the palette and clears its query and selection.
    pub fn reset(&mut self)
        ensures
            palette_closed(*final(self)),
    {
        self.visible = false;
        self.query = String::new();
        self.selected = 0;
    }
}

/// The UI state that the store reads: focus, sidebar, bottom panel, overlay, which
/// modal prompts are shown (the command palette, the input and confirm dialogs with their contents), the editor layout, and the context menu.
#[derive(Debug, Clone)]
pub struct UiState {
    pub focus: FocusTarget,
    pub sidebar_tab: SidebarTab,
    pub bottom_panel: BottomPanelState,
    pub overlay: OverlayState,
    pub sidebar_visible: bool,
    pub git_panel_expanded: bool,
    pub should_quit: bool,
    pub command_palette: CommandPaletteState,
    pub input_dialog: InputDialogState,
    pub confirm_dialog: ConfirmDialogState,
    pub editor_layout: EditorLayoutState,
    pub context_menu: ContextMenuState,
}

/// The application state that the store's reducers read and change: the UI, the
/// editor, and the workspace root.
pub struct AppState {
    pub ui: UiState,
    pub editor: EditorState,
    pub workspace_root: String,
}

} // verus!
