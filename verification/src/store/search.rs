//! Opening a global-search result: which file and byte offset a result row leads to.

use vstd::prelude::*;

use crate::kernel::{FocusTarget, OverlayKind, SearchViewport, UiState};
use crate::editor::EditorState;
use crate::store::util::{find_open_tab, open_tab_choice, search_viewport_for_focus, search_viewport_spec};

verus! {

/// A match of a search, by its byte range in the file.
#[derive(Debug, Clone, Copy, PartialEq, Eq, Structural)]
pub struct SearchMatch {
    pub start: usize,
    pub end: usize,
}

/// The matches of a search in one file.
#[derive(Debug, Clone)]
pub struct SearchFile {
    pub path: String,
    pub matches: Vec<SearchMatch>,
}

/// The results of a global search, file by file, with the rows shown for them and
/// the selected row.
#[derive(Debug, Clone)]
pub struct SearchState {
    pub files: Vec<SearchFile>,
    pub items: Vec<SearchResultItem>,
    pub selected_index: usize,
}

/// A row of the search results: a file's header or one of its matches.
#[derive(Debug, Clone, Copy, PartialEq, Eq, Structural)]
pub enum SearchResultItem {
    FileHeader { file_index: usize },
    MatchLine { file_index: usize, match_index: usize },
}

/// Where opening a result row goes: a file header opens its file at its first match
/// (at its start without matches), a match line at that match; none for a row past
/// the results.
pub fn search_open_target(search: &SearchState, item: SearchResultItem) -> (r: Option<(String, usize)>)
    ensures
        match item {
            SearchResultItem::FileHeader { file_index } => if file_index < search.files@.len() {
                let file = search.files@[file_index as int];
                r is Some && r.unwrap().0@ == file.path@ && r.unwrap().1 == if file.matches@.len() > 0 {
                    file.matches@[0].start
                } else {
                    0
                }
            } else {
                r is None
            },
            SearchResultItem::MatchLine { file_index, match_index } => if file_index < search.files@.len()
                && match_index < search.files@[file_index as int].matches@.len() {
                let file = search.files@[file_index as int];
                r is Some && r.unwrap().0@ == file.path@ && r.unwrap().1 == file.matches@[match_index as int].start
            } else {
                r is None
            },
        },
{
    match item {
        SearchResultItem::FileHeader { file_index } => {
            if file_index >= search.files.len() {
                return None;
            }
            let file = &search.files[file_index];
            let byte_offset = if file.matches.len() > 0 {
                file.matches[0].start
            } else {
                0
            };
            Some((file.path.clone(), byte_offset))
        },
        SearchResultItem::MatchLine { file_index, match_index } => {
            if file_index >= search.files.len() {
                return None;
            }
            let file = &search.files[file_index];
            if match_index >= file.matches.len() {
                return None;
            }
            Some((file.path.clone(), file.matches[match_index].start))
        },
    }
}

/// A list of results that moving and scrolling commands act on.
#[derive(Debug, Clone, Copy, PartialEq, Eq, Structural)]
pub enum ResultsList {
    Search(SearchViewport),
    Problems,
    CodeActions,
    Locations,
    Symbols,
}

/// The list that result moves and scrolls go to: the search results wherever they
/// show for the focus, else the list of the overlay when it holds the focus; none
/// otherwise, for an overlay that shows the search too.
pub open spec fn results_list_spec(ui: UiState) -> Option<ResultsList> {
    match search_viewport_spec(ui) {
        Some(v) => Some(ResultsList::Search(v)),
        None => if ui.focus == FocusTarget::Overlay {
            match ui.overlay.active {
                Some(OverlayKind::Problems) => Some(ResultsList::Problems),
                Some(OverlayKind::CodeActions) => Some(ResultsList::CodeActions),
                Some(OverlayKind::Locations) => Some(ResultsList::Locations),
                Some(OverlayKind::Symbols) => Some(ResultsList::Symbols),
                _ => None,
            }
        } else {
            None
        },
    }
}

/// The list that the move and scroll commands of the results act on for `ui`.
pub fn results_list_for_focus(ui: &UiState) -> (r: Option<ResultsList>)
    ensures
        r == results_list_spec(*ui),
{
    match search_viewport_for_focus(ui) {
        Some(v) => Some(ResultsList::Search(v)),
        None => {
            if ui.focus == FocusTarget::Overlay {
                match ui.overlay.active {
                    Some(OverlayKind::Problems) => Some(ResultsList::Problems),
                    Some(OverlayKind::CodeActions) => Some(ResultsList::CodeActions),
                    Some(OverlayKind::Locations) => Some(ResultsList::Locations),
                    Some(OverlayKind::Symbols) => Some(ResultsList::Symbols),
                    _ => None,
                }
            } else {
                None
            }
        },
    }
}

/// Where opening the selected search result goes: an open tab (made active, then
/// moved to the byte offset), or a file to load in `pane` and then move to the offset.
#[derive(Debug, Clone, PartialEq, Eq)]
pub enum SearchNavigation {
    OpenTab { pane: usize, tab: usize, byte_offset: usize },
    LoadFile { pane: usize, path: String, byte_offset: usize },
}

/// Opening the selected search result, with the search results in view: none when
/// no row is selected or the row leads nowhere; else the open tab on its file that
/// `find_open_tab` picks from `active_pane`, or, without one, loading the file in
/// `active_pane`. Either way the focus then goes to the editor.
pub fn search_open_selected(
    ui: &UiState,
    search: &SearchState,
    editor: &EditorState,
    active_pane: usize,
) -> (r: Option<SearchNavigation>)
    ensures
        search_viewport_spec(*ui) is None || search.selected_index >= search.items@.len() ==> r is None,
        search_viewport_spec(*ui) is Some && search.selected_index < search.items@.len() ==> {
            let item = search.items@[search.selected_index as int];
            match r {
                None => !search_target_exists(search, item),
                Some(SearchNavigation::OpenTab { pane, tab, byte_offset }) => search_target_exists(search, item)
                    && byte_offset == search_target_offset(search, item) && open_tab_choice(
                    editor,
                    active_pane,
                    search_target_path(search, item),
                    Some((pane, tab)),
                ),
                Some(SearchNavigation::LoadFile { pane, path, byte_offset }) => search_target_exists(search, item)
                    && pane == active_pane && path@ == search_target_path(search, item) && byte_offset
                    == search_target_offset(search, item) && open_tab_choice(
                    editor,
                    active_pane,
                    path@,
                    None,
                ),
            }
        },
{
    if search_viewport_for_focus(ui).is_none() {
        return None;
    }
    if search.selected_index >= search.items.len() {
        return None;
    }
    let item = search.items[search.selected_index];
    let (path, byte_offset) = match search_open_target(search, item) {
        Some(t) => t,
        None => return None,
    };
    match find_open_tab(editor, active_pane, path.as_str()) {
        Some((pane, tab)) => Some(SearchNavigation::OpenTab { pane, tab, byte_offset }),
        None => Some(SearchNavigation::LoadFile { pane: active_pane, path, byte_offset }),
    }
}

/// Whether a result row leads to a file: its file exists and, for a match line, so
/// does its match.
pub open spec fn search_target_exists(search: &SearchState, item: SearchResultItem) -> bool {
    match item {
        SearchResultItem::FileHeader { file_index } => file_index < search.files@.len(),
        SearchResultItem::MatchLine { file_index, match_index } => file_index < search.files@.len()
            && match_index < search.files@[file_index as int].matches@.len(),
    }
}

/// The file a result row leads to.
pub open spec fn search_target_path(search: &SearchState, item: SearchResultItem) -> Seq<char> {
    match item {
        SearchResultItem::FileHeader { file_index } => search.files@[file_index as int].path@,
        SearchResultItem::MatchLine { file_index, .. } => search.files@[file_index as int].path@,
    }
}

/// The byte offset a result row leads to: the file's first match for a header (its
/// start without matches), the row's match otherwise.
pub open spec fn search_target_offset(search: &SearchState, item: SearchResultItem) -> usize {
    match item {
        SearchResultItem::FileHeader { file_index } => {
            let file = search.files@[file_index as int];
            if file.matches@.len() > 0 {
                file.matches@[0].start
            } else {
                0
            }
        },
        SearchResultItem::MatchLine { file_index, match_index } => search.files@[file_index as int].matches@[
            match_index as int].start,
    }
}

} // verus!
