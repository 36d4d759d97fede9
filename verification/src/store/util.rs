//! Small queries of the store: following file renames, where search results show,
//! cycling bottom-panel tabs, and finding the tabs open on a path.

use std::collections::HashMap;
use vstd::prelude::*;

use crate::editor::EditorState;
use crate::kernel::{BottomPanelTab, FocusTarget, SearchViewport, SidebarTab, UiState};
use crate::text::str_eq;

verus! {

/// The renames a map holds: old path to new path.
pub uninterp spec fn rename_map(m: HashMap<String, String>) -> Map<Seq<char>, Seq<char>>;

/// `HashMap::get(..).cloned()` on the renames: where `path` was renamed to, if it was.
#[verifier::external_body]
fn rename_target(renames: &HashMap<String, String>, path: &str) -> (r: Option<String>)
    ensures
        match r {
            Some(next) => rename_map(*renames).contains_key(path@) && next@ == rename_map(*renames)[path@],
            None => !rename_map(*renames).contains_key(path@),
        },
{
    renames.get(path).cloned()
}

/// Follows renames from `p` for at most `n` more steps, stopping at a path that is not
/// renamed or is renamed to itself.
pub open spec fn follow_renames(m: Map<Seq<char>, Seq<char>>, p: Seq<char>, n: nat) -> Seq<char>
    decreases n,
{
    if n == 0 || !m.contains_key(p) || m[p] == p {
        p
    } else {
        follow_renames(m, m[p], (n - 1) as nat)
    }
}

/// Where `path` ended up after renames: followed for at most 17 steps.
pub fn resolve_renamed_path(path: String, renames: &HashMap<String, String>) -> (r: String)
    ensures
        r@ == follow_renames(rename_map(*renames), path@, 17),
{
    let ghost m = rename_map(*renames);
    let ghost orig = path@;
    let mut cur = path;
    let mut hops: usize = 0;
    loop
        invariant
            hops <= 16,
            m == rename_map(*renames),
            orig == path@,
            follow_renames(m, cur@, (17 - hops) as nat) == follow_renames(m, orig, 17),
        decreases 17 - hops,
    {
        let next = match rename_target(renames, cur.as_str()) {
            Some(n) => n,
            None => return cur,
        };
        if str_eq(next.as_str(), cur.as_str()) {
            return cur;
        }
        proof {
            assert(follow_renames(m, cur@, (17 - hops) as nat) == follow_renames(m, next@, (17 - hops - 1) as nat));
        }
        cur = next;
        hops += 1;
        if hops > 16 {
            return cur;
        }
    }
}

/// Where search results show for the focus: the sidebar when the explorer is focused
/// on its search tab, the bottom panel when it is focused on its results tab.
pub open spec fn search_viewport_spec(ui: UiState) -> Option<SearchViewport> {
    if ui.focus == FocusTarget::Explorer && ui.sidebar_tab == SidebarTab::Search {
        Some(SearchViewport::Sidebar)
    } else if ui.focus == FocusTarget::BottomPanel && ui.bottom_panel.active_tab == BottomPanelTab::SearchResults {
        Some(SearchViewport::BottomPanel)
    } else {
        None
    }
}

/// Where search results show for the current focus, if anywhere.
pub fn search_viewport_for_focus(ui: &UiState) -> (r: Option<SearchViewport>)
    ensures
        r == search_viewport_spec(*ui),
{
    match ui.focus {
        FocusTarget::Explorer => if ui.sidebar_tab == SidebarTab::Search {
            Some(SearchViewport::Sidebar)
        } else {
            None
        },
        FocusTarget::BottomPanel => if ui.bottom_panel.active_tab == BottomPanelTab::SearchResults {
            Some(SearchViewport::BottomPanel)
        } else {
            None
        },
        _ => None,
    }
}

/// The bottom panel's tabs, in display order.
pub open spec fn bottom_panel_tab_order() -> Seq<BottomPanelTab> {
    seq![
        BottomPanelTab::Problems,
        BottomPanelTab::CodeActions,
        BottomPanelTab::Locations,
        BottomPanelTab::Symbols,
        BottomPanelTab::SearchResults,
        BottomPanelTab::Logs,
        BottomPanelTab::Terminal,
    ]
}

/// The bottom panel's tabs, in display order.
pub fn bottom_panel_tabs() -> (v: Vec<BottomPanelTab>)
    ensures
        v@ == bottom_panel_tab_order(),
{
    let v = vec![
        BottomPanelTab::Problems,
        BottomPanelTab::CodeActions,
        BottomPanelTab::Locations,
        BottomPanelTab::Symbols,
        BottomPanelTab::SearchResults,
        BottomPanelTab::Logs,
        BottomPanelTab::Terminal,
    ];
    assert(v@ =~= bottom_panel_tab_order());
    v
}

/// The first position of `x` in `s`, or zero when absent.
pub open spec fn position_or_zero(s: Seq<BottomPanelTab>, x: BottomPanelTab) -> int
    decreases s.len(),
{
    if s.len() == 0 {
        0
    } else if s.last() == x && !s.drop_last().contains(x) {
        s.len() - 1
    } else {
        position_or_zero(s.drop_last(), x)
    }
}

fn tab_position(tabs: &[BottomPanelTab], current: BottomPanelTab) -> (r: usize)
    ensures
        r == position_or_zero(tabs@, current),
        tabs@.len() > 0 ==> r < tabs@.len(),
        tabs@.contains(current) ==> tabs@[r as int] == current,
        forall|k: int| 0 <= k < r ==> tabs@[k] != current,
{
    let mut i: usize = 0;
    while i < tabs.len()
        invariant
            i <= tabs@.len(),
            forall|k: int| 0 <= k < i ==> tabs@[k] != current,
        decreases tabs@.len() - i,
    {
        if tabs[i] == current {
            proof {
                lemma_position_first(tabs@, current, i as int);
            }
            return i;
        }
        i += 1;
    }
    proof {
        lemma_position_absent(tabs@, current);
    }
    0
}

proof fn lemma_position_first(s: Seq<BottomPanelTab>, x: BottomPanelTab, i: int)
    requires
        0 <= i < s.len(),
        s[i] == x,
        forall|k: int| 0 <= k < i ==> s[k] != x,
    ensures
        position_or_zero(s, x) == i,
    decreases s.len(),
{
    if i < s.len() - 1 {
        assert(s.last() == x ==> s.drop_last().contains(x)) by {
            if s.last() == x {
                assert(s.drop_last()[i] == x);
            }
        }
        lemma_position_first(s.drop_last(), x, i);
    } else {
        assert(!s.drop_last().contains(x)) by {
            if s.drop_last().contains(x) {
                let k = choose|k: int| 0 <= k < s.drop_last().len() && s.drop_last()[k] == x;
                assert(s[k] == x);
            }
        }
    }
}

proof fn lemma_position_absent(s: Seq<BottomPanelTab>, x: BottomPanelTab)
    requires
        forall|k: int| 0 <= k < s.len() ==> s[k] != x,
    ensures
        position_or_zero(s, x) == 0,
        !s.contains(x),
    decreases s.len(),
{
    if s.len() > 0 {
        lemma_position_absent(s.drop_last(), x);
    }
}

/// The tab after `current` (from the first when `current` is not listed), wrapping
/// around; none without tabs.
pub fn next_bottom_panel_tab(tabs: &[BottomPanelTab], current: &BottomPanelTab) -> (r: Option<BottomPanelTab>)
    ensures
        tabs@.len() == 0 ==> r is None,
        tabs@.len() > 0 ==> r == Some(tabs@[(position_or_zero(tabs@, *current) + 1) % (tabs@.len() as int)]),
{
    if tabs.len() == 0 {
        return None;
    }
    let idx = tab_position(tabs, *current);
    Some(tabs[(idx + 1) % tabs.len()])
}

/// The tab before `current` (from the first when `current` is not listed), wrapping
/// around; none without tabs.
pub fn prev_bottom_panel_tab(tabs: &[BottomPanelTab], current: &BottomPanelTab) -> (r: Option<BottomPanelTab>)
    ensures
        tabs@.len() == 0 ==> r is None,
        tabs@.len() > 0 ==> r == Some(
            tabs@[if position_or_zero(tabs@, *current) == 0 {
                tabs@.len() - 1
            } else {
                position_or_zero(tabs@, *current) - 1
            }],
        ),
{
    if tabs.len() == 0 {
        return None;
    }
    let idx = tab_position(tabs, *current);
    let prev = if idx == 0 {
        tabs.len() - 1
    } else {
        idx - 1
    };
    Some(tabs[prev])
}

/// With distinct tabs, going to the next tab and then back returns to a listed tab,
/// and going back and then forward does too.
pub proof fn law_next_prev_bottom_panel_tab_inverse(tabs: Seq<BottomPanelTab>, current: BottomPanelTab)
    requires
        tabs.no_duplicates(),
        tabs.contains(current),
    ensures
        ({
            let n = tabs.len() as int;
            let i = position_or_zero(tabs, current);
            let next = tabs[(i + 1) % n];
            let prev = tabs[if i == 0 {
                n - 1
            } else {
                i - 1
            }];
            &&& tabs[if position_or_zero(tabs, next) == 0 {
                n - 1
            } else {
                position_or_zero(tabs, next) - 1
            }] == current
            &&& tabs[(position_or_zero(tabs, prev) + 1) % n] == current
        }),
{
    let n = tabs.len() as int;
    let i = choose|i: int| 0 <= i < n && tabs[i] == current;
    lemma_position_of_distinct(tabs, i);
    let j = (i + 1) % n;
    let p = if i == 0 {
        n - 1
    } else {
        i - 1
    };
    assert(0 <= j < n) by (nonlinear_arith)
        requires
            0 <= i < n,
            j == (i + 1) % n,
    ;
    lemma_position_of_distinct(tabs, j);
    lemma_position_of_distinct(tabs, p);
    assert(j == 0 ==> i == n - 1) by (nonlinear_arith)
        requires
            0 <= i < n,
            j == (i + 1) % n,
    ;
    assert(j != 0 ==> j == i + 1) by (nonlinear_arith)
        requires
            0 <= i < n,
            j == (i + 1) % n,
    ;
    assert((p + 1) % n == i) by (nonlinear_arith)
        requires
            0 <= i < n,
            p == if i == 0 {
                n - 1
            } else {
                i - 1
            },
    ;
}

/// In a list without duplicates, the position of an element is where it stands.
pub proof fn lemma_position_of_distinct(s: Seq<BottomPanelTab>, i: int)
    requires
        s.no_duplicates(),
        0 <= i < s.len(),
    ensures
        position_or_zero(s, s[i]) == i,
{
    lemma_position_first(s, s[i], i);
}

/// The first tab open on `path`: in the preferred pane first, then in the other panes
/// in order; each as `(pane, tab index)`.
pub open spec fn tab_has_path(editor: &EditorState, pane: int, tab: int, path: Seq<char>) -> bool {
    editor.panes@[pane].tabs@[tab].path matches Some(p) && p@ == path
}

fn first_tab_with_path(editor: &EditorState, pane: usize, path: &str) -> (r: Option<usize>)
    requires
        pane < editor.panes@.len(),
    ensures
        match r {
            Some(i) => i < editor.panes@[pane as int].tabs@.len() && tab_has_path(editor, pane as int, i as int, path@)
                && forall|k: int| 0 <= k < i ==> !tab_has_path(editor, pane as int, k, path@),
            None => forall|k: int|
                0 <= k < editor.panes@[pane as int].tabs@.len() ==> !tab_has_path(editor, pane as int, k, path@),
        },
{
    let tabs = &editor.panes[pane].tabs;
    let mut i: usize = 0;
    while i < tabs.len()
        invariant
            i <= tabs@.len(),
            *tabs == editor.panes@[pane as int].tabs,
            forall|k: int| 0 <= k < i ==> !tab_has_path(editor, pane as int, k, path@),
        decreases tabs@.len() - i,
    {
        let matches = match &tabs[i].path {
            Some(p) => str_eq(p.as_str(), path),
            None => false,
        };
        if matches {
            return Some(i);
        }
        i += 1;
    }
    None
}

/// Whether `r` is the open tab that `find_open_tab` picks for `path`: the first one
/// in `preferred_pane`, else the first one in the lowest other pane that has one; none
/// when no tab is open on it.
pub open spec fn open_tab_choice(
    editor: &EditorState,
    preferred_pane: usize,
    path: Seq<char>,
    r: Option<(usize, usize)>,
) -> bool {
        match r {
            Some((pane, tab)) => {
                &&& pane < editor.panes@.len()
                &&& tab < editor.panes@[pane as int].tabs@.len()
                &&& tab_has_path(editor, pane as int, tab as int, path)
                &&& forall|k: int| 0 <= k < tab ==> !tab_has_path(editor, pane as int, k, path)
                &&& pane != preferred_pane ==> {
                    &&& (preferred_pane < editor.panes@.len() ==> forall|k: int|
                        0 <= k < editor.panes@[preferred_pane as int].tabs@.len() ==> !tab_has_path(
                            editor,
                            preferred_pane as int,
                            k,
                            path,
                        ))
                    &&& forall|q: int, k: int|
                        0 <= q < pane && q != preferred_pane && 0 <= k < editor.panes@[q].tabs@.len() ==> !tab_has_path(
                            editor,
                            q,
                            k,
                            path,
                        )
                }
            },
            None => forall|q: int, k: int|
                0 <= q < editor.panes@.len() && 0 <= k < editor.panes@[q].tabs@.len() ==> !tab_has_path(editor, q, k, path),
        }
}

/// A tab open on `path`: the first one in `preferred_pane`, else the first one in the
/// lowest other pane that has one.
pub fn find_open_tab(editor: &EditorState, preferred_pane: usize, path: &str) -> (r: Option<(usize, usize)>)
    ensures
        open_tab_choice(editor, preferred_pane, path@, r),
{
    if preferred_pane < editor.panes.len() {
        if let Some(index) = first_tab_with_path(editor, preferred_pane, path) {
            return Some((preferred_pane, index));
        }
    }
    let mut pane: usize = 0;
    while pane < editor.panes.len()
        invariant
            pane <= editor.panes@.len(),
            preferred_pane < editor.panes@.len() ==> forall|k: int|
                0 <= k < editor.panes@[preferred_pane as int].tabs@.len() ==> !tab_has_path(
                    editor,
                    preferred_pane as int,
                    k,
                    path@,
                ),
            forall|q: int, k: int|
                0 <= q < pane && q != preferred_pane && 0 <= k < editor.panes@[q].tabs@.len() ==> !tab_has_path(
                    editor,
                    q,
                    k,
                    path@,
                ),
        decreases editor.panes@.len() - pane,
    {
        if pane != preferred_pane {
            if let Some(index) = first_tab_with_path(editor, pane, path) {
                return Some((pane, index));
            }
        }
        pane += 1;
    }
    None
}

/// Every tab open on `path`, as `(pane, tab index)`, pane by pane in order.
pub open spec fn tabs_with_path(editor: &EditorState, path: Seq<char>, upto_pane: int) -> Seq<(usize, usize)>
    decreases upto_pane,
{
    if upto_pane <= 0 {
        Seq::empty()
    } else {
        tabs_with_path(editor, path, upto_pane - 1) + tabs_in_pane(editor, path, upto_pane - 1, editor.panes@[upto_pane
            - 1].tabs@.len() as int)
    }
}

/// The tabs of pane `pane` before `upto` that are open on `path`.
pub open spec fn tabs_in_pane(editor: &EditorState, path: Seq<char>, pane: int, upto: int) -> Seq<(usize, usize)>
    decreases upto,
{
    if upto <= 0 {
        Seq::empty()
    } else {
        let rest = tabs_in_pane(editor, path, pane, upto - 1);
        if tab_has_path(editor, pane, upto - 1, path) {
            rest.push((pane as usize, (upto - 1) as usize))
        } else {
            rest
        }
    }
}

/// Every tab open on `path`, as `(pane, tab index)`, in pane and tab order.
pub fn open_tabs_for_path(editor: &EditorState, path: &str) -> (r: Vec<(usize, usize)>)
    ensures
        r@ == tabs_with_path(editor, path@, editor.panes@.len() as int),
{
    let mut out: Vec<(usize, usize)> = Vec::new();
    let mut pane: usize = 0;
    while pane < editor.panes.len()
        invariant
            pane <= editor.panes@.len(),
            out@ == tabs_with_path(editor, path@, pane as int),
        decreases editor.panes@.len() - pane,
    {
        let tabs = &editor.panes[pane].tabs;
        let ghost base = out@;
        let mut i: usize = 0;
        while i < tabs.len()
            invariant
                pane < editor.panes@.len(),
                i <= tabs@.len(),
                *tabs == editor.panes@[pane as int].tabs,
                base == tabs_with_path(editor, path@, pane as int),
                out@ == base + tabs_in_pane(editor, path@, pane as int, i as int),
            decreases tabs@.len() - i,
        {
            let matches = match &tabs[i].path {
                Some(p) => str_eq(p.as_str(), path),
                None => false,
            };
            if matches {
                out.push((pane, i));
            }
            proof {
                assert(out@ =~= base + tabs_in_pane(editor, path@, pane as int, i + 1));
            }
            i += 1;
        }
        pane += 1;
    }
    out
}

/// A path whose text every platform splits the same way: no backslash, no `:` and no
/// leading `//`, so no platform reads a prefix into it and `/` is its only separator.
pub open spec fn portable_path(p: Seq<char>) -> bool {
    &&& !p.contains('\\')
    &&& !p.contains(':')
    &&& !(p.len() >= 2 && p[0] == '/' && p[1] == '/')
}

/// The last component of `p` before the segment `cur` (already read from the end):
/// empty segments and `.` segments are skipped, a leading `.` is no component.
pub open spec fn last_component(p: Seq<char>, cur: Seq<char>) -> Option<Seq<char>>
    decreases p.len(),
{
    if p.len() == 0 {
        if cur.len() == 0 || cur == seq!['.'] {
            None
        } else {
            Some(cur)
        }
    } else if p.last() == '/' {
        if cur.len() == 0 || cur == seq!['.'] {
            last_component(p.drop_last(), Seq::empty())
        } else {
            Some(cur)
        }
    } else {
        last_component(p.drop_last(), seq![p.last()] + cur)
    }
}

/// `Path::file_name` on a portable path: its last component, none when that is `..`
/// or when there is none.
pub open spec fn path_file_name(p: Seq<char>) -> Option<Seq<char>> {
    match last_component(p, Seq::empty()) {
        Some(s) => if s == seq!['.', '.'] {
            None
        } else {
            Some(s)
        },
        None => None,
    }
}

/// Index of the last `.` of `s`, or -1.
pub open spec fn last_dot(s: Seq<char>) -> int
    decreases s.len(),
{
    if s.len() == 0 {
        -1
    } else if s.last() == '.' {
        s.len() - 1
    } else {
        last_dot(s.drop_last())
    }
}

/// `Path::extension` on a portable path: what follows the last `.` of the file name;
/// none without a file name, without a `.`, or when the only `.` starts the name.
pub open spec fn path_extension(p: Seq<char>) -> Option<Seq<char>> {
    match path_file_name(p) {
        Some(name) => {
            let d = last_dot(name);
            if d <= 0 {
                None
            } else {
                Some(name.subrange(d + 1, name.len() as int))
            }
        },
        None => None,
    }
}

/// `Path::extension` of `path`, as a string. On a portable path it is what the
/// documentation of `Path::extension` and `Path::components` describes, as
/// `path_extension` states it; on other paths the file name depends on the
/// platform's prefixes and separators, and nothing is stated.
#[verifier::external_body]
fn extension_of(path: &str) -> (r: Option<String>)
    ensures
        portable_path(path@) ==> match r {
            Some(e) => path_extension(path@) == Some(e@),
            None => path_extension(path@) is None,
        },
{
    std::path::Path::new(path).extension().and_then(|s| s.to_str()).map(|s| s.to_string())
}

/// Whether a file extension is Rust's: exactly `rs`.
pub fn is_rust_extension(extension: Option<&str>) -> (r: bool)
    ensures
        r == (extension matches Some(e) && e@ == "rs"@),
{
    match extension {
        Some(e) => str_eq(e, "rs"),
        None => false,
    }
}

/// Whether a path names a Rust source file: its extension, as `Path::extension` finds
/// it, is `rs`. On a portable path that is `path_extension`; elsewhere it follows the
/// platform's path rules.
pub fn is_rust_source_path(path: &str) -> (r: bool)
    ensures
        portable_path(path@) ==> r == (path_extension(path@) == Some("rs"@)),
{
    let ext = extension_of(path);
    match &ext {
        Some(e) => is_rust_extension(Some(e.as_str())),
        None => is_rust_extension(None),
    }
}

} // verus!
