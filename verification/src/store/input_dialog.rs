//! The single-line input dialog: editing its value around a byte cursor, and
//! accepting it (checked against what the dialog asks for) or cancelling it.

use vstd::prelude::*;

use crate::kernel::{AppState, BottomPanelTab, FocusTarget};
use crate::store::{char_at_byte, char_boundary, char_index_of_byte, DispatchResult};
use crate::text::{
    is_whitespace, lemma_utf8_len_take_mono, len_utf8, str_chars, string_from_chars, unicode_whitespace, utf8_len,
    utf8_width,
};

verus! {

/// What an input dialog asks for.
#[derive(Debug, Clone)]
pub enum InputDialogKind {
    NewFile { parent_dir: String },
    NewFolder { parent_dir: String },
    ExplorerRename { from: String },
    LspRename { path: String, line: u32, column: u32 },
    LspWorkspaceSymbols,
    GitWorktreeAdd { repo_root: String },
}

/// The input dialog: whether it shows, its value, the cursor as a byte offset into
/// the value, the error shown under it, and what it asks for.
#[derive(Debug, Clone)]
pub struct InputDialogState {
    pub visible: bool,
    pub value: String,
    pub cursor: usize,
    pub error: Option<String>,
    pub kind: Option<InputDialogKind>,
}

/// The dialog after `reset`: hidden and empty.
pub open spec fn dialog_reset(d: InputDialogState) -> bool {
    &&& !d.visible
    &&& d.value@.len() == 0
    &&& d.cursor == 0
    &&& d.error is None
    &&& d.kind is None
}

impl InputDialogState {
    /// A hidden, empty dialog.
    pub fn hidden() -> (d: Self)
        ensures
            dialog_reset(d),
    {
        InputDialogState { visible: false, value: String::new(), cursor: 0, error: None, kind: None }
    }
}

/// The cursor lies between chars of the value, and the value has room for one
/// more char within the largest `String`.
pub open spec fn dialog_wf(d: InputDialogState) -> bool {
    &&& char_boundary(d.value@, d.cursor as int)
    &&& utf8_len(d.value@) + 4 <= isize::MAX
}

/// An event for the input dialog.
#[derive(Debug, Clone, Copy, PartialEq, Eq, Structural)]
pub enum InputDialogAction {
    Append(char),
    Backspace,
    CursorLeft,
    CursorRight,
    Accept,
    Cancel,
}

/// What accepting the dialog asks to be done.
#[derive(Debug, Clone)]
pub enum InputDialogEffect {
    CreateFile { parent_dir: String, name: String },
    CreateDir { parent_dir: String, name: String },
    RenamePath { from: String, to: String },
    LspRenameRequest { path: String, line: u32, column: u32, new_name: String },
    ClearSymbols,
    LspWorkspaceSymbolsRequest { query: String },
    GitWorktreeAdd { repo_root: String, branch: String },
}

/// First index at or after `i` that is not white space, or the length.
pub open spec fn skip_ws(t: Seq<char>, i: int) -> int
    decreases t.len() - i,
{
    if i < 0 || i >= t.len() || !unicode_whitespace(t[i]) {
        i
    } else {
        skip_ws(t, i + 1)
    }
}

/// The end left after dropping white space before `j`.
pub open spec fn trim_end(t: Seq<char>, j: int) -> int
    decreases j,
{
    if j <= 0 || j > t.len() || !unicode_whitespace(t[j - 1]) {
        j
    } else {
        trim_end(t, j - 1)
    }
}

/// `str::trim`: the text without white space at either end.
pub open spec fn trimmed(t: Seq<char>) -> Seq<char> {
    let s = skip_ws(t, 0);
    let e = trim_end(t, t.len() as int);
    if s >= e {
        Seq::empty()
    } else {
        t.subrange(s, e)
    }
}

/// Whether `t` holds a white-space char.
pub open spec fn has_ws(t: Seq<char>) -> bool {
    exists|i: int| 0 <= i < t.len() && unicode_whitespace(#[trigger] t[i])
}

/// Whether `t` holds `..`.
pub open spec fn has_dot_dot(t: Seq<char>) -> bool {
    exists|i: int| 0 <= i < t.len() - 1 && #[trigger] t[i] == '.' && t[i + 1] == '.'
}

/// The error accepting the trimmed value `v` gives for `kind`, if any.
pub open spec fn accept_error(kind: InputDialogKind, v: Seq<char>) -> Option<Seq<char>> {
    match kind {
        InputDialogKind::NewFile { .. } | InputDialogKind::NewFolder { .. } | InputDialogKind::ExplorerRename {
            ..
        } => if v.len() == 0 {
            Some("Name required"@)
        } else if v.contains('/') || v.contains('\\') || v == seq!['.'] || v == seq!['.', '.'] {
            Some("Invalid name"@)
        } else {
            None
        },
        InputDialogKind::LspRename { .. } => if v.len() == 0 {
            Some("Name required"@)
        } else if has_ws(v) {
            Some("Name cannot contain spaces"@)
        } else {
            None
        },
        InputDialogKind::LspWorkspaceSymbols => if v.len() == 0 {
            Some("Query required"@)
        } else {
            None
        },
        InputDialogKind::GitWorktreeAdd { .. } => if v.len() == 0 {
            Some("Branch required"@)
        } else if has_ws(v) {
            Some("Branch cannot contain spaces"@)
        } else if v.contains('\\') || has_dot_dot(v) || v[0] == '/' {
            Some("Invalid branch"@)
        } else {
            None
        },
    }
}

/// `refs/heads/` as chars.
pub open spec fn heads_prefix() -> Seq<char> {
    seq!['r', 'e', 'f', 's', '/', 'h', 'e', 'a', 'd', 's', '/']
}

/// A branch name without a leading `refs/heads/`.
pub open spec fn branch_name(v: Seq<char>) -> Seq<char> {
    if heads_prefix().is_prefix_of(v) {
        v.skip(11)
    } else {
        v
    }
}

/// The dialog unchanged apart from its error, which becomes `msg`.
pub open spec fn error_set(o: InputDialogState, n: InputDialogState, msg: Seq<char>) -> bool {
    &&& n.visible == o.visible
    &&& n.value == o.value
    &&& n.cursor == o.cursor
    &&& n.kind == o.kind
    &&& n.error matches Some(e) && e@ == msg
}

/// What an input dialog event does to the dialog and what it reports (the rest of
/// the state is left to `input_dialog_post`).
pub open spec fn dialog_step(
    o: InputDialogState,
    a: InputDialogAction,
    n: InputDialogState,
    changed: bool,
    effects: Seq<InputDialogEffect>,
) -> bool {
    let t = o.value@;
    let k = char_at_byte(t, o.cursor as int);
    if !o.visible {
        n == o && !changed && effects.len() == 0
    } else {
        match a {
            InputDialogAction::Append(ch) => {
                &&& n.visible && n.kind == o.kind && n.error is None
                &&& n.value@ == t.take(k) + seq![ch] + t.skip(k)
                &&& n.cursor == o.cursor + utf8_width(ch)
                &&& changed && effects.len() == 0
            },
            InputDialogAction::Backspace => if o.cursor == 0 {
                n == o && !changed && effects.len() == 0
            } else {
                &&& n.visible && n.kind == o.kind && n.error is None
                &&& n.value@ == t.take(k - 1) + t.skip(k)
                &&& n.cursor == utf8_len(t.take(k - 1))
                &&& changed && effects.len() == 0
            },
            InputDialogAction::CursorLeft => if o.cursor == 0 {
                n == o && !changed && effects.len() == 0
            } else {
                &&& n == (InputDialogState { cursor: utf8_len(t.take(k - 1)) as usize, ..o })
                &&& changed && effects.len() == 0
            },
            InputDialogAction::CursorRight => if o.cursor >= utf8_len(t) {
                n == o && !changed && effects.len() == 0
            } else {
                &&& n == (InputDialogState { cursor: utf8_len(t.take(k + 1)) as usize, ..o })
                &&& changed && effects.len() == 0
            },
            InputDialogAction::Cancel => dialog_reset(n) && changed && effects.len() == 0,
            InputDialogAction::Accept => match o.kind {
                None => dialog_reset(n) && changed && effects.len() == 0,
                Some(kind) => {
                    let v = trimmed(t);
                    match accept_error(kind, v) {
                        Some(msg) => {
                            &&& error_set(o, n, msg)
                            &&& changed == !(o.error matches Some(e) && e@ == msg)
                            &&& effects.len() == 0
                        },
                        None => {
                            &&& dialog_reset(n)
                            &&& changed
                            &&& accepted_effects(kind, v, effects)
                        },
                    }
                },
            },
        }
    }
}

/// The effects accepting value `v` asks for: the file or folder `v` under the parent,
/// a rename of the entry to `v` beside it (none when the target leaves the workspace
/// or does not change, which the platform's path rules decide), an LSP rename to
/// `v`, clearing the symbols and asking for those matching `v`, or a worktree for
/// the branch `v`.
pub open spec fn accepted_effects(kind: InputDialogKind, v: Seq<char>, effects: Seq<InputDialogEffect>) -> bool {
    match kind {
        InputDialogKind::NewFile { parent_dir } => {
            &&& effects.len() == 1
            &&& effects[0] matches InputDialogEffect::CreateFile { parent_dir: p, name } && p@ == parent_dir@ && name@
                == v
        },
        InputDialogKind::NewFolder { parent_dir } => {
            &&& effects.len() == 1
            &&& effects[0] matches InputDialogEffect::CreateDir { parent_dir: p, name } && p@ == parent_dir@ && name@
                == v
        },
        InputDialogKind::ExplorerRename { from } => {
            &&& effects.len() <= 1
            &&& effects.len() == 1 ==> (effects[0] matches InputDialogEffect::RenamePath { from: f, .. } && f@ == from@)
        },
        InputDialogKind::LspRename { path, line, column } => {
            &&& effects.len() == 1
            &&& effects[0] matches InputDialogEffect::LspRenameRequest { path: p, line: l, column: c, new_name } && p@
                == path@ && l == line && c == column && new_name@ == v
        },
        InputDialogKind::LspWorkspaceSymbols => {
            &&& effects.len() == 2
            &&& effects[0] is ClearSymbols
            &&& effects[1] matches InputDialogEffect::LspWorkspaceSymbolsRequest { query } && query@ == v
        },
        InputDialogKind::GitWorktreeAdd { repo_root } => {
            &&& effects.len() == 1
            &&& effects[0] matches InputDialogEffect::GitWorktreeAdd { repo_root: r, branch } && r@ == repo_root@
                && branch@ == branch_name(v)
        },
    }
}

/// What an input dialog event does to the application state: the dialog changes as
/// `dialog_step` says; accepting a workspace-symbol query also shows the bottom
/// panel on its symbols tab and focuses it; nothing else changes.
pub open spec fn input_dialog_post(o: AppState, a: InputDialogAction, n: AppState, r: DispatchResult<
    InputDialogEffect,
>) -> bool {
    let d = o.ui.input_dialog;
    let symbols = d.visible && a == InputDialogAction::Accept && (d.kind matches Some(
        InputDialogKind::LspWorkspaceSymbols,
    )) && accept_error(InputDialogKind::LspWorkspaceSymbols, trimmed(d.value@)) is None;
    &&& dialog_step(d, a, n.ui.input_dialog, r.state_changed, r.effects@)
    &&& n.editor == o.editor
    &&& n.workspace_root == o.workspace_root
    &&& n.ui.context_menu == o.ui.context_menu
    &&& n.ui.sidebar_tab == o.ui.sidebar_tab
    &&& n.ui.sidebar_visible == o.ui.sidebar_visible
    &&& n.ui.overlay == o.ui.overlay
    &&& n.ui.command_palette == o.ui.command_palette
    &&& n.ui.confirm_dialog == o.ui.confirm_dialog
    &&& n.ui.editor_layout == o.ui.editor_layout
    &&& if symbols {
        &&& n.ui.bottom_panel.visible
        &&& n.ui.bottom_panel.active_tab == BottomPanelTab::Symbols
        &&& n.ui.focus == FocusTarget::BottomPanel
    } else {
        &&& n.ui.bottom_panel == o.ui.bottom_panel
        &&& n.ui.focus == o.ui.focus
    }
}

/// A `String` holding `s`.
fn owned(s: &str) -> (r: String)
    ensures
        r@ == s@,
{
    let cs = str_chars(s);
    string_from_chars(cs.as_slice())
}

/// `Path::parent` of `p`, as a string. Which part is the parent depends on the
/// platform's separators, so nothing is stated of the result.
#[verifier::external_body]
fn path_parent(p: &str) -> (r: Option<String>) {
    std::path::Path::new(p).parent().map(|q| q.to_string_lossy().to_string())
}

/// `Path::join` of `name` onto `dir`, as a string. The separator it adds depends on
/// the platform, so nothing is stated of the result.
#[verifier::external_body]
fn path_join(dir: &str, name: &str) -> (r: String) {
    std::path::Path::new(dir).join(name).to_string_lossy().to_string()
}

/// `Path` equality of two paths (by components). Components depend on the
/// platform's separators, so nothing is stated of the result.
#[verifier::external_body]
pub(crate) fn path_eq(a: &str, b: &str) -> (r: bool) {
    std::path::Path::new(a) == std::path::Path::new(b)
}

/// `Path::starts_with` of `base` (by components). Components depend on the
/// platform's separators, so nothing is stated of the result.
#[verifier::external_body]
pub(crate) fn path_starts_with(p: &str, base: &str) -> (r: bool) {
    std::path::Path::new(p).starts_with(base)
}

/// An input dialog event keeps the cursor on a char boundary of the text.
pub proof fn lemma_dialog_step_keeps_char_boundary(
    o: InputDialogState,
    a: InputDialogAction,
    n: InputDialogState,
    changed: bool,
    effects: Seq<InputDialogEffect>,
)
    requires
        dialog_wf(o),
        dialog_step(o, a, n, changed, effects),
    ensures
        char_boundary(n.value@, n.cursor as int),
{
    let t = o.value@;
    let k = char_at_byte(t, o.cursor as int);
    assert(0 <= k <= t.len() && utf8_len(t.take(k)) == o.cursor);
    assert(t.take(0) =~= Seq::<char>::empty());
    if n.value@.len() == 0 && n.cursor == 0 {
        assert(utf8_len(n.value@.take(0)) == 0) by {
            assert(n.value@.take(0) =~= Seq::<char>::empty());
        }
    } else if n.value == o.value && n.cursor == o.cursor {
        assert(utf8_len(n.value@.take(k)) == n.cursor);
    } else if o.visible {
        match a {
            InputDialogAction::Append(ch) => {
                let nv = n.value@;
                assert(nv.take(k + 1) =~= t.take(k) + seq![ch]);
                lemma_utf8_len_concat(t.take(k), seq![ch]);
                assert(seq![ch].drop_last() =~= Seq::<char>::empty());
                assert(utf8_len(Seq::<char>::empty()) == 0);
                assert(utf8_len(seq![ch]) == utf8_width(ch));
                assert(utf8_len(nv.take(k + 1)) == n.cursor);
            },
            InputDialogAction::Backspace => {
                assert(k != 0);
                let nv = n.value@;
                assert(nv.take(k - 1) =~= t.take(k - 1));
                assert(utf8_len(nv.take(k - 1)) == n.cursor);
            },
            InputDialogAction::CursorLeft => {
                assert(k != 0);
                lemma_utf8_len_take_mono(t, k - 1, k);
                assert(utf8_len(n.value@.take(k - 1)) == n.cursor);
            },
            InputDialogAction::CursorRight => {
                assert(t.take(t.len() as int) =~= t);
                assert(k < t.len());
                lemma_utf8_len_take_mono(t, k + 1, t.len() as int);
                assert(utf8_len(n.value@.take(k + 1)) == n.cursor);
            },
            _ => {},
        }
    }
}

proof fn lemma_skip_ws(t: Seq<char>, i: int)
    requires
        0 <= i <= t.len(),
    ensures
        i <= skip_ws(t, i) <= t.len(),
        forall|k: int| i <= k < skip_ws(t, i) ==> unicode_whitespace(#[trigger] t[k]),
    decreases t.len() - i,
{
    if i < t.len() && unicode_whitespace(t[i]) {
        lemma_skip_ws(t, i + 1);
    }
}

proof fn lemma_trim_end(t: Seq<char>, j: int)
    requires
        0 <= j <= t.len(),
    ensures
        0 <= trim_end(t, j) <= j,
        forall|k: int| trim_end(t, j) <= k < j ==> unicode_whitespace(#[trigger] t[k]),
    decreases j,
{
    if j > 0 && unicode_whitespace(t[j - 1]) {
        lemma_trim_end(t, j - 1);
    }
}

/// UTF-8 length adds up over concatenation.
pub proof fn lemma_utf8_len_concat(a: Seq<char>, b: Seq<char>)
    ensures
        utf8_len(a + b) == utf8_len(a) + utf8_len(b),
    decreases b.len(),
{
    if b.len() == 0 {
        assert(a + b =~= a);
    } else {
        lemma_utf8_len_concat(a, b.drop_last());
        assert((a + b).drop_last() =~= a + b.drop_last());
        assert((a + b).last() == b.last());
    }
}

/// The trimmed chars of `t`.
fn trim_chars(t: &Vec<char>) -> (r: Vec<char>)
    ensures
        r@ == trimmed(t@),
{
    let mut s: usize = 0;
    while s < t.len() && is_whitespace(t[s])
        invariant
            s <= t@.len(),
            skip_ws(t@, 0) == skip_ws(t@, s as int),
        decreases t@.len() - s,
    {
        s += 1;
    }
    let mut e: usize = t.len();
    while e > 0 && is_whitespace(t[e - 1])
        invariant
            e <= t@.len(),
            trim_end(t@, t@.len() as int) == trim_end(t@, e as int),
        decreases e,
    {
        e -= 1;
    }
    let mut r: Vec<char> = Vec::new();
    if s < e {
        let mut i = s;
        while i < e
            invariant
                s <= i <= e <= t@.len(),
                r@ == t@.subrange(s as int, i as int),
            decreases e - i,
        {
            r.push(t[i]);
            proof {
                assert(t@.subrange(s as int, i + 1) =~= t@.subrange(s as int, i as int).push(t@[i as int]));
            }
            i += 1;
        }
    }
    proof {
        if s >= e {
            assert(r@ =~= Seq::<char>::empty());
        }
    }
    r
}

fn contains_char(v: &Vec<char>, c: char) -> (r: bool)
    ensures
        r == v@.contains(c),
{
    let mut i: usize = 0;
    while i < v.len()
        invariant
            i <= v@.len(),
            forall|k: int| 0 <= k < i ==> v@[k] != c,
        decreases v@.len() - i,
    {
        if v[i] == c {
            proof {
                assert(v@[i as int] == c);
            }
            return true;
        }
        i += 1;
    }
    false
}

fn contains_ws(v: &Vec<char>) -> (r: bool)
    ensures
        r == has_ws(v@),
{
    let mut i: usize = 0;
    while i < v.len()
        invariant
            i <= v@.len(),
            forall|k: int| 0 <= k < i ==> !unicode_whitespace(#[trigger] v@[k]),
        decreases v@.len() - i,
    {
        if is_whitespace(v[i]) {
            return true;
        }
        i += 1;
    }
    false
}

fn contains_dot_dot(v: &Vec<char>) -> (r: bool)
    ensures
        r == has_dot_dot(v@),
{
    let mut i: usize = 0;
    while i < v.len() && i + 1 < v.len()
        invariant
            i <= v@.len(),
            forall|k: int| 0 <= k < i && k < v@.len() - 1 ==> !(#[trigger] v@[k] == '.' && v@[k + 1] == '.'),
        decreases v@.len() - i,
    {
        if v[i] == '.' && v[i + 1] == '.' {
            return true;
        }
        i += 1;
    }
    false
}

/// The error accepting `v` gives for `kind`, as `accept_error` says.
fn accept_error_exec(kind: &InputDialogKind, v: &Vec<char>) -> (r: Option<String>)
    ensures
        match accept_error(*kind, v@) {
            Some(m) => r matches Some(s) && s@ == m,
            None => r is None,
        },
{
    match kind {
        InputDialogKind::NewFile { .. } | InputDialogKind::NewFolder { .. } | InputDialogKind::ExplorerRename {
            ..
        } => {
            if v.len() == 0 {
                Some(owned("Name required"))
            } else if contains_char(v, '/') || contains_char(v, '\\') || (v.len() == 1 && v[0] == '.') || (v.len()
                == 2 && v[0] == '.' && v[1] == '.') {
                proof {
                    if v.len() == 1 && v[0] == '.' {
                        assert(v@ =~= seq!['.']);
                    }
                    if v.len() == 2 && v[0] == '.' && v[1] == '.' {
                        assert(v@ =~= seq!['.', '.']);
                    }
                }
                Some(owned("Invalid name"))
            } else {
                proof {
                    assert(v@ != seq!['.']) by {
                        if v@ == seq!['.'] {
                            assert(v@.len() == 1 && v@[0] == '.');
                        }
                    }
                    assert(v@ != seq!['.', '.']) by {
                        if v@ == seq!['.', '.'] {
                            assert(v@.len() == 2 && v@[0] == '.' && v@[1] == '.');
                        }
                    }
                }
                None
            }
        },
        InputDialogKind::LspRename { .. } => {
            if v.len() == 0 {
                Some(owned("Name required"))
            } else if contains_ws(v) {
                Some(owned("Name cannot contain spaces"))
            } else {
                None
            }
        },
        InputDialogKind::LspWorkspaceSymbols => {
            if v.len() == 0 {
                Some(owned("Query required"))
            } else {
                None
            }
        },
        InputDialogKind::GitWorktreeAdd { .. } => {
            if v.len() == 0 {
                Some(owned("Branch required"))
            } else if contains_ws(v) {
                Some(owned("Branch cannot contain spaces"))
            } else if contains_char(v, '\\') || contains_dot_dot(v) || v[0] == '/' {
                Some(owned("Invalid branch"))
            } else {
                None
            }
        },
    }
}

fn heads_char(i: usize) -> (c: char)
    requires
        i < 11,
    ensures
        c == heads_prefix()[i as int],
{
    match i {
        0 => 'r',
        1 => 'e',
        2 => 'f',
        3 => 's',
        4 => '/',
        5 => 'h',
        6 => 'e',
        7 => 'a',
        8 => 'd',
        9 => 's',
        _ => '/',
    }
}

/// The branch name of `v` without a leading `refs/heads/`.
fn branch_name_exec(v: &Vec<char>) -> (r: String)
    ensures
        r@ == branch_name(v@),
{
    let mut prefixed = v.len() >= 11;
    let mut i: usize = 0;
    while prefixed && i < 11
        invariant
            i <= 11,
            prefixed ==> v@.len() >= 11,
            prefixed ==> forall|k: int| 0 <= k < i ==> v@[k] == heads_prefix()[k],
            !prefixed ==> !heads_prefix().is_prefix_of(v@),
        decreases 11 - i + if prefixed { 1int } else { 0int },
    {
        if v[i] != heads_char(i) {
            prefixed = false;
        } else {
            i += 1;
        }
    }
    if prefixed {
        proof {
            assert(heads_prefix().is_prefix_of(v@));
        }
        let mut rest: Vec<char> = Vec::new();
        let mut j: usize = 11;
        while j < v.len()
            invariant
                11 <= j <= v@.len(),
                rest@ == v@.subrange(11, j as int),
            decreases v@.len() - j,
        {
            rest.push(v[j]);
            proof {
                assert(v@.subrange(11, j + 1) =~= v@.subrange(11, j as int).push(v@[j as int]));
            }
            j += 1;
        }
        proof {
            assert(rest@ =~= v@.skip(11));
        }
        string_from_chars(rest.as_slice())
    } else {
        string_from_chars(v.as_slice())
    }
}

/// Types `ch` at the cursor of a shown dialog.
fn dialog_append(d: &mut InputDialogState, ch: char)
    requires
        dialog_wf(*old(d)),
        old(d).visible,
    ensures
        dialog_step(*old(d), InputDialogAction::Append(ch), *final(d), true, Seq::empty()),
{
    let t = str_chars(d.value.as_str());
    let k = char_index_of_byte(&t, d.cursor);
    let mut v: Vec<char> = Vec::new();
    let mut i: usize = 0;
    while i < k
        invariant
            i <= k <= t@.len(),
            v@ == t@.take(i as int),
        decreases k - i,
    {
        v.push(t[i]);
        proof {
            assert(t@.take(i + 1) =~= t@.take(i as int).push(t@[i as int]));
        }
        i += 1;
    }
    v.push(ch);
    let mut j: usize = k;
    while j < t.len()
        invariant
            k <= j <= t@.len(),
            v@ == t@.take(k as int) + seq![ch] + t@.subrange(k as int, j as int),
        decreases t@.len() - j,
    {
        v.push(t[j]);
        proof {
            assert(t@.subrange(k as int, j + 1) =~= t@.subrange(k as int, j as int).push(t@[j as int]));
        }
        j += 1;
    }
    proof {
        assert(t@.subrange(k as int, t@.len() as int) =~= t@.skip(k as int));
        lemma_utf8_len_take_mono(t@, k as int, t@.len() as int);
        assert(t@.take(t@.len() as int) =~= t@);
    }
    d.error = None;
    d.value = string_from_chars(v.as_slice());
    d.cursor = d.cursor + len_utf8(ch) as usize;
}

/// Deletes the char before the cursor of a shown dialog whose cursor is not at the
/// start.
fn dialog_backspace(d: &mut InputDialogState)
    requires
        dialog_wf(*old(d)),
        old(d).visible,
        old(d).cursor > 0,
    ensures
        dialog_step(*old(d), InputDialogAction::Backspace, *final(d), true, Seq::empty()),
{
    let t = str_chars(d.value.as_str());
    let k = char_index_of_byte(&t, d.cursor);
    proof {
        if k == 0 {
            assert(t@.take(0) =~= Seq::<char>::empty());
        }
        assert(t@.take(k as int).drop_last() =~= t@.take(k - 1));
    }
    let mut v: Vec<char> = Vec::new();
    let mut i: usize = 0;
    while i < k - 1
        invariant
            0 < k <= t@.len(),
            i <= k - 1,
            v@ == t@.take(i as int),
        decreases k - 1 - i,
    {
        v.push(t[i]);
        proof {
            assert(t@.take(i + 1) =~= t@.take(i as int).push(t@[i as int]));
        }
        i += 1;
    }
    let mut j: usize = k;
    while j < t.len()
        invariant
            0 < k <= j <= t@.len(),
            v@ == t@.take(k - 1) + t@.subrange(k as int, j as int),
        decreases t@.len() - j,
    {
        v.push(t[j]);
        proof {
            assert(t@.subrange(k as int, j + 1) =~= t@.subrange(k as int, j as int).push(t@[j as int]));
        }
        j += 1;
    }
    proof {
        assert(t@.subrange(k as int, t@.len() as int) =~= t@.skip(k as int));
    }
    let prev = d.cursor - len_utf8(t[k - 1]) as usize;
    d.error = None;
    d.value = string_from_chars(v.as_slice());
    d.cursor = prev;
}

/// Moves the cursor of a shown dialog one char left, or right.
fn dialog_move(d: &mut InputDialogState, right: bool) -> (changed: bool)
    requires
        dialog_wf(*old(d)),
        old(d).visible,
    ensures
        dialog_step(
            *old(d),
            if right {
                InputDialogAction::CursorRight
            } else {
                InputDialogAction::CursorLeft
            },
            *final(d),
            changed,
            Seq::empty(),
        ),
{
    let t = str_chars(d.value.as_str());
    let k = char_index_of_byte(&t, d.cursor);
    proof {
        lemma_utf8_len_take_mono(t@, k as int, t@.len() as int);
        assert(t@.take(t@.len() as int) =~= t@);
    }
    if right {
        if k >= t.len() {
            return false;
        }
        proof {
            lemma_utf8_len_take_mono(t@, k + 1, t@.len() as int);
            assert(t@.take(k + 1).drop_last() =~= t@.take(k as int));
        }
        d.cursor = d.cursor + len_utf8(t[k]) as usize;
        true
    } else {
        if d.cursor == 0 {
            return false;
        }
        proof {
            if k == 0 {
                assert(t@.take(0) =~= Seq::<char>::empty());
            }
            assert(t@.take(k as int).drop_last() =~= t@.take(k - 1));
        }
        d.cursor = d.cursor - len_utf8(t[k - 1]) as usize;
        true
    }
}

/// The effects of accepting value `v` (already checked) for `kind`.
fn accepted_effects_exec(kind: InputDialogKind, v: &Vec<char>, root: &str) -> (effects: Vec<InputDialogEffect>)
    ensures
        accepted_effects(kind, v@, effects@),
{
    let value = string_from_chars(v.as_slice());
    let mut effects: Vec<InputDialogEffect> = Vec::new();
    match kind {
        InputDialogKind::NewFile { parent_dir } => {
            effects.push(InputDialogEffect::CreateFile { parent_dir, name: value });
        },
        InputDialogKind::NewFolder { parent_dir } => {
            effects.push(InputDialogEffect::CreateDir { parent_dir, name: value });
        },
        InputDialogKind::ExplorerRename { from } => {
            if let Some(parent) = path_parent(from.as_str()) {
                let to = path_join(parent.as_str(), value.as_str());
                if !path_eq(to.as_str(), from.as_str()) && !path_eq(from.as_str(), root) && !path_eq(to.as_str(), root)
                    && path_starts_with(from.as_str(), root) && path_starts_with(to.as_str(), root) {
                    effects.push(InputDialogEffect::RenamePath { from, to });
                }
            }
        },
        InputDialogKind::LspRename { path, line, column } => {
            effects.push(InputDialogEffect::LspRenameRequest { path, line, column, new_name: value });
        },
        InputDialogKind::LspWorkspaceSymbols => {
            effects.push(InputDialogEffect::ClearSymbols);
            effects.push(InputDialogEffect::LspWorkspaceSymbolsRequest { query: value });
        },
        InputDialogKind::GitWorktreeAdd { repo_root } => {
            let branch = branch_name_exec(v);
            effects.push(InputDialogEffect::GitWorktreeAdd { repo_root, branch });
        },
    }
    effects
}

/// Accepts a shown dialog; also whether it asked for workspace symbols and was
/// accepted.
fn dialog_accept(d: &mut InputDialogState, root: &str) -> (r: (bool, Vec<InputDialogEffect>, bool))
    requires
        old(d).visible,
    ensures
        dialog_step(*old(d), InputDialogAction::Accept, *final(d), r.0, r.1@),
        r.2 == ((old(d).kind matches Some(InputDialogKind::LspWorkspaceSymbols)) && accept_error(
            InputDialogKind::LspWorkspaceSymbols,
            trimmed(old(d).value@),
        ) is None),
{
    let mut taken: Option<InputDialogKind> = None;
    std::mem::swap(&mut taken, &mut d.kind);
    let kind = match taken {
        Some(kind) => kind,
        None => {
            *d = InputDialogState::hidden();
            return (true, Vec::new(), false);
        },
    };
    let t = str_chars(d.value.as_str());
    let v = trim_chars(&t);
    match accept_error_exec(&kind, &v) {
        Some(msg) => {
            let same = match &d.error {
                Some(e) => crate::text::str_eq(e.as_str(), msg.as_str()),
                None => false,
            };
            d.error = Some(msg);
            d.kind = Some(kind);
            (!same, Vec::new(), false)
        },
        None => {
            *d = InputDialogState::hidden();
            let symbols = match &kind {
                InputDialogKind::LspWorkspaceSymbols => true,
                _ => false,
            };
            let effects = accepted_effects_exec(kind, &v, root);
            (true, effects, symbols)
        },
    }
}

/// Handles an input dialog event: typing or deleting a char at the cursor, moving
/// the cursor by a char, cancelling, or accepting the trimmed value, which either
/// shows why it cannot be used or closes the dialog and asks for what the dialog was
/// for; a hidden dialog ignores every event.
pub fn reduce_input_dialog_action(state: &mut AppState, action: InputDialogAction) -> (r: DispatchResult<
    InputDialogEffect,
>)
    requires
        dialog_wf(old(state).ui.input_dialog),
    ensures
        input_dialog_post(*old(state), action, *final(state), r),
{
    if !state.ui.input_dialog.visible {
        return DispatchResult { effects: Vec::new(), state_changed: false };
    }
    let mut d = InputDialogState::hidden();
    std::mem::swap(&mut d, &mut state.ui.input_dialog);
    let r = match action {
        InputDialogAction::Append(ch) => {
            dialog_append(&mut d, ch);
            DispatchResult { effects: Vec::new(), state_changed: true }
        },
        InputDialogAction::Backspace => {
            if d.cursor == 0 {
                DispatchResult { effects: Vec::new(), state_changed: false }
            } else {
                dialog_backspace(&mut d);
                DispatchResult { effects: Vec::new(), state_changed: true }
            }
        },
        InputDialogAction::CursorLeft => {
            let changed = dialog_move(&mut d, false);
            DispatchResult { effects: Vec::new(), state_changed: changed }
        },
        InputDialogAction::CursorRight => {
            let changed = dialog_move(&mut d, true);
            DispatchResult { effects: Vec::new(), state_changed: changed }
        },
        InputDialogAction::Cancel => {
            d = InputDialogState::hidden();
            DispatchResult { effects: Vec::new(), state_changed: true }
        },
        InputDialogAction::Accept => {
            let (changed, effects, symbols) = dialog_accept(&mut d, state.workspace_root.as_str());
            if symbols {
                state.ui.bottom_panel.visible = true;
                state.ui.bottom_panel.active_tab = BottomPanelTab::Symbols;
                state.ui.focus = FocusTarget::BottomPanel;
            }
            DispatchResult { effects, state_changed: changed }
        },
    };
    state.ui.input_dialog = d;
    r
}

} // verus!
