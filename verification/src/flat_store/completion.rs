//! Completion popup logic over raw completion items: when to close or keep the
//! popup, prefix filtering, snippet expansion and cursor placement.

use vstd::prelude::*;

use crate::editor::{in_string_or_comment, EditorTabState};
use crate::kernel::{Command, EditorActionKind};
use crate::ports::LspCompletionItem;
use crate::rope::{rope_char, rope_len_chars, rope_slice_string, rope_text};
use crate::flat_store::snippet::{expand_snippet, expansion_agrees, expansion_of, scan_snippet};
use crate::ports::LspRange;
use crate::store::intel::completion::{
    begins_ignoring_ascii_case, lemma_starts_with_fold, starts_with_fold, starts_with_ignore_ascii_case,
};
use crate::text::{alphanumeric, ascii_word, is_alphanumeric, is_ascii_word, str_chars, str_eq};

verus! {

/// Editor actions that leave the completion popup open: viewport resizes and
/// search progress.
pub open spec fn keeps_completion_on_editor_action(a: EditorActionKind) -> bool {
    a == EditorActionKind::SetViewportSize || a == EditorActionKind::SearchStarted
        || a == EditorActionKind::SearchMessage
}

/// Whether an editor action closes the completion popup.
pub fn should_close_completion_on_editor_action(action: &EditorActionKind) -> (r: bool)
    ensures
        r == !keeps_completion_on_editor_action(*action),
{
    match action {
        EditorActionKind::SetViewportSize => false,
        EditorActionKind::SearchStarted | EditorActionKind::SearchMessage => false,
        _ => true,
    }
}

/// Chars whose insertion keeps the popup open: alphanumerics, `_` and `.`.
pub open spec fn keeps_open_char(c: char) -> bool {
    alphanumeric(c) || c == '_' || c == '.'
}

/// Whether inserting `inserted` keeps the popup open.
pub fn completion_keeps_open_on_inserted_char(inserted: char) -> (r: bool)
    ensures
        r == keeps_open_char(inserted),
{
    is_alphanumeric(inserted) || inserted == '_' || inserted == '.'
}

/// Commands that leave the popup open: completion and the passive LSP requests,
/// deletions, and inserting a char that keeps it open.
pub open spec fn keeps_completion_on_command(cmd: Command) -> bool {
    match cmd {
        Command::LspCompletion => true,
        Command::LspSemanticTokens | Command::LspInlayHints | Command::LspFoldingRange => true,
        Command::InsertChar(ch) => keeps_open_char(ch),
        Command::DeleteBackward | Command::DeleteForward | Command::DeleteSelection => true,
        _ => false,
    }
}

/// Whether a command closes the completion popup.
pub fn should_close_completion_on_command(cmd: &Command) -> (r: bool)
    ensures
        r == !keeps_completion_on_command(*cmd),
{
    match cmd {
        Command::LspCompletion => false,
        Command::LspSemanticTokens | Command::LspInlayHints | Command::LspFoldingRange => false,
        Command::InsertChar(ch) => !completion_keeps_open_on_inserted_char(*ch),
        Command::DeleteBackward | Command::DeleteForward | Command::DeleteSelection => false,
        _ => true,
    }
}

/// Typing `.`, an ASCII letter, digit or `_` keeps the popup open: member access and
/// a growing identifier continue completion.
pub proof fn law_member_access_and_identifiers_keep_completion_open(ch: char)
    requires
        ch == '.' || ('a' <= ch <= 'z') || ('A' <= ch <= 'Z') || ('0' <= ch <= '9') || ch == '_',
    ensures
        keeps_open_char(ch),
        keeps_completion_on_command(Command::InsertChar(ch)),
{
}

/// Typing a space or a bracket, comma or semicolon closes the popup.
pub proof fn law_separators_close_completion(ch: char)
    requires
        ch == ' ' || ch == '(' || ch == ')' || ch == ',' || ch == ';' || ch == '{' || ch == '}',
    ensures
        !keeps_open_char(ch),
        !keeps_completion_on_command(Command::InsertChar(ch)),
{
}


/// Start of the run of `[0-9A-Za-z_]` chars that ends at `end`.
pub open spec fn word_start(t: Seq<char>, end: int) -> int
    decreases end,
{
    if end <= 0 {
        0
    } else if is_ascii_word(t[end - 1]) {
        word_start(t, end - 1)
    } else {
        end
    }
}

/// The word run ending at `end` lies in `0..=end` and holds only word chars.
pub proof fn lemma_word_start(t: Seq<char>, end: int)
    requires
        0 <= end <= t.len(),
    ensures
        0 <= word_start(t, end) <= end,
        forall|k: int| word_start(t, end) <= k < end ==> is_ascii_word(#[trigger] t[k]),
        word_start(t, end) > 0 ==> !is_ascii_word(t[word_start(t, end) - 1]),
    decreases end,
{
    if end > 0 && is_ascii_word(t[end - 1]) {
        lemma_word_start(t, end - 1);
    }
}

/// The bounds of the identifier prefix before the cursor: the run of `[0-9A-Za-z_]`
/// chars that ends at the cursor.
pub fn completion_prefix_bounds_at_cursor(tab: &EditorTabState) -> (r: (usize, usize))
    ensures
        r.1 == tab.buffer.cursor_at(),
        r.1 <= tab.buffer.text().len(),
        r.0 == word_start(tab.buffer.text(), r.1 as int),
{
    let cursor_char_offset = tab.buffer.cursor_char_offset();
    let rope = tab.buffer.rope();
    let len = rope_len_chars(rope);
    let end_char = if cursor_char_offset < len { cursor_char_offset } else { len };
    let mut start_char = end_char;
    let mut scanning = true;
    while scanning && start_char > 0
        invariant
            start_char <= end_char <= rope_text(*rope).len(),
            rope_text(*rope) == tab.buffer.text(),
            word_start(rope_text(*rope), start_char as int) == word_start(rope_text(*rope), end_char as int),
            !scanning ==> start_char > 0 && !is_ascii_word(rope_text(*rope)[start_char - 1]),
        decreases start_char + if scanning { 1int } else { 0int },
    {
        let ch = rope_char(rope, start_char - 1);
        if ascii_word(ch) {
            start_char = start_char - 1;
        } else {
            scanning = false;
        }
    }
    (start_char, end_char)
}

/// The identifier prefix before the cursor.
pub fn completion_prefix_at_cursor(tab: &EditorTabState) -> (s: String)
    ensures
        s@ == tab.buffer.text().subrange(
            word_start(tab.buffer.text(), tab.buffer.cursor_at() as int),
            tab.buffer.cursor_at() as int,
        ),
{
    let (start_char, end_char) = completion_prefix_bounds_at_cursor(tab);
    proof {
        lemma_word_start(tab.buffer.text(), end_char as int);
    }
    rope_slice_string(tab.buffer.rope(), start_char, end_char)
}

/// The popup stays open outside strings and comments when an identifier prefix is
/// being typed, or right after `.` or `::`.
pub open spec fn keep_open_at(t: Seq<char>, cursor: int, in_string_or_comment: bool) -> bool {
    let start = word_start(t, cursor);
    &&& !in_string_or_comment
    &&& (start != cursor || (start > 0 && t[start - 1] == '.') || (start >= 2 && t[start - 1]
        == ':' && t[start - 2] == ':'))
}

/// Whether the popup stays open at the cursor.
pub fn completion_should_keep_open(tab: &EditorTabState) -> (r: bool)
    ensures
        r == keep_open_at(
            tab.buffer.text(),
            tab.buffer.cursor_at() as int,
            in_string_or_comment(tab, tab.buffer.cursor_at() as int),
        ),
{
    if tab.is_in_string_or_comment_at_cursor() {
        return false;
    }
    let (start_char, end_char) = completion_prefix_bounds_at_cursor(tab);
    if start_char != end_char {
        return true;
    }
    proof {
        lemma_word_start(tab.buffer.text(), end_char as int);
    }
    let rope = tab.buffer.rope();
    if start_char > 0 && rope_char(rope, start_char - 1) == '.' {
        return true;
    }
    if start_char >= 2 && rope_char(rope, start_char - 1) == ':' && rope_char(rope, start_char - 2) == ':' {
        return true;
    }
    false
}

/// The two chars before `cursor` are `::`.
pub open spec fn after_double_colon(t: Seq<char>, cursor: int) -> bool {
    cursor >= 2 && t[cursor - 1] == ':' && t[cursor - 2] == ':'
}

/// Inserting `inserted` requests completion: with no server triggers on `.` and
/// after `::`; with server triggers on a listed char, and on `:` only after `::`
/// when `:` is listed.
pub open spec fn triggered_by_insert_spec(t: Seq<char>, cursor: int, inserted: char, triggers: Seq<char>) -> bool {
    if triggers.len() == 0 {
        inserted == '.' || (inserted == ':' && after_double_colon(t, cursor))
    } else if inserted == ':' {
        triggers.contains(':') && after_double_colon(t, cursor)
    } else {
        triggers.contains(inserted)
    }
}

fn chars_contain(v: &[char], c: char) -> (r: bool)
    ensures
        r == v@.contains(c),
{
    let mut i: usize = 0;
    while i < v.len()
        invariant
            i <= v@.len(),
            forall|k: int| 0 <= k < i ==> v@[k] != c,
        decreases v@.len() - i,
    {
        if v[i] == c {
            return true;
        }
        i += 1;
    }
    false
}

fn cursor_after_double_colon(tab: &EditorTabState) -> (r: bool)
    ensures
        r == after_double_colon(tab.buffer.text(), tab.buffer.cursor_at() as int),
{
    let cursor_char_offset = tab.buffer.cursor_char_offset();
    let rope = tab.buffer.rope();
    if cursor_char_offset < 2 {
        return false;
    }
    rope_char(rope, cursor_char_offset - 1) == ':' && rope_char(rope, cursor_char_offset - 2) == ':'
}

/// Whether inserting `inserted` (already in the buffer, before the cursor) requests completion.
pub fn completion_triggered_by_insert(tab: &EditorTabState, inserted: char, triggers: &[char]) -> (r: bool)
    ensures
        r == triggered_by_insert_spec(tab.buffer.text(), tab.buffer.cursor_at() as int, inserted, triggers@),
{
    if triggers.len() == 0 {
        return match inserted {
            '.' => true,
            ':' => cursor_after_double_colon(tab),
            _ => false,
        };
    }
    match inserted {
        ':' => {
            if !chars_contain(triggers, ':') {
                return false;
            }
            cursor_after_double_colon(tab)
        },
        ch => chars_contain(triggers, ch),
    }
}

/// Whether inserting `inserted` requests signature help: `(` or `,` without
/// server triggers, a listed char otherwise.
pub fn signature_help_triggered_by_insert(inserted: char, triggers: &[char]) -> (r: bool)
    ensures
        r == if triggers@.len() == 0 {
            inserted == '(' || inserted == ','
        } else {
            triggers@.contains(inserted)
        },
{
    if triggers.len() == 0 {
        inserted == '(' || inserted == ','
    } else {
        chars_contain(triggers, inserted)
    }
}

/// Whether inserting `inserted` closes signature help: only `)`.
pub fn signature_help_closed_by_insert(inserted: char) -> (r: bool)
    ensures
        r == (inserted == ')'),
{
    inserted == ')'
}

/// Scanning backwards from `idx` down to `start` with `depth` unmatched `)`, whether
/// an unmatched `(` outside strings and comments turns up.
pub open spec fn open_paren_scan(tab: &EditorTabState, start: int, idx: int, depth: nat) -> bool
    decreases idx - start,
{
    if idx <= start {
        false
    } else {
        let i = idx - 1;
        let ch = tab.buffer.text()[i];
        if (ch != '(' && ch != ')') || in_string_or_comment(tab, i) {
            open_paren_scan(tab, start, i, depth)
        } else if ch == ')' {
            open_paren_scan(tab, start, i, depth + 1)
        } else if depth == 0 {
            true
        } else {
            open_paren_scan(tab, start, i, (depth - 1) as nat)
        }
    }
}

/// First char of the window that the signature-help scan looks at: 4096 chars back.
pub open spec fn scan_window_start(cursor: int) -> int {
    if cursor >= 4096 {
        cursor - 4096
    } else {
        0
    }
}

/// Whether signature help stays open: outside strings and comments, an unmatched
/// `(` lies within 4096 chars before the cursor.
pub fn signature_help_should_keep_open(tab: &EditorTabState) -> (r: bool)
    ensures
        r == (!in_string_or_comment(tab, tab.buffer.cursor_at() as int) && open_paren_scan(
            tab,
            scan_window_start(tab.buffer.cursor_at() as int),
            tab.buffer.cursor_at() as int,
            0,
        )),
{
    if tab.is_in_string_or_comment_at_cursor() {
        return false;
    }
    let rope = tab.buffer.rope();
    let cursor_char_offset = tab.buffer.cursor_char_offset();
    let start = if cursor_char_offset >= 4096 { cursor_char_offset - 4096 } else { 0 };
    let mut depth: usize = 0;
    let mut idx = cursor_char_offset;
    while idx > start
        invariant
            start <= idx <= cursor_char_offset,
            cursor_char_offset == tab.buffer.cursor_at(),
            cursor_char_offset <= tab.buffer.text().len(),
            rope_text(*rope) == tab.buffer.text(),
            depth <= cursor_char_offset - idx,
            !in_string_or_comment(tab, cursor_char_offset as int),
            start as int == scan_window_start(cursor_char_offset as int),
            open_paren_scan(tab, start as int, idx as int, depth as nat) == open_paren_scan(
                tab,
                start as int,
                cursor_char_offset as int,
                0,
            ),
        decreases idx - start,
    {
        let ghost prev = idx;
        idx = idx - 1;
        let ch = rope_char(rope, idx);
        proof {
            assert(ch == tab.buffer.text()[prev - 1]);
        }
        if ch != '(' && ch != ')' {
            continue;
        }
        if tab.is_in_string_or_comment_at_char(idx) {
            continue;
        }
        if ch == ')' {
            depth = depth + 1;
        } else {
            if depth == 0 {
                proof {
                    assert(!in_string_or_comment(tab, prev - 1));
                    assert(open_paren_scan(tab, start as int, prev as int, depth as nat));
                }
                return true;
            }
            depth = depth - 1;
        }
    }
    false
}


/// The text an item is filtered by: its filter text, else its label.
pub open spec fn item_candidate(item: LspCompletionItem) -> Seq<char> {
    match item.filter_text {
        Some(f) => f@,
        None => item.label@,
    }
}

/// Whether an item matches the typed prefix (ASCII letters without case).
pub open spec fn item_matches(item: LspCompletionItem, p: Seq<char>) -> bool {
    starts_with_fold(item_candidate(item), p)
}

/// An item with a filter text matches a prefix exactly when the filter text begins
/// with it, ASCII letters compared without case; without one, when its label does.
pub proof fn law_filter_text_decides_the_item_match(item: LspCompletionItem, p: Seq<char>)
    ensures
        item.filter_text is Some ==> (item_matches(item, p) <==> begins_ignoring_ascii_case(item.filter_text->0@, p)),
        item.filter_text is None ==> (item_matches(item, p) <==> begins_ignoring_ascii_case(item.label@, p)),
{
    lemma_starts_with_fold(item_candidate(item), p);
}


/// Whether `item` matches `prefix`.
pub fn completion_item_matches_prefix(item: &LspCompletionItem, prefix: &str) -> (r: bool)
    ensures
        r == item_matches(*item, prefix@),
{
    let candidate = match &item.filter_text {
        Some(f) => f.as_str(),
        None => item.label.as_str(),
    };
    starts_with_ignore_ascii_case(candidate, prefix)
}

/// The items of `items`, in order, that match `p`.
pub open spec fn matching_items(items: Seq<LspCompletionItem>, p: Seq<char>) -> Seq<LspCompletionItem>
    decreases items.len(),
{
    if items.len() == 0 {
        Seq::empty()
    } else {
        let rest = matching_items(items.drop_last(), p);
        if item_matches(items.last(), p) {
            rest.push(items.last())
        } else {
            rest
        }
    }
}

/// The items shown for prefix `p`: all of them for an empty prefix or when none
/// matches, else the matching ones.
pub open spec fn filtered_items(items: Seq<LspCompletionItem>, p: Seq<char>) -> Seq<LspCompletionItem> {
    if p.len() == 0 || matching_items(items, p).len() == 0 {
        items
    } else {
        matching_items(items, p)
    }
}

/// An identical copy of an optional string.
fn copy_opt_string(s: &Option<String>) -> (r: Option<String>)
    ensures
        r == *s,
{
    match s {
        Some(t) => Some(t.clone()),
        None => None,
    }
}

/// An identical copy of a completion item.
pub fn copy_item(item: &LspCompletionItem) -> (r: LspCompletionItem)
    ensures
        r == *item,
{
    LspCompletionItem {
        id: item.id,
        label: item.label.clone(),
        detail: copy_opt_string(&item.detail),
        kind: item.kind,
        insert_text: item.insert_text.clone(),
        insert_text_format: item.insert_text_format,
        insert_range: item.insert_range,
        replace_range: item.replace_range,
        sort_text: copy_opt_string(&item.sort_text),
        filter_text: copy_opt_string(&item.filter_text),
    }
}

fn copy_items(items: &[LspCompletionItem]) -> (r: Vec<LspCompletionItem>)
    ensures
        r@ == items@,
{
    let mut r: Vec<LspCompletionItem> = Vec::new();
    let mut i: usize = 0;
    while i < items.len()
        invariant
            i <= items@.len(),
            r@ == items@.take(i as int),
        decreases items@.len() - i,
    {
        r.push(copy_item(&items[i]));
        i += 1;
        proof {
            assert(r@ =~= items@.take(i as int));
        }
    }
    proof {
        assert(items@.take(i as int) =~= items@);
    }
    r
}

/// The items to show for `prefix` (see `filtered_items`).
pub fn filtered_completion_items(prefix: &str, items: &[LspCompletionItem]) -> (r: Vec<LspCompletionItem>)
    ensures
        r@ == filtered_items(items@, prefix@),
{
    if items.len() == 0 {
        return Vec::new();
    }
    if prefix.is_empty() {
        return copy_items(items);
    }
    let mut matched: Vec<LspCompletionItem> = Vec::new();
    let mut i: usize = 0;
    while i < items.len()
        invariant
            i <= items@.len(),
            matched@ == matching_items(items@.take(i as int), prefix@),
        decreases items@.len() - i,
    {
        proof {
            assert(items@.take(i + 1).drop_last() =~= items@.take(i as int));
        }
        if completion_item_matches_prefix(&items[i], prefix) {
            matched.push(copy_item(&items[i]));
        }
        i += 1;
    }
    proof {
        assert(items@.take(i as int) =~= items@);
    }
    if matched.len() == 0 {
        return copy_items(items);
    }
    matched
}

/// Same length and the same ids, position by position.
pub open spec fn same_ids(a: Seq<LspCompletionItem>, b: Seq<LspCompletionItem>) -> bool {
    a.len() == b.len() && forall|i: int| 0 <= i < a.len() ==> #[trigger] a[i].id == b[i].id
}

/// Whether two item lists hold the same ids in the same order.
pub fn same_completion_item_ids(a: &[LspCompletionItem], b: &[LspCompletionItem]) -> (r: bool)
    ensures
        r == same_ids(a@, b@),
{
    if a.len() != b.len() {
        return false;
    }
    let mut i: usize = 0;
    while i < a.len()
        invariant
            a@.len() == b@.len(),
            i <= a@.len(),
            forall|k: int| 0 <= k < i ==> #[trigger] a@[k].id == b@[k].id,
        decreases a@.len() - i,
    {
        if a[i].id != b[i].id {
            return false;
        }
        i += 1;
    }
    true
}

/// The popup over raw items: all items, the shown ones, the selection.
pub struct CompletionPopupState {
    pub all_items: Vec<LspCompletionItem>,
    pub items: Vec<LspCompletionItem>,
    pub selected: usize,
    pub visible: bool,
}

/// First position of an item with id `id`, or `items.len()`.
pub open spec fn position_of_id(items: Seq<LspCompletionItem>, id: u64) -> nat
    decreases items.len(),
{
    if items.len() == 0 {
        0
    } else if items[0].id == id {
        0
    } else {
        1 + position_of_id(items.drop_first(), id)
    }
}

proof fn lemma_position_of_id(items: Seq<LspCompletionItem>, id: u64, p: int)
    requires
        0 <= p <= items.len(),
        forall|k: int| 0 <= k < p ==> items[k].id != id,
    ensures
        p < items.len() && items[p].id == id ==> position_of_id(items, id) == p,
        p == items.len() ==> position_of_id(items, id) == items.len(),
    decreases p,
{
    if p > 0 {
        lemma_position_of_id(items.drop_first(), id, p - 1);
    }
}

/// Resynchronises the shown items with the typed `prefix`, keeping the selection on
/// the same id when it is still shown (else on the first item). Returns whether the
/// shown ids changed; a popup without items is left alone.
pub fn sync_completion_items_from_cache(completion: &mut CompletionPopupState, prefix: &str) -> (changed: bool)
    ensures
        old(completion).all_items@.len() == 0 ==> !changed && *final(completion) == *old(completion),
        old(completion).all_items@.len() > 0 ==> {
            let shown = filtered_items(old(completion).all_items@, prefix@);
            let sel_id = if old(completion).selected < old(completion).items@.len() {
                Some(old(completion).items@[old(completion).selected as int].id)
            } else {
                None
            };
            let pos = match sel_id {
                Some(id) => if position_of_id(shown, id) < shown.len() { position_of_id(shown, id) } else { 0 },
                None => 0,
            };
            &&& changed == !same_ids(old(completion).items@, shown)
            &&& final(completion).items@ == shown
            &&& final(completion).all_items@ == old(completion).all_items@
            &&& final(completion).selected == if pos < shown.len() { pos } else { (shown.len() - 1) as nat }
            &&& final(completion).visible
        },
{
    if completion.all_items.len() == 0 {
        return false;
    }
    let selected_id = if completion.selected < completion.items.len() {
        Some(completion.items[completion.selected].id)
    } else {
        None
    };
    let new_items = filtered_completion_items(prefix, &completion.all_items);
    if new_items.len() == 0 {
        return false;
    }
    let changed = !same_completion_item_ids(&completion.items, &new_items);
    completion.items = new_items;
    let mut pos: usize = 0;
    match selected_id {
        Some(id) => {
            let mut i: usize = 0;
            while i < completion.items.len()
                invariant
                    i <= completion.items@.len(),
                    forall|k: int| 0 <= k < i ==> completion.items@[k].id != id,
                ensures
                    i <= completion.items@.len(),
                    forall|k: int| 0 <= k < i ==> completion.items@[k].id != id,
                    i < completion.items@.len() ==> completion.items@[i as int].id == id,
                decreases completion.items@.len() - i,
            {
                if completion.items[i].id == id {
                    break;
                }
                i += 1;
            }
            proof {
                lemma_position_of_id(completion.items@, id, i as int);
            }
            if i < completion.items.len() {
                pos = i;
            }
        },
        None => {},
    }
    let last = completion.items.len() - 1;
    completion.selected = if pos < last { pos } else { last };
    completion.visible = true;
    changed
}

/// Text to insert for a completion, with where the cursor goes and what gets
/// selected (char offsets into the text).
#[derive(Debug, Clone, PartialEq, Eq)]
pub struct CompletionInsertion {
    pub text: String,
    pub cursor: Option<usize>,
    pub selection: Option<(usize, usize)>,
}

/// `t` ends with `()`.
pub open spec fn ends_with_call_parens(t: Seq<char>) -> bool {
    t.len() >= 2 && t[t.len() - 2] == '(' && t[t.len() - 1] == ')'
}

impl CompletionInsertion {
    /// Plain text; when it ends with `()` the cursor goes between the parentheses.
    pub fn from_plain_text(text: String) -> (r: Self)
        ensures
            r.text@ == text@,
            r.cursor == if ends_with_call_parens(text@) { Some((text@.len() - 1) as usize) } else { None },
            r.selection is None,
    {
        let cs = str_chars(text.as_str());
        let n = cs.len();
        let cursor = if n >= 2 && cs[n - 2] == '(' && cs[n - 1] == ')' { Some(n - 1) } else { None };
        CompletionInsertion { text, cursor, selection: None }
    }

    /// The expansion of a snippet.
    pub fn from_snippet(snippet: &str) -> (r: Self)
        ensures
            expansion_agrees(
                crate::flat_store::snippet::SnippetExpansion {
                    text: r.text,
                    cursor: r.cursor,
                    selection: r.selection,
                },
                expansion_of(scan_snippet(snippet@)),
            ),
    {
        let expanded = expand_snippet(snippet);
        CompletionInsertion { text: expanded.text, cursor: expanded.cursor, selection: expanded.selection }
    }

    /// Whether the insertion places the cursor or a selection.
    pub fn has_cursor_or_selection(&self) -> (r: bool)
        ensures
            r == (self.cursor is Some || self.selection is Some),
    {
        self.cursor.is_some() || self.selection.is_some()
    }
}


/// `min(a + b, bound)`.
pub open spec fn clamped_sum(a: int, b: int, bound: int) -> int {
    if a + b <= bound {
        a + b
    } else {
        bound
    }
}

/// Whether the text just before the cursor is the insertion's text, so that its
/// cursor and selection can be placed.
pub open spec fn insertion_applies(t: Seq<char>, cursor: int, ins: CompletionInsertion) -> bool {
    let n = ins.text@.len() as int;
    &&& (ins.cursor is Some || ins.selection is Some)
    &&& n > 0
    &&& cursor >= n
    &&& t.subrange(cursor - n, cursor) == ins.text@
}

/// `min(a + b, bound)` without overflow.
pub fn add_clamped(a: usize, b: usize, bound: usize) -> (r: usize)
    ensures
        r == clamped_sum(a as int, b as int, bound as int),
{
    if b <= bound && a <= bound - b {
        a + b
    } else {
        bound
    }
}

/// After a completion was inserted before the cursor, places its cursor (or
/// selects its placeholder) relative to where the insertion starts. Nothing
/// happens unless the text just before the cursor is the inserted text.
pub fn apply_completion_insertion_cursor(tab: &mut EditorTabState, insertion: &CompletionInsertion)
    ensures
        final(tab).buffer.text() == old(tab).buffer.text(),
        final(tab).path == old(tab).path,
        final(tab).language == old(tab).language,
        final(tab).edit_version == old(tab).edit_version,
        final(tab).string_or_comment == old(tab).string_or_comment,
        final(tab).snippet_session == old(tab).snippet_session,
        final(tab).viewport.line_offset == old(tab).viewport.line_offset,
        final(tab).viewport.height == old(tab).viewport.height,
        !insertion_applies(old(tab).buffer.text(), old(tab).buffer.cursor_at() as int, *insertion) ==> {
            &&& final(tab).buffer.cursor_at() == old(tab).buffer.cursor_at()
            &&& final(tab).buffer.anchor_at() == old(tab).buffer.anchor_at()
            &&& final(tab).viewport == old(tab).viewport
        },
        insertion_applies(old(tab).buffer.text(), old(tab).buffer.cursor_at() as int, *insertion) ==> {
            let len = old(tab).buffer.text().len() as int;
            let start = old(tab).buffer.cursor_at() - insertion.text@.len();
            &&& final(tab).viewport.follow_cursor
            &&& match insertion.selection {
                Some((a, b)) => {
                    let lo = if a > b { b } else { a };
                    let hi = if a > b { a } else { b };
                    &&& final(tab).buffer.anchor_at() == Some(clamped_sum(start, lo as int, len) as usize)
                    &&& final(tab).buffer.cursor_at() == clamped_sum(start, hi as int, len)
                },
                None => {
                    &&& final(tab).buffer.anchor_at() is None
                    &&& final(tab).buffer.cursor_at() == clamped_sum(start, insertion.cursor.unwrap() as int, len)
                },
            }
        },
{
    if !insertion.has_cursor_or_selection() {
        return;
    }
    let inserted = str_chars(insertion.text.as_str());
    let inserted_chars = inserted.len();
    if inserted_chars == 0 {
        return;
    }
    let cursor_end = tab.buffer.cursor_char_offset();
    if cursor_end < inserted_chars {
        return;
    }
    let start_char = cursor_end - inserted_chars;
    let len = rope_len_chars(tab.buffer.rope());
    let before = rope_slice_string(tab.buffer.rope(), start_char, cursor_end);
    if !str_eq(before.as_str(), insertion.text.as_str()) {
        return;
    }
    tab.viewport.follow_cursor = true;
    match insertion.selection {
        Some((a, b)) => {
            let (lo, hi) = if a > b { (b, a) } else { (a, b) };
            let sel_start = add_clamped(start_char, lo, len);
            let sel_end = add_clamped(start_char, hi, len);
            tab.buffer.set_selection_chars(sel_start, sel_end);
        },
        None => {
            if let Some(cursor_rel) = insertion.cursor {
                let target = add_clamped(start_char, cursor_rel, len);
                tab.buffer.set_cursor_char(target);
            }
        },
    }
}

} // verus!
