//! Editor-side state that the store logic reads and updates: a text buffer
//! over a rope with a cursor, an editor tab, panes, and highlight spans.

use ropey::Rope;
use vstd::prelude::*;

use crate::kernel::LanguageId;
use crate::rope::{
    char_to_line, count_nl, len_lines, line_to_char, rope_char_to_line, rope_from_str, rope_len_chars,
    rope_len_lines, rope_line_to_char, rope_text,
};

verus! {

/// Syntax classes of highlighted text.
#[derive(Debug, Clone, Copy, PartialEq, Eq, Structural)]
pub enum HighlightKind {
    Comment,
    String,
    Regex,
    Keyword,
    Number,
    Type,
    Function,
    Method,
    Macro,
    Constant,
    EnumMember,
    Variable,
    Parameter,
    Property,
    Namespace,
    Attribute,
}

/// A highlighted byte range `start..end` of one line.
#[derive(Debug, Clone, Copy, PartialEq, Eq, Structural)]
pub struct HighlightSpan {
    pub start: usize,
    pub end: usize,
    pub kind: HighlightKind,
}

/// A snippet tab stop: index and the char range it covers, relative to the insertion.
#[derive(Debug, Clone, Copy, PartialEq, Eq, Structural)]
pub struct SnippetTabstop {
    pub index: u32,
    pub start: usize,
    pub end: usize,
}

/// Text of a buffer with a cursor and an optional selection anchor, both char offsets.
pub struct TextBuffer {
    rope: Rope,
    cursor: usize,
    anchor: Option<usize>,
}

impl TextBuffer {
    #[verifier::type_invariant]
    spec fn inv(self) -> bool {
        &&& self.cursor <= rope_text(self.rope).len()
        &&& (self.anchor matches Some(a) ==> a <= rope_text(self.rope).len())
    }

    /// The chars of the buffer.
    pub closed spec fn text(&self) -> Seq<char> {
        rope_text(self.rope)
    }

    /// The cursor, as a char offset.
    pub closed spec fn cursor_at(&self) -> nat {
        self.cursor as nat
    }

    /// The selection anchor, as a char offset, when a selection is active.
    pub closed spec fn anchor_at(&self) -> Option<usize> {
        self.anchor
    }

    /// A buffer holding `content`, with the cursor at its start and no selection.
    pub fn new(content: &str) -> (b: Self)
        ensures
            b.text() == content@,
            b.cursor_at() == 0,
            b.anchor_at() is None,
    {
        TextBuffer { rope: rope_from_str(content), cursor: 0, anchor: None }
    }

    /// The rope that holds the text.
    pub fn rope(&self) -> (r: &Rope)
        ensures
            rope_text(*r) == self.text(),
    {
        &self.rope
    }

    /// The cursor as a char offset; it never lies past the end of the text.
    pub fn cursor_char_offset(&self) -> (c: usize)
        ensures
            c == self.cursor_at(),
            c <= self.text().len(),
    {
        proof {
            use_type_invariant(self);
        }
        self.cursor
    }

    /// Moves the cursor to char offset `c`, clamped to the end of the text,
    /// and clears the selection.
    pub fn set_cursor_char(&mut self, c: usize)
        ensures
            final(self).text() == old(self).text(),
            final(self).cursor_at() == if c <= old(self).text().len() { c as nat } else { old(self).text().len() },
            final(self).anchor_at() is None,
    {
        proof {
            use_type_invariant(&*self);
        }
        let n = rope_len_chars(&self.rope);
        let c = if c <= n { c } else { n };
        self.anchor = None;
        self.cursor = c;
    }

    /// Selects from `anchor` to `cursor` (char offsets, each clamped to the end of the text);
    /// the cursor ends at `cursor`.
    pub fn set_selection_chars(&mut self, anchor: usize, cursor: usize)
        ensures
            final(self).text() == old(self).text(),
            final(self).cursor_at() == if cursor <= old(self).text().len() { cursor as nat } else { old(self).text().len() },
            final(self).anchor_at() == Some(if anchor <= old(self).text().len() { anchor } else { old(self).text().len() as usize }),
    {
        let n = rope_len_chars(&self.rope);
        let a = if anchor <= n { anchor } else { n };
        let c = if cursor <= n { cursor } else { n };
        proof {
            use_type_invariant(&*self);
        }
        self.anchor = Some(a);
        self.cursor = c;
    }

    /// The cursor as `(row, column)`: its line and its char offset within that line.
    pub fn cursor(&self) -> (pos: (usize, usize))
        ensures
            pos.0 == char_to_line(self.text(), self.cursor_at() as int),
            pos.0 + pos.1 == pos.0 + self.cursor_at() - line_to_char(self.text(), pos.0 as nat),
            line_to_char(self.text(), pos.0 as nat) <= self.cursor_at(),
    {
        let c = self.cursor_char_offset();
        let row = rope_char_to_line(&self.rope, c);
        proof {
            lemma_count_nl_take_le(self.text(), c as int);
            lemma_line_start_before(self.text(), c as int);
        }
        let start = rope_line_to_char(&self.rope, row);
        (row, c - start)
    }

    /// Where the cursor's line starts: no line break lies between it and the cursor.
    pub fn cursor_line_start(&self) -> (r: usize)
        ensures
            r == line_to_char(self.text(), char_to_line(self.text(), self.cursor_at() as int)),
            r <= self.cursor_at(),
            forall|k: int| r <= k < self.cursor_at() ==> self.text()[k] != '\n',
    {
        let (row, _col) = self.cursor();
        proof {
            use_type_invariant(self);
            lemma_count_nl_take_le(self.text(), self.cursor_at() as int);
            lemma_line_start_before(self.text(), self.cursor_at() as int);
        }
        rope_line_to_char(&self.rope, row)
    }

    /// Number of lines of the text.
    pub fn len_lines(&self) -> (n: usize)
        ensures
            n == len_lines(self.text()),
    {
        rope_len_lines(&self.rope)
    }
}

/// Line breaks in a prefix never outnumber those of the whole text.
pub proof fn lemma_count_nl_take_le(t: Seq<char>, i: int)
    requires
        0 <= i <= t.len(),
    ensures
        count_nl(t.take(i)) <= count_nl(t),
    decreases t.len() - i,
{
    if i < t.len() {
        lemma_count_nl_take_le(t, i + 1);
        assert(t.take(i + 1).drop_last() =~= t.take(i));
    } else {
        assert(t.take(i) =~= t);
    }
}

/// Line starts of a prefix agree with those of the whole text.
pub proof fn lemma_line_to_char_take(t: Seq<char>, i: int, row: nat)
    requires
        0 <= i <= t.len(),
        row <= count_nl(t.take(i)),
    ensures
        line_to_char(t.take(i), row) == line_to_char(t, row),
    decreases t.len() - i,
{
    if i < t.len() {
        assert(t.take(i + 1).drop_last() =~= t.take(i));
        lemma_line_to_char_take(t, i + 1, row);
    } else {
        assert(t.take(i) =~= t);
    }
}

/// Line `row` starts at or before the end when it exists, and right after a line break
/// when it is not the first.
pub proof fn lemma_line_to_char_bounds(t: Seq<char>, row: nat)
    requires
        row <= count_nl(t),
    ensures
        line_to_char(t, row) <= t.len(),
        row > 0 ==> line_to_char(t, row) >= 1 && t[line_to_char(t, row) - 1] == '\n',
        count_nl(t.take(line_to_char(t, row) as int)) == row,
    decreases t.len(),
{
    if row == 0 {
        assert(t.take(0) =~= Seq::<char>::empty());
    } else if t.len() == 0 {
    } else if row <= count_nl(t.drop_last()) {
        lemma_line_to_char_bounds(t.drop_last(), row);
        let p = line_to_char(t, row) as int;
        assert(t.drop_last().take(p) =~= t.take(p));
    } else {
        assert(t.take(t.len() as int) =~= t);
    }
}

/// The line that holds char `c` starts at or before `c`, with no line break between.
pub proof fn lemma_line_start_before(t: Seq<char>, c: int)
    requires
        0 <= c <= t.len(),
    ensures
        line_to_char(t, char_to_line(t, c)) <= c,
        forall|k: int| line_to_char(t, char_to_line(t, c)) <= k < c ==> t[k] != '\n',
    decreases c,
{
    let row = char_to_line(t, c);
    lemma_count_nl_take_le(t, c);
    lemma_line_to_char_take(t, c, row);
    if c == 0 {
        assert(t.take(0) =~= Seq::<char>::empty());
    } else {
        let tc = t.take(c);
        assert(tc.drop_last() =~= t.take(c - 1));
        if t[c - 1] == '\n' {
            assert(line_to_char(tc, row) == c);
        } else {
            lemma_line_start_before(t, c - 1);
            lemma_count_nl_take_le(t, c - 1);
            lemma_line_to_char_take(t, c - 1, row);
        }
    }
}

/// The viewport of a tab, as far as the store reads it.
#[derive(Debug, Clone, Copy, PartialEq, Eq, Structural)]
pub struct Viewport {
    pub line_offset: usize,
    pub height: usize,
    pub follow_cursor: bool,
}

/// A snippet being filled in: where its text starts and its tab stops.
#[derive(Debug, Clone)]
pub struct SnippetSession {
    pub start: usize,
    pub tabstops: Vec<SnippetTabstop>,
}

/// How a tab's text stands to its file on disk: in step with it, or just reloaded
/// from it at a time in milliseconds (shown as such for a while).
#[derive(Debug, Clone, Copy, PartialEq, Eq, Structural)]
pub enum DiskState {
    InSync,
    ReloadedFromDisk { at_ms: u64 },
}

/// An editor tab: its id, whether it has unsaved changes, its file, text, edit
/// version, language, the char ranges that
/// syntax analysis classified as strings or comments, the snippet session, and how
/// it stands to its file on disk.
pub struct EditorTabState {
    pub id: u64,
    pub dirty: bool,
    pub path: Option<String>,
    pub buffer: TextBuffer,
    pub edit_version: u64,
    pub language: Option<LanguageId>,
    pub string_or_comment: Vec<(usize, usize)>,
    pub viewport: Viewport,
    pub snippet_session: Option<SnippetSession>,
    pub disk_state: DiskState,
}

/// Whether char `i` lies in a string or comment range of the tab.
pub open spec fn in_string_or_comment(tab: &EditorTabState, i: int) -> bool {
    exists|k: int|
        0 <= k < tab.string_or_comment@.len() && #[trigger] tab.string_or_comment@[k].0 <= i
            && i < tab.string_or_comment@[k].1
}

impl EditorTabState {
    /// A tab showing `content` with the cursor at the start and no string or comment ranges.
    pub fn new(path: Option<String>, language: Option<LanguageId>, content: &str) -> (tab: Self)
        ensures
            tab.path == path,
            tab.language == language,
            tab.buffer.text() == content@,
            tab.buffer.cursor_at() == 0,
            tab.edit_version == 0,
            tab.string_or_comment@.len() == 0,
            tab.snippet_session is None,
            tab.disk_state == DiskState::InSync,
            tab.id == 0,
            !tab.dirty,
    {
        EditorTabState {
            id: 0,
            dirty: false,
            path,
            buffer: TextBuffer::new(content),
            edit_version: 0,
            language,
            string_or_comment: Vec::new(),
            viewport: Viewport { line_offset: 0, height: 1, follow_cursor: false },
            snippet_session: None,
            disk_state: DiskState::InSync,
        }
    }

    /// Ends the snippet session, if any.
    pub fn cancel_snippet_session(&mut self)
        ensures
            final(self).snippet_session is None,
            final(self).path == old(self).path,
            final(self).buffer == old(self).buffer,
            final(self).edit_version == old(self).edit_version,
            final(self).language == old(self).language,
            final(self).string_or_comment == old(self).string_or_comment,
            final(self).viewport == old(self).viewport,
    {
        self.snippet_session = None;
    }

    /// Starts a snippet session at char `start` with `tabstops`.
    pub fn begin_snippet_session(&mut self, start: usize, tabstops: Vec<SnippetTabstop>)
        ensures
            final(self).snippet_session == Some(SnippetSession { start, tabstops }),
            final(self).path == old(self).path,
            final(self).buffer == old(self).buffer,
            final(self).edit_version == old(self).edit_version,
            final(self).language == old(self).language,
            final(self).string_or_comment == old(self).string_or_comment,
            final(self).viewport == old(self).viewport,
    {
        self.snippet_session = Some(SnippetSession { start, tabstops });
    }

    /// The tab's language.
    pub fn language(&self) -> (l: Option<LanguageId>)
        ensures
            l == self.language,
    {
        self.language
    }

    /// Whether char `i` lies in a string or comment.
    pub fn is_in_string_or_comment_at_char(&self, i: usize) -> (r: bool)
        ensures
            r == in_string_or_comment(self, i as int),
    {
        let mut k: usize = 0;
        while k < self.string_or_comment.len()
            invariant
                k <= self.string_or_comment@.len(),
                forall|j: int|
                    0 <= j < k ==> !(#[trigger] self.string_or_comment@[j].0 <= i
                        && i < self.string_or_comment@[j].1),
            decreases self.string_or_comment@.len() - k,
        {
            let (s, e) = self.string_or_comment[k];
            if s <= i && i < e {
                return true;
            }
            k += 1;
        }
        false
    }

    /// Whether the cursor lies in a string or comment.
    pub fn is_in_string_or_comment_at_cursor(&self) -> (r: bool)
        ensures
            r == in_string_or_comment(self, self.buffer.cursor_at() as int),
    {
        let c = self.buffer.cursor_char_offset();
        self.is_in_string_or_comment_at_char(c)
    }
}

/// An editor pane: its tabs and the index of the active one.
pub struct EditorPane {
    pub tabs: Vec<EditorTabState>,
    pub active: usize,
}

impl EditorPane {
    /// The active tab, if the pane has one at its active index.
    pub fn active_tab(&self) -> (r: Option<&EditorTabState>)
        ensures
            match r {
                Some(t) => self.active < self.tabs@.len() && *t == self.tabs@[self.active as int],
                None => self.active >= self.tabs@.len(),
            },
    {
        if self.active < self.tabs.len() {
            Some(&self.tabs[self.active])
        } else {
            None
        }
    }
}

/// All panes of the editor.
pub struct EditorState {
    pub panes: Vec<EditorPane>,
}

} // verus!
