//! Per-language completion behaviour: which chars trigger or keep the popup,
//! where the typed prefix starts, and the C/C++ `#include` context.

use vstd::prelude::*;

use crate::editor::{in_string_or_comment, lemma_line_start_before, EditorTabState};
use crate::flat_store::completion::{
    after_double_colon, completion_prefix_bounds_at_cursor, completion_triggered_by_insert,
    lemma_word_start, open_paren_scan, scan_window_start, signature_help_should_keep_open,
    triggered_by_insert_spec, word_start,
};
use crate::kernel::{Command, LanguageId};
use crate::rope::{char_to_line, line_to_char, rope_char, rope_line_to_char, rope_text};
use crate::text::{alphanumeric, is_alphanumeric, is_xid_continue, is_xid_start, xid_continue_char, xid_start_char};

verus! {

/// How completion behaves for a language: the default rules, or the C/C++ rules
/// that also handle `#include`, `->`, `<` and `/`.
#[derive(Debug, Clone, Copy, PartialEq, Eq, Structural)]
pub enum CompletionStrategy {
    Default,
    Cpp,
}

/// A space or a tab.
pub open spec fn is_blank(c: char) -> bool {
    c == ' ' || c == '\t'
}

/// First index at or after `i` and before `end` that is not blank, or `i` when `i >= end`.
pub open spec fn skip_blank(t: Seq<char>, i: int, end: int) -> int
    decreases end - i,
{
    if i >= end || i < 0 || i >= t.len() {
        i
    } else if is_blank(t[i]) {
        skip_blank(t, i + 1, end)
    } else {
        i
    }
}

/// Whether `t` holds the word `include` at `i`, before `end`.
pub open spec fn include_at(t: Seq<char>, i: int, end: int) -> bool {
    i + 7 <= end && t.subrange(i, i + 7) == seq!['i', 'n', 'c', 'l', 'u', 'd', 'e']
}

/// What the line up to the cursor says about an `#include`: whether it is an
/// include directive, and the char range of an unterminated `<...` or `"...`
/// path being typed.
#[derive(Debug, Clone, Copy)]
pub struct IncludeLineContext {
    pub is_directive: bool,
    pub bounds: Option<(usize, usize)>,
}

/// The include context for the line from `ls` to cursor `c`.
pub open spec fn include_context_spec(t: Seq<char>, ls: int, c: int) -> (bool, Option<(int, int)>) {
    let i1 = skip_blank(t, ls, c);
    if i1 >= c || t[i1] != '#' {
        (false, None)
    } else {
        let i2 = skip_blank(t, i1 + 1, c);
        if !include_at(t, i2, c) {
            (false, None)
        } else {
            let i3 = skip_blank(t, i2 + 7, c);
            if i3 >= c {
                (true, None)
            } else if t[i3] != '<' && t[i3] != '"' {
                (true, None)
            } else {
                let closer = if t[i3] == '<' {
                    '>'
                } else {
                    '"'
                };
                if exists|k: int| i3 + 1 <= k < c && t[k] == closer {
                    (true, None)
                } else {
                    (true, Some((i3 + 1, c)))
                }
            }
        }
    }
}

/// Start of the cursor's line.
pub open spec fn cursor_line_start(tab: &EditorTabState) -> int {
    line_to_char(tab.buffer.text(), char_to_line(tab.buffer.text(), tab.buffer.cursor_at() as int)) as int
}

proof fn lemma_skip_blank(t: Seq<char>, i: int, end: int)
    requires
        0 <= i <= end <= t.len(),
    ensures
        i <= skip_blank(t, i, end) <= end,
        forall|k: int| i <= k < skip_blank(t, i, end) ==> is_blank(#[trigger] t[k]),
    decreases end - i,
{
    if i < end && is_blank(t[i]) {
        lemma_skip_blank(t, i + 1, end);
    }
}

fn skip_blank_exec(tab: &EditorTabState, i: usize, end: usize) -> (r: usize)
    requires
        i <= end <= tab.buffer.text().len(),
    ensures
        r == skip_blank(tab.buffer.text(), i as int, end as int),
        i <= r <= end,
{
    let rope = tab.buffer.rope();
    let mut k = i;
    let mut scanning = true;
    while scanning && k < end
        invariant
            i <= k <= end <= rope_text(*rope).len(),
            rope_text(*rope) == tab.buffer.text(),
            skip_blank(rope_text(*rope), k as int, end as int) == skip_blank(rope_text(*rope), i as int, end as int),
            !scanning ==> k < end && !is_blank(rope_text(*rope)[k as int]),
        decreases end - k + if scanning { 1int } else { 0int },
    {
        let ch = rope_char(rope, k);
        if ch == ' ' || ch == '\t' {
            k += 1;
        } else {
            scanning = false;
        }
    }
    k
}

/// The `#include` context of the cursor's line up to the cursor.
#[verifier::loop_isolation(false)]
pub fn include_line_context(tab: &EditorTabState) -> (r: IncludeLineContext)
    ensures
        ({
            let (d, b) = include_context_spec(tab.buffer.text(), cursor_line_start(tab), tab.buffer.cursor_at() as int);
            &&& r.is_directive == d
            &&& match r.bounds {
                Some((s, e)) => b == Some((s as int, e as int)),
                None => b is None,
            }
        }),
{
    let rope = tab.buffer.rope();
    let cursor = tab.buffer.cursor_char_offset();
    let line_start = tab.buffer.cursor_line_start();
    let ghost t = tab.buffer.text();
    let i1 = skip_blank_exec(tab, line_start, cursor);
    if i1 >= cursor || rope_char(rope, i1) != '#' {
        return IncludeLineContext { is_directive: false, bounds: None };
    }
    let i2 = skip_blank_exec(tab, i1 + 1, cursor);
    if cursor < 7 || i2 > cursor - 7 || rope_char(rope, i2) != 'i' || rope_char(rope, i2 + 1) != 'n'
        || rope_char(rope, i2 + 2) != 'c' || rope_char(rope, i2 + 3) != 'l' || rope_char(rope, i2 + 4)
        != 'u' || rope_char(rope, i2 + 5) != 'd' || rope_char(rope, i2 + 6) != 'e' {
        proof {
            if include_at(t, i2 as int, cursor as int) {
                assert(t[i2 + 0] == t.subrange(i2 as int, i2 + 7)[0]);
                assert(t[i2 + 1] == t.subrange(i2 as int, i2 + 7)[1]);
                assert(t[i2 + 2] == t.subrange(i2 as int, i2 + 7)[2]);
                assert(t[i2 + 3] == t.subrange(i2 as int, i2 + 7)[3]);
                assert(t[i2 + 4] == t.subrange(i2 as int, i2 + 7)[4]);
                assert(t[i2 + 5] == t.subrange(i2 as int, i2 + 7)[5]);
                assert(t[i2 + 6] == t.subrange(i2 as int, i2 + 7)[6]);
            }
        }
        return IncludeLineContext { is_directive: false, bounds: None };
    }
    proof {
        assert(t.subrange(i2 as int, i2 + 7) =~= seq!['i', 'n', 'c', 'l', 'u', 'd', 'e']);
    }
    let i3 = skip_blank_exec(tab, i2 + 7, cursor);
    if i3 >= cursor {
        return IncludeLineContext { is_directive: true, bounds: None };
    }
    let open = rope_char(rope, i3);
    let closer = if open == '<' {
        '>'
    } else if open == '"' {
        '"'
    } else {
        return IncludeLineContext { is_directive: true, bounds: None };
    };
    let mut scan = i3 + 1;
    while scan < cursor
        invariant
            i3 + 1 <= scan <= cursor <= t.len(),
            t == rope_text(*rope),
            forall|k: int| i3 + 1 <= k < scan ==> t[k] != closer,
        decreases cursor - scan,
    {
        if rope_char(rope, scan) == closer {
            return IncludeLineContext { is_directive: true, bounds: None };
        }
        scan += 1;
    }
    IncludeLineContext { is_directive: true, bounds: Some((i3 + 1, cursor)) }
}

/// The range of an unterminated `#include` path being typed at the cursor.
pub fn include_context_bounds(tab: &EditorTabState) -> (r: Option<(usize, usize)>)
    ensures
        match r {
            Some((s, e)) => include_context_spec(tab.buffer.text(), cursor_line_start(tab), tab.buffer.cursor_at() as int).1
                == Some((s as int, e as int)),
            None => include_context_spec(tab.buffer.text(), cursor_line_start(tab), tab.buffer.cursor_at() as int).1 is None,
        },
{
    include_line_context(tab).bounds
}

/// The char before the cursor is `#` and only blanks precede it on its line.
pub open spec fn hash_at_line_start_spec(t: Seq<char>, ls: int, c: int) -> bool {
    &&& c > 0
    &&& t[c - 1] == '#'
    &&& forall|k: int| ls <= k < c - 1 ==> is_blank(#[trigger] t[k])
}

/// Whether the cursor follows a `#` that only blanks precede on its line.
#[verifier::loop_isolation(false)]
pub fn is_hash_at_line_start(tab: &EditorTabState) -> (r: bool)
    ensures
        r == hash_at_line_start_spec(tab.buffer.text(), cursor_line_start(tab), tab.buffer.cursor_at() as int),
{
    let rope = tab.buffer.rope();
    let cursor = tab.buffer.cursor_char_offset();
    if cursor == 0 {
        return false;
    }
    if rope_char(rope, cursor - 1) != '#' {
        return false;
    }
    let line_start = tab.buffer.cursor_line_start();
    let mut i = line_start;
    while i < cursor - 1
        invariant
            cursor > 0,
            line_start <= cursor,
            line_start <= i,
            cursor <= rope_text(*rope).len(),
            rope_text(*rope) == tab.buffer.text(),
            forall|k: int| line_start <= k < i ==> is_blank(#[trigger] rope_text(*rope)[k]),
        decreases cursor - i,
    {
        let ch = rope_char(rope, i);
        if ch != ' ' && ch != '\t' {
            return false;
        }
        i += 1;
    }
    true
}

/// Whether the two chars before the cursor are `->`.
pub fn preceded_by_dash(tab: &EditorTabState) -> (r: bool)
    ensures
        r == (tab.buffer.cursor_at() >= 2 && tab.buffer.text()[tab.buffer.cursor_at() - 1] == '>'
            && tab.buffer.text()[tab.buffer.cursor_at() - 2] == '-'),
{
    let rope = tab.buffer.rope();
    let cursor = tab.buffer.cursor_char_offset();
    if cursor < 2 {
        return false;
    }
    rope_char(rope, cursor - 1) == '>' && rope_char(rope, cursor - 2) == '-'
}

/// Whether the char before the cursor is `-`.
pub fn preceded_by_dash_for_insert(tab: &EditorTabState) -> (r: bool)
    ensures
        r == (tab.buffer.cursor_at() >= 1 && tab.buffer.text()[tab.buffer.cursor_at() - 1] == '-'),
{
    let rope = tab.buffer.rope();
    let cursor = tab.buffer.cursor_char_offset();
    if cursor == 0 {
        return false;
    }
    rope_char(rope, cursor - 1) == '-'
}

/// `_` or an `XID_Continue` char.
pub open spec fn is_ident_continue(c: char) -> bool {
    c == '_' || xid_continue_char(c)
}

/// `_` or an `XID_Start` char.
pub open spec fn is_ident_start(c: char) -> bool {
    c == '_' || xid_start_char(c)
}

/// Start of the run of identifier chars that ends at `end`.
pub open spec fn ident_run_start(t: Seq<char>, end: int) -> int
    decreases end,
{
    if end <= 0 {
        0
    } else if is_ident_continue(t[end - 1]) {
        ident_run_start(t, end - 1)
    } else {
        end
    }
}

proof fn lemma_ident_run_start(t: Seq<char>, end: int)
    requires
        0 <= end <= t.len(),
    ensures
        0 <= ident_run_start(t, end) <= end,
    decreases end,
{
    if end > 0 && is_ident_continue(t[end - 1]) {
        lemma_ident_run_start(t, end - 1);
    }
}

fn ident_run_start_exec(tab: &EditorTabState, end: usize) -> (r: usize)
    requires
        end <= tab.buffer.text().len(),
    ensures
        r == ident_run_start(tab.buffer.text(), end as int),
        r <= end,
{
    let rope = tab.buffer.rope();
    let mut start = end;
    let mut scanning = true;
    while scanning && start > 0
        invariant
            start <= end <= rope_text(*rope).len(),
            rope_text(*rope) == tab.buffer.text(),
            ident_run_start(rope_text(*rope), start as int) == ident_run_start(rope_text(*rope), end as int),
            !scanning ==> start > 0 && !is_ident_continue(rope_text(*rope)[start - 1]),
        decreases start + if scanning { 1int } else { 0int },
    {
        let ch = rope_char(rope, start - 1);
        if ch == '_' || is_xid_continue(ch) {
            start -= 1;
        } else {
            scanning = false;
        }
    }
    start
}

/// Whether completion may start at the cursor by the default rules: outside strings
/// and comments, after an identifier, after `identifier.`, or after `::`.
pub open spec fn default_context_allows_spec(tab: &EditorTabState) -> bool {
    let t = tab.buffer.text();
    let c = tab.buffer.cursor_at() as int;
    let s = ident_run_start(t, c);
    let ts = ident_run_start(t, s - 1);
    &&& !in_string_or_comment(tab, c)
    &&& {
        ||| (s != c && is_ident_start(t[s]))
        ||| (s > 0 && t[s - 1] == '.' && ts < s - 1 && is_ident_start(t[ts]))
        ||| after_double_colon(t, s)
    }
}

/// Whether completion may start at the cursor by the default rules.
pub fn default_context_allows_completion(tab: &EditorTabState) -> (r: bool)
    ensures
        r == default_context_allows_spec(tab),
{
    if tab.is_in_string_or_comment_at_cursor() {
        return false;
    }
    let rope = tab.buffer.rope();
    let end_char = tab.buffer.cursor_char_offset();
    let start_char = ident_run_start_exec(tab, end_char);
    let ghost t = tab.buffer.text();
    if start_char != end_char {
        let first = rope_char(rope, start_char);
        if first == '_' || is_xid_start(first) {
            return true;
        }
    }
    if start_char > 0 && rope_char(rope, start_char - 1) == '.' {
        let token_start = ident_run_start_exec(tab, start_char - 1);
        if token_start < start_char - 1 {
            let first = rope_char(rope, token_start);
            if first == '_' || is_xid_start(first) {
                return true;
            }
        }
    }
    if start_char >= 2 && rope_char(rope, start_char - 1) == ':' && rope_char(rope, start_char - 2) == ':' {
        return true;
    }
    proof {
        lemma_ident_run_start(t, end_char as int);
        if start_char > 0 {
            lemma_ident_run_start(t, start_char - 1);
        }
    }
    false
}


/// The include context of the cursor's line.
pub open spec fn tab_include_context(tab: &EditorTabState) -> (bool, Option<(int, int)>) {
    include_context_spec(tab.buffer.text(), cursor_line_start(tab), tab.buffer.cursor_at() as int)
}

/// Where the typed prefix starts and ends for a strategy.
pub open spec fn prefix_bounds_spec(strategy: CompletionStrategy, tab: &EditorTabState) -> (int, int) {
    let c = tab.buffer.cursor_at() as int;
    match strategy {
        CompletionStrategy::Cpp => match tab_include_context(tab).1 {
            Some(b) => b,
            None => (word_start(tab.buffer.text(), c), c),
        },
        CompletionStrategy::Default => (word_start(tab.buffer.text(), c), c),
    }
}

/// Chars that keep the popup open for a strategy.
pub open spec fn keeps_open_on_char_spec(strategy: CompletionStrategy, ch: char) -> bool {
    match strategy {
        CompletionStrategy::Default => alphanumeric(ch) || ch == '_' || ch == '.',
        CompletionStrategy::Cpp => alphanumeric(ch) || ch == '_' || ch == '.' || ch == '>'
            || ch == '/' || ch == '<',
    }
}

/// Whether a command closes the popup for a strategy: by the default rules, except that
/// for C/C++ `/` and `<` keep it open in an include path and `>` keeps it open after
/// `-` or in an include path.
pub open spec fn close_on_command_spec(strategy: CompletionStrategy, cmd: Command, tab: Option<&EditorTabState>) -> bool {
    match strategy {
        CompletionStrategy::Default => default_close_spec(strategy, cmd),
        CompletionStrategy::Cpp => match cmd {
            Command::InsertChar(ch) => if ch == '/' || ch == '<' {
                match tab {
                    Some(t) => tab_include_context(t).1 is None,
                    None => true,
                }
            } else if ch == '>' {
                match tab {
                    Some(t) => !(t.buffer.cursor_at() >= 1 && t.buffer.text()[t.buffer.cursor_at() - 1]
                        == '-') && tab_include_context(t).1 is None,
                    None => true,
                }
            } else {
                default_close_spec(strategy, cmd)
            },
            _ => default_close_spec(strategy, cmd),
        },
    }
}

/// Typing `.` after a receiver keeps the popup open, whatever the language and the
/// tab: member access continues completion.
pub proof fn law_member_access_keeps_completion_open(strategy: CompletionStrategy, tab: Option<&EditorTabState>)
    ensures
        keeps_open_on_char_spec(strategy, '.'),
        !close_on_command_spec(strategy, Command::InsertChar('.'), tab),
{
}

/// Typing an ASCII letter, digit or `_` keeps the popup open, whatever the language and
/// the tab: the identifier being completed grows.
pub proof fn law_identifier_chars_keep_completion_open(strategy: CompletionStrategy, ch: char, tab: Option<&EditorTabState>)
    requires
        ('a' <= ch <= 'z') || ('A' <= ch <= 'Z') || ('0' <= ch <= '9') || ch == '_',
    ensures
        keeps_open_on_char_spec(strategy, ch),
        !close_on_command_spec(strategy, Command::InsertChar(ch), tab),
{
}

/// Typing a space or a bracket, comma or semicolon closes the popup, whatever the
/// language and the tab: the word being completed has ended.
pub proof fn law_separators_close_completion(strategy: CompletionStrategy, ch: char, tab: Option<&EditorTabState>)
    requires
        ch == ' ' || ch == '(' || ch == ')' || ch == ',' || ch == ';' || ch == '{' || ch == '}',
    ensures
        !keeps_open_on_char_spec(strategy, ch),
        close_on_command_spec(strategy, Command::InsertChar(ch), tab),
{
}

/// The C/C++ strategy keeps the popup open on every char the default strategy keeps
/// it open on, and also on `>`, `/` and `<`.
pub proof fn law_cpp_keeps_open_where_default_does(ch: char)
    ensures
        keeps_open_on_char_spec(CompletionStrategy::Default, ch) ==> keeps_open_on_char_spec(CompletionStrategy::Cpp, ch),
        keeps_open_on_char_spec(CompletionStrategy::Cpp, '>'),
        keeps_open_on_char_spec(CompletionStrategy::Cpp, '/'),
        keeps_open_on_char_spec(CompletionStrategy::Cpp, '<'),
{
}

/// Commands that close the popup by the default rules for a strategy.
pub open spec fn default_close_spec(strategy: CompletionStrategy, cmd: Command) -> bool {
    match cmd {
        Command::LspCompletion => false,
        Command::LspSemanticTokens | Command::LspInlayHints | Command::LspFoldingRange => false,
        Command::InsertChar(ch) => !keeps_open_on_char_spec(strategy, ch),
        Command::DeleteBackward | Command::DeleteForward | Command::DeleteSelection => false,
        _ => true,
    }
}

/// Whether the popup stays open by the default composite rule, with the
/// strategy's prefix bounds.
pub open spec fn default_keep_open_spec(tab: &EditorTabState, b: (int, int)) -> bool {
    let t = tab.buffer.text();
    let (s, e) = b;
    &&& !in_string_or_comment(tab, tab.buffer.cursor_at() as int)
    &&& (s != e || (s > 0 && t[s - 1] == '.') || after_double_colon(t, s))
}

/// Whether the C/C++ popup stays open: inside an include path after an opener or
/// with a partial path; never elsewhere on an include line; otherwise by the default
/// rule, also after `->`.
pub open spec fn cpp_keep_open_spec(tab: &EditorTabState) -> bool {
    let t = tab.buffer.text();
    let ctx = tab_include_context(tab);
    match ctx.1 {
        Some((s, e)) => s != e || (e > 0 && (t[e - 1] == '<' || t[e - 1] == '"' || t[e - 1] == '/')),
        None => if ctx.0 {
            false
        } else {
            let c = tab.buffer.cursor_at() as int;
            let s = word_start(t, c);
            &&& !in_string_or_comment(tab, c)
            &&& (s != c || (s > 0 && t[s - 1] == '.') || after_double_colon(t, s) || (s >= 2 && t[s - 1]
                == '>' && t[s - 2] == '-'))
        },
    }
}

/// The default rules' prefix bounds: the identifier run before the cursor.
pub fn default_prefix_bounds(tab: &EditorTabState) -> (r: (usize, usize))
    ensures
        (r.0 as int, r.1 as int) == prefix_bounds_spec(CompletionStrategy::Default, tab),
        r.1 <= tab.buffer.text().len(),
{
    completion_prefix_bounds_at_cursor(tab)
}

/// The default rules for requesting completion on an inserted char.
pub fn default_triggered_by_insert(tab: &EditorTabState, inserted: char, triggers: &[char]) -> (r: bool)
    ensures
        r == triggered_by_insert_spec(tab.buffer.text(), tab.buffer.cursor_at() as int, inserted, triggers@),
{
    completion_triggered_by_insert(tab, inserted, triggers)
}

/// The default rule for keeping signature help open.
pub fn default_signature_help_should_keep_open(tab: &EditorTabState) -> (r: bool)
    ensures
        r == (!in_string_or_comment(tab, tab.buffer.cursor_at() as int) && open_paren_scan(
            tab,
            scan_window_start(tab.buffer.cursor_at() as int),
            tab.buffer.cursor_at() as int,
            0,
        )),
{
    signature_help_should_keep_open(tab)
}

/// Whether a command closes the popup by the default rules of `strategy`.
pub fn default_should_close_on_command(strategy: &CompletionStrategy, cmd: &Command) -> (r: bool)
    ensures
        r == default_close_spec(*strategy, *cmd),
{
    match cmd {
        Command::LspCompletion => false,
        Command::LspSemanticTokens | Command::LspInlayHints | Command::LspFoldingRange => false,
        Command::InsertChar(ch) => !strategy.keeps_open_on_char(*ch),
        Command::DeleteBackward | Command::DeleteForward | Command::DeleteSelection => false,
        _ => true,
    }
}

/// The strategy for a language: the C/C++ rules for C and C++, the default otherwise.
pub fn completion_strategy_for(language: Option<LanguageId>) -> (r: CompletionStrategy)
    ensures
        r == if language == Some(LanguageId::C) || language == Some(LanguageId::Cpp) {
            CompletionStrategy::Cpp
        } else {
            CompletionStrategy::Default
        },
{
    match language {
        Some(LanguageId::C) | Some(LanguageId::Cpp) => CompletionStrategy::Cpp,
        _ => CompletionStrategy::Default,
    }
}

/// The strategy for a tab's language.
pub fn strategy_for_tab(tab: &EditorTabState) -> (r: CompletionStrategy)
    ensures
        r == if tab.language == Some(LanguageId::C) || tab.language == Some(LanguageId::Cpp) {
            CompletionStrategy::Cpp
        } else {
            CompletionStrategy::Default
        },
{
    completion_strategy_for(tab.language())
}

impl CompletionStrategy {
    /// Whether typing `ch` starts the completion debounce.
    pub fn debounce_triggered_by_char(&self, ch: char) -> (r: bool)
        ensures
            r == match *self {
                CompletionStrategy::Default => alphanumeric(ch) || ch == '_' || ch == '.' || ch == ':',
                CompletionStrategy::Cpp => alphanumeric(ch) || ch == '_' || ch == '.' || ch == ':'
                    || ch == '#' || ch == '<' || ch == '>' || ch == '/',
            },
    {
        match self {
            CompletionStrategy::Default => is_alphanumeric(ch) || ch == '_' || ch == '.' || ch == ':',
            CompletionStrategy::Cpp => is_alphanumeric(ch) || ch == '_' || ch == '.' || ch == ':' || ch
                == '#' || ch == '<' || ch == '>' || ch == '/',
        }
    }

    /// Whether the cursor context allows completion: by the default rules, and for
    /// C/C++ also in an include path or after a `#` at line start, never elsewhere on
    /// an include line.
    pub fn context_allows_completion(&self, tab: &EditorTabState) -> (r: bool)
        ensures
            r == match *self {
                CompletionStrategy::Default => default_context_allows_spec(tab),
                CompletionStrategy::Cpp => if tab_include_context(tab).1 is Some {
                    true
                } else if tab_include_context(tab).0 {
                    false
                } else {
                    hash_at_line_start_spec(tab.buffer.text(), cursor_line_start(tab), tab.buffer.cursor_at() as int)
                        || default_context_allows_spec(tab)
                },
            },
    {
        match self {
            CompletionStrategy::Default => default_context_allows_completion(tab),
            CompletionStrategy::Cpp => {
                let line_ctx = include_line_context(tab);
                if line_ctx.bounds.is_some() {
                    return true;
                }
                if line_ctx.is_directive {
                    return false;
                }
                if is_hash_at_line_start(tab) {
                    return true;
                }
                default_context_allows_completion(tab)
            },
        }
    }

    /// Whether inserting `ch` keeps the popup open.
    pub fn keeps_open_on_char(&self, ch: char) -> (r: bool)
        ensures
            r == keeps_open_on_char_spec(*self, ch),
    {
        match self {
            CompletionStrategy::Default => is_alphanumeric(ch) || ch == '_' || ch == '.',
            CompletionStrategy::Cpp => is_alphanumeric(ch) || ch == '_' || ch == '.' || ch == '>' || ch == '/'
                || ch == '<',
        }
    }

    /// Where the typed prefix lies: the include path being typed for C/C++, else the
    /// identifier run before the cursor.
    pub fn prefix_bounds(&self, tab: &EditorTabState) -> (r: (usize, usize))
        ensures
            (r.0 as int, r.1 as int) == prefix_bounds_spec(*self, tab),
    {
        match self {
            CompletionStrategy::Default => default_prefix_bounds(tab),
            CompletionStrategy::Cpp => {
                if let Some(bounds) = include_context_bounds(tab) {
                    return bounds;
                }
                default_prefix_bounds(tab)
            },
        }
    }

    /// Whether inserting `ch` requests completion; C/C++ also on `#` at line start,
    /// on `->`, and on `<` or `/` in an include path.
    pub fn triggered_by_insert(&self, tab: &EditorTabState, ch: char, triggers: &[char]) -> (r: bool)
        ensures
            r == match *self {
                CompletionStrategy::Default => triggered_by_insert_spec(
                    tab.buffer.text(),
                    tab.buffer.cursor_at() as int,
                    ch,
                    triggers@,
                ),
                CompletionStrategy::Cpp => {
                    let t = tab.buffer.text();
                    let c = tab.buffer.cursor_at() as int;
                    ||| (ch == '#' && hash_at_line_start_spec(t, cursor_line_start(tab), c))
                    ||| (ch == '>' && c >= 2 && t[c - 1] == '>' && t[c - 2] == '-')
                    ||| ((ch == '<' || ch == '/') && tab_include_context(tab).1 is Some)
                    ||| triggered_by_insert_spec(t, c, ch, triggers@)
                },
            },
    {
        match self {
            CompletionStrategy::Default => default_triggered_by_insert(tab, ch, triggers),
            CompletionStrategy::Cpp => {
                if ch == '#' && is_hash_at_line_start(tab) {
                    return true;
                }
                if ch == '>' && preceded_by_dash(tab) {
                    return true;
                }
                if ch == '<' && include_context_bounds(tab).is_some() {
                    return true;
                }
                if ch == '/' && include_context_bounds(tab).is_some() {
                    return true;
                }
                default_triggered_by_insert(tab, ch, triggers)
            },
        }
    }

    /// Whether inserting `ch` requests signature help.
    pub fn signature_help_triggered(&self, ch: char, triggers: &[char]) -> (r: bool)
        ensures
            r == if triggers@.len() == 0 {
                ch == '(' || ch == ','
            } else {
                triggers@.contains(ch)
            },
    {
        crate::flat_store::completion::signature_help_triggered_by_insert(ch, triggers)
    }

    /// Whether inserting `ch` closes signature help.
    pub fn signature_help_closed_by(&self, ch: char) -> (r: bool)
        ensures
            r == (ch == ')'),
    {
        ch == ')'
    }

    /// Whether signature help stays open.
    pub fn signature_help_should_keep_open(&self, tab: &EditorTabState) -> (r: bool)
        ensures
            r == (!in_string_or_comment(tab, tab.buffer.cursor_at() as int) && open_paren_scan(
                tab,
                scan_window_start(tab.buffer.cursor_at() as int),
                tab.buffer.cursor_at() as int,
                0,
            )),
    {
        default_signature_help_should_keep_open(tab)
    }

    /// Whether a command closes the popup; for C/C++, `/` and `<` keep it open in an
    /// include path and `>` keeps it open after `-` or in an include path.
    pub fn should_close_on_command(&self, cmd: &Command, tab: Option<&EditorTabState>) -> (r: bool)
        ensures
            r == close_on_command_spec(*self, *cmd, tab),
    {
        match self {
            CompletionStrategy::Default => default_should_close_on_command(self, cmd),
            CompletionStrategy::Cpp => match cmd {
                Command::InsertChar(ch) => {
                    if *ch == '/' || *ch == '<' {
                        match tab {
                            Some(t) => include_context_bounds(t).is_none(),
                            None => true,
                        }
                    } else if *ch == '>' {
                        match tab {
                            Some(t) => !preceded_by_dash_for_insert(t) && include_context_bounds(t).is_none(),
                            None => true,
                        }
                    } else {
                        default_should_close_on_command(self, cmd)
                    }
                },
                _ => default_should_close_on_command(self, cmd),
            },
        }
    }

    /// Whether the popup stays open at the cursor.
    pub fn completion_should_keep_open(&self, tab: &EditorTabState) -> (r: bool)
        ensures
            r == match *self {
                CompletionStrategy::Default => default_keep_open_spec(tab, prefix_bounds_spec(*self, tab)),
                CompletionStrategy::Cpp => cpp_keep_open_spec(tab),
            },
    {
        match self {
            CompletionStrategy::Default => {
                if tab.is_in_string_or_comment_at_cursor() {
                    return false;
                }
                let (start_char, end_char) = self.prefix_bounds(tab);
                if start_char != end_char {
                    return true;
                }
                let _cursor = tab.buffer.cursor_char_offset();
                proof {
                    lemma_word_start(tab.buffer.text(), tab.buffer.cursor_at() as int);
                }
                let rope = tab.buffer.rope();
                if start_char > 0 && rope_char(rope, start_char - 1) == '.' {
                    return true;
                }
                if start_char >= 2 && rope_char(rope, start_char - 1) == ':' && rope_char(rope, start_char - 2)
                    == ':' {
                    return true;
                }
                false
            },
            CompletionStrategy::Cpp => {
                let line_ctx = include_line_context(tab);
                let rope = tab.buffer.rope();
                if let Some((start_char, end_char)) = line_ctx.bounds {
                    if start_char != end_char {
                        return true;
                    }
                    let _cursor = tab.buffer.cursor_char_offset();
                    proof {
                        lemma_include_bounds(tab);
                    }
                    if end_char > 0 {
                        let prev = rope_char(rope, end_char - 1);
                        if prev == '<' || prev == '"' || prev == '/' {
                            return true;
                        }
                    }
                    return false;
                }
                if line_ctx.is_directive {
                    return false;
                }
                if tab.is_in_string_or_comment_at_cursor() {
                    return false;
                }
                let (start_char, end_char) = self.prefix_bounds(tab);
                if start_char != end_char {
                    return true;
                }
                let _cursor = tab.buffer.cursor_char_offset();
                proof {
                    lemma_word_start(tab.buffer.text(), tab.buffer.cursor_at() as int);
                }
                if start_char > 0 && rope_char(rope, start_char - 1) == '.' {
                    return true;
                }
                if start_char >= 2 && rope_char(rope, start_char - 1) == ':' && rope_char(rope, start_char - 2)
                    == ':' {
                    return true;
                }
                if start_char >= 2 && rope_char(rope, start_char - 1) == '>' && rope_char(rope, start_char - 2)
                    == '-' {
                    return true;
                }
                false
            },
        }
    }
}

/// An include path range ends at the cursor, within the text.
pub proof fn lemma_include_bounds(tab: &EditorTabState)
    ensures
        tab_include_context(tab).1 matches Some((s, e)) ==> e == tab.buffer.cursor_at() && s <= e,
{
}

} // verus!
