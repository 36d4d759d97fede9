//! Conversions between buffer char offsets and LSP positions in UTF-8, UTF-16 or
//! UTF-32 units, and line ranges for LSP requests.

use ropey::Rope;
use rustc_hash::FxHasher;
use std::hash::{Hash, Hasher};
use vstd::prelude::*;

use crate::editor::{lemma_count_nl_take_le, lemma_line_start_before, lemma_line_to_char_bounds, EditorTabState};
use crate::ports::{
    LspFoldingRange, LspInlayHint, LspPosition, LspPositionEncoding, LspRange, LspSemanticToken,
    LspSemanticTokensLegend, ProblemRange,
};
use crate::rope::{
    char_to_byte, char_to_line, count_nl, len_lines, line_to_char, rope_char, rope_char_to_byte,
    rope_char_to_line, rope_len_chars, rope_len_lines, rope_line_to_char, rope_text,
};
use crate::text::{len_utf16, len_utf8, utf16_width, utf8_width};

pub use crate::store::intel::lsp::build_inlay_hint_lines_snapshot;

verus! {

/// Units one char takes in an encoding.
pub open spec fn unit_width(c: char, enc: LspPositionEncoding) -> nat {
    match enc {
        LspPositionEncoding::Utf8 => utf8_width(c),
        LspPositionEncoding::Utf16 => utf16_width(c),
        LspPositionEncoding::Utf32 => 1,
    }
}

/// Units a char sequence takes in an encoding.
pub open spec fn units(s: Seq<char>, enc: LspPositionEncoding) -> nat
    decreases s.len(),
{
    if s.len() == 0 {
        0
    } else {
        units(s.drop_last(), enc) + unit_width(s.last(), enc)
    }
}

/// The chars of line `row`, with its line break.
pub open spec fn line_chars(t: Seq<char>, row: nat) -> Seq<char> {
    t.subrange(line_to_char(t, row) as int, line_to_char(t, row + 1) as int)
}

/// Whether the line content ends before `i`: a `'\n'`, or a `'\r'` right before one.
pub open spec fn at_line_end(line: Seq<char>, i: int) -> bool {
    line[i] == '\n' || (line[i] == '\r' && i + 1 < line.len() && line[i + 1] == '\n')
}

/// Number of chars of a line before its line break.
pub open spec fn line_content_len(line: Seq<char>, i: int) -> nat
    decreases line.len() - i,
{
    if i >= line.len() || i < 0 || at_line_end(line, i) {
        if i < 0 {
            0
        } else {
            i as nat
        }
    } else {
        line_content_len(line, i + 1)
    }
}

/// Number of chars of a line whose units fit in column `col`, stopping at the line break.
pub open spec fn col_scan(line: Seq<char>, i: int, used: nat, col: nat, enc: LspPositionEncoding) -> nat
    decreases line.len() - i,
{
    if i >= line.len() || i < 0 || at_line_end(line, i) || used + unit_width(line[i], enc) > col {
        if i < 0 {
            0
        } else {
            i as nat
        }
    } else {
        col_scan(line, i + 1, used + unit_width(line[i], enc), col, enc)
    }
}

fn unit_width_exec(c: char, encoding: LspPositionEncoding) -> (r: u64)
    ensures
        r == unit_width(c, encoding),
        1 <= r <= 4,
{
    match encoding {
        LspPositionEncoding::Utf8 => len_utf8(c) as u64,
        LspPositionEncoding::Utf16 => len_utf16(c) as u64,
        LspPositionEncoding::Utf32 => 1,
    }
}

proof fn lemma_line_range(t: Seq<char>, row: nat)
    requires
        row < len_lines(t),
    ensures
        line_to_char(t, row) <= line_to_char(t, row + 1) <= t.len(),
    decreases t.len(),
{
    lemma_line_to_char_mono(t, row);
}

/// Line starts grow with the line index.
pub proof fn lemma_line_to_char_mono(t: Seq<char>, row: nat)
    ensures
        line_to_char(t, row) <= line_to_char(t, row + 1) <= t.len(),
    decreases t.len(),
{
    if row == 0 {
        if count_nl(t) >= 1 {
            lemma_line_to_char_bounds(t, 1);
        }
    } else if row + 1 > count_nl(t) {
        if row <= count_nl(t) {
            lemma_line_to_char_bounds(t, row);
        }
    } else if t.len() == 0 {
    } else if row + 1 <= count_nl(t.drop_last()) {
        lemma_line_to_char_mono(t.drop_last(), row);
    } else {
        if row <= count_nl(t.drop_last()) {
            lemma_line_to_char_mono(t.drop_last(), row);
        }
    }
}

/// The number of chars of line `row` of a rope whose units fit in column `col`,
/// stopping before the line break.
pub fn rope_col_to_char_offset_in_line(rope: &Rope, row: usize, col: u32, encoding: LspPositionEncoding) -> (r: usize)
    requires
        row < len_lines(rope_text(*rope)),
    ensures
        r == col_scan(line_chars(rope_text(*rope), row as nat), 0, 0, col as nat, encoding),
{
    let ghost t = rope_text(*rope);
    let _lines = rope_len_lines(rope);
    let start = rope_line_to_char(rope, row);
    let end = rope_line_to_char(rope, row + 1);
    proof {
        lemma_line_range(t, row as nat);
    }
    let ghost line = line_chars(t, row as nat);
    let mut used: u64 = 0;
    let mut i: usize = start;
    let mut scanning = true;
    while scanning && i < end
        invariant
            start <= i <= end <= t.len(),
            t == rope_text(*rope),
            line == t.subrange(start as int, end as int),
            used <= col,
            col_scan(line, (i - start) as int, used as nat, col as nat, encoding) == col_scan(line, 0, 0, col as nat, encoding),
            !scanning ==> col_scan(line, (i - start) as int, used as nat, col as nat, encoding) == (i - start) as nat,
        decreases end - i + if scanning { 1int } else { 0int },
    {
        let ch = rope_char(rope, i);
        let ghost k = (i - start) as int;
        proof {
            assert(line[k] == ch);
        }
        if ch == '\n' {
            scanning = false;
        } else if ch == '\r' && i + 1 < end && rope_char(rope, i + 1) == '\n' {
            proof {
                assert(line[k + 1] == t[i + 1]);
            }
            scanning = false;
        } else {
            let next = used + unit_width_exec(ch, encoding);
            proof {
                if ch == '\r' && i + 1 < end {
                    assert(line[k + 1] == t[i + 1]);
                }
            }
            if next > col as u64 {
                scanning = false;
            } else {
                used = next;
                i += 1;
            }
        }
    }
    i - start
}

/// The number of chars of line `row` (of `tab`) whose units fit in column `col`,
/// stopping before the line break.
pub fn lsp_col_to_char_offset_in_line(tab: &EditorTabState, row: usize, col: u32, encoding: LspPositionEncoding) -> (r: usize)
    requires
        row < len_lines(tab.buffer.text()),
    ensures
        r == col_scan(line_chars(tab.buffer.text(), row as nat), 0, 0, col as nat, encoding),
{
    rope_col_to_char_offset_in_line(tab.buffer.rope(), row, col, encoding)
}

/// Number of chars of line `row` before its line break.
pub fn line_len_chars(tab: &EditorTabState, row: usize) -> (r: usize)
    requires
        row < len_lines(tab.buffer.text()),
    ensures
        r == line_content_len(line_chars(tab.buffer.text(), row as nat), 0),
{
    let rope = tab.buffer.rope();
    let ghost t = tab.buffer.text();
    let _lines = rope_len_lines(rope);
    let start = rope_line_to_char(rope, row);
    let end = rope_line_to_char(rope, row + 1);
    proof {
        lemma_line_range(t, row as nat);
    }
    let ghost line = line_chars(t, row as nat);
    let mut i: usize = start;
    let mut scanning = true;
    while scanning && i < end
        invariant
            start <= i <= end <= t.len(),
            t == rope_text(*rope),
            line == t.subrange(start as int, end as int),
            line_content_len(line, (i - start) as int) == line_content_len(line, 0),
            !scanning ==> line_content_len(line, (i - start) as int) == (i - start) as nat,
        decreases end - i + if scanning { 1int } else { 0int },
    {
        let ch = rope_char(rope, i);
        let ghost k = (i - start) as int;
        proof {
            assert(line[k] == ch);
            if i + 1 < end {
                assert(line[k + 1] == t[i + 1]);
            }
        }
        if ch == '\n' {
            scanning = false;
        } else if ch == '\r' && i + 1 < end && rope_char(rope, i + 1) == '\n' {
            scanning = false;
        } else {
            i += 1;
        }
    }
    i - start
}


/// The char offset that an LSP line and column designate: the line clamped to the
/// last one, the column clamped to the line's content, the offset to the text.
pub open spec fn position_to_char(t: Seq<char>, line: nat, col: nat, enc: LspPositionEncoding) -> int {
    let li = if line < len_lines(t) - 1 {
        line
    } else {
        (len_lines(t) - 1) as nat
    };
    let l = line_chars(t, li);
    let cc = col_scan(l, 0, 0, col, enc);
    let ll = line_content_len(l, 0);
    let off = line_to_char(t, li) + if cc < ll {
        cc
    } else {
        ll
    };
    if off < t.len() {
        off as int
    } else {
        t.len() as int
    }
}

/// The byte offset of an LSP position; 0 in an empty buffer.
pub fn lsp_position_to_byte_offset(tab: &EditorTabState, line: u32, column: u32, encoding: LspPositionEncoding) -> (r: usize)
    ensures
        r == if tab.buffer.text().len() == 0 {
            0
        } else {
            char_to_byte(tab.buffer.text(), position_to_char(tab.buffer.text(), line as nat, column as nat, encoding))
        },
{
    let rope = tab.buffer.rope();
    let n = rope_len_chars(rope);
    if n == 0 {
        return 0;
    }
    let lines = rope_len_lines(rope);
    let last = lines - 1;
    let line_index = if (line as usize) < last { line as usize } else { last };
    let col_chars = lsp_col_to_char_offset_in_line(tab, line_index, column, encoding);
    let line_start = rope_line_to_char(rope, line_index);
    let line_len = line_len_chars(tab, line_index);
    let within = if col_chars < line_len { col_chars } else { line_len };
    proof {
        lemma_line_range(tab.buffer.text(), line_index as nat);
    }
    let off = if within <= n - line_start { line_start + within } else { n };
    rope_char_to_byte(rope, off)
}

/// The byte offset where a diagnostic starts.
pub fn problem_byte_offset(tab: &EditorTabState, range: ProblemRange, encoding: LspPositionEncoding) -> (r: usize)
    ensures
        r == if tab.buffer.text().len() == 0 {
            0
        } else {
            char_to_byte(
                tab.buffer.text(),
                position_to_char(tab.buffer.text(), range.start_line as nat, range.start_col as nat, encoding),
            )
        },
{
    lsp_position_to_byte_offset(tab, range.start_line, range.start_col, encoding)
}

/// Units of the chars `start..end` of the text, stopping at `stop`.
fn units_between(tab: &EditorTabState, start: usize, end: usize, encoding: LspPositionEncoding) -> (r: u128)
    requires
        start <= end <= tab.buffer.text().len(),
    ensures
        r == units(tab.buffer.text().subrange(start as int, end as int), encoding),
{
    let rope = tab.buffer.rope();
    let ghost t = tab.buffer.text();
    let mut sum: u128 = 0;
    let mut i = start;
    while i < end
        invariant
            start <= i <= end <= t.len(),
            t == rope_text(*rope),
            sum == units(t.subrange(start as int, i as int), encoding),
            sum <= 4 * (i - start),
        decreases end - i,
    {
        let ch = rope_char(rope, i);
        proof {
            assert(t.subrange(start as int, i + 1).drop_last() =~= t.subrange(start as int, i as int));
        }
        sum = sum + unit_width_exec(ch, encoding) as u128;
        i += 1;
    }
    sum
}

/// The LSP column of char `off` on line `row` starting at `ls`: the units of the
/// line's chars before it, wrapped to 32 bits.
pub open spec fn column_of(t: Seq<char>, row: nat, off: int, enc: LspPositionEncoding) -> u32 {
    let ls = line_to_char(t, row) as int;
    let le = line_to_char(t, row + 1) as int;
    let upto = if off < le {
        off
    } else {
        le
    };
    units(t.subrange(ls, upto), enc) as u32
}

/// The LSP position of a char offset (clamped to the text).
pub fn lsp_position_from_char_offset(tab: &EditorTabState, char_offset: usize, encoding: LspPositionEncoding) -> (p: LspPosition)
    ensures
        ({
            let t = tab.buffer.text();
            let off = if char_offset < t.len() {
                char_offset as int
            } else {
                t.len() as int
            };
            &&& p.line == char_to_line(t, off) as u32
            &&& p.character == column_of(t, char_to_line(t, off), off, encoding)
        }),
{
    let rope = tab.buffer.rope();
    let ghost t = tab.buffer.text();
    let n = rope_len_chars(rope);
    let off = if char_offset < n { char_offset } else { n };
    let row = rope_char_to_line(rope, off);
    let _lines = rope_len_lines(rope);
    proof {
        lemma_count_nl_take_le(t, off as int);
        lemma_line_start_before(t, off as int);
        lemma_line_range(t, row as nat);
    }
    let line_start = rope_line_to_char(rope, row);
    let line_end = rope_line_to_char(rope, row + 1);
    let upto = if off < line_end { off } else { line_end };
    let character = units_between(tab, line_start, upto, encoding);
    LspPosition { line: #[verifier::truncate] (row as u32), character: #[verifier::truncate] (character as u32) }
}

/// The LSP position of a buffer position `(row, col)` on an existing line; a column
/// past the line counts the whole line.
pub fn lsp_position_from_buffer_pos(tab: &EditorTabState, pos: (usize, usize), encoding: LspPositionEncoding) -> (r: (u32, u32))
    requires
        pos.0 < len_lines(tab.buffer.text()),
    ensures
        r.0 == pos.0 as u32,
        r.1 == column_of(
            tab.buffer.text(),
            pos.0 as nat,
            line_to_char(tab.buffer.text(), pos.0 as nat) + pos.1,
            encoding,
        ),
{
    let rope = tab.buffer.rope();
    let (row, col) = pos;
    let _lines = rope_len_lines(rope);
    let _n = rope_len_chars(rope);
    let line_start = rope_line_to_char(rope, row);
    let line_end = rope_line_to_char(rope, row + 1);
    proof {
        lemma_line_range(tab.buffer.text(), row as nat);
    }
    let upto = if col < line_end - line_start { line_start + col } else { line_end };
    let character = units_between(tab, line_start, upto, encoding);
    (#[verifier::truncate] (row as u32), #[verifier::truncate] (character as u32))
}

/// The LSP position of the cursor.
pub fn lsp_position_from_cursor(tab: &EditorTabState, encoding: LspPositionEncoding) -> (r: (u32, u32))
    ensures
        ({
            let t = tab.buffer.text();
            let c = tab.buffer.cursor_at() as int;
            &&& r.0 == char_to_line(t, c) as u32
            &&& r.1 == column_of(t, char_to_line(t, c), c, encoding)
        }),
{
    let pos = tab.buffer.cursor();
    let _c = tab.buffer.cursor_char_offset();
    proof {
        lemma_count_nl_take_le(tab.buffer.text(), tab.buffer.cursor_at() as int);
    }
    lsp_position_from_buffer_pos(tab, pos, encoding)
}

/// The LSP range covering lines `start_line..end_line_exclusive`, clamped to the
/// buffer and at least one line long; `None` when the range is empty. It ends at
/// the start of the following line, or at the end of the text for the last line.
pub fn lsp_range_for_full_lines(
    tab: &EditorTabState,
    start_line: usize,
    end_line_exclusive: usize,
    encoding: LspPositionEncoding,
) -> (r: Option<LspRange>)
    ensures
        start_line >= end_line_exclusive ==> r is None,
        start_line < end_line_exclusive ==> ({
            let t = tab.buffer.text();
            let total = len_lines(t);
            let s = if start_line < total - 1 {
                start_line as int
            } else {
                total - 1
            };
            let e0 = if end_line_exclusive > s + 1 {
                end_line_exclusive as int
            } else {
                s + 1
            };
            let e = if e0 < total {
                e0
            } else {
                total as int
            };
            &&& r matches Some(range)
            &&& range.start == (LspPosition { line: s as u32, character: 0 })
            &&& e < total ==> range.end == (LspPosition { line: e as u32, character: 0 })
            &&& e >= total ==> range.end.line == char_to_line(t, t.len() as int) as u32 && range.end.character
                == column_of(t, char_to_line(t, t.len() as int), t.len() as int, encoding)
        }),
{
    if start_line >= end_line_exclusive {
        return None;
    }
    let rope = tab.buffer.rope();
    let total_lines = rope_len_lines(rope);
    let start_line = if start_line < total_lines - 1 { start_line } else { total_lines - 1 };
    let lower = if end_line_exclusive > start_line + 1 { end_line_exclusive } else { start_line + 1 };
    let end_line_exclusive = if lower < total_lines { lower } else { total_lines };
    let start = LspPosition { line: start_line as u32, character: 0 };
    let end = if end_line_exclusive < total_lines {
        LspPosition { line: end_line_exclusive as u32, character: 0 }
    } else {
        let n = rope_len_chars(rope);
        lsp_position_from_char_offset(tab, n, encoding)
    };
    Some(LspRange { start, end })
}

/// The line after the last one a range touches: its end line, or the next when the
/// end column is past the line start.
pub fn end_line_exclusive_from_range(range: &LspRange) -> (r: usize)
    ensures
        r == if range.end.character == 0 {
            range.end.line as int
        } else if range.end.line as int + 1 <= usize::MAX {
            range.end.line as int + 1
        } else {
            usize::MAX as int
        },
{
    let end_line = range.end.line as usize;
    if range.end.character == 0 {
        end_line
    } else if end_line < usize::MAX {
        end_line + 1
    } else {
        end_line
    }
}

/// A number tag for an encoding: 8, 16 or 32.
pub fn encoding_tag(encoding: LspPositionEncoding) -> (r: u8)
    ensures
        r == match encoding {
            LspPositionEncoding::Utf8 => 8u8,
            LspPositionEncoding::Utf16 => 16u8,
            LspPositionEncoding::Utf32 => 32u8,
        },
{
    match encoding {
        LspPositionEncoding::Utf8 => 8,
        LspPositionEncoding::Utf16 => 16,
        LspPositionEncoding::Utf32 => 32,
    }
}

proof fn lemma_units_take_step(l: Seq<char>, i: int, enc: LspPositionEncoding)
    requires
        0 <= i < l.len(),
    ensures
        units(l.take(i + 1), enc) == units(l.take(i), enc) + unit_width(l[i], enc),
        unit_width(l[i], enc) >= 1,
{
    assert(l.take(i + 1).drop_last() =~= l.take(i));
}

proof fn lemma_units_take_mono(l: Seq<char>, i: int, k: int, enc: LspPositionEncoding)
    requires
        0 <= i <= k <= l.len(),
    ensures
        units(l.take(i), enc) <= units(l.take(k), enc),
    decreases k - i,
{
    if i < k {
        lemma_units_take_mono(l, i, k - 1, enc);
        lemma_units_take_step(l, k - 1, enc);
    }
}

proof fn lemma_col_scan_exact(l: Seq<char>, i: int, k: int, enc: LspPositionEncoding)
    requires
        0 <= i <= k <= l.len(),
        line_content_len(l, i) >= k,
    ensures
        col_scan(l, i, units(l.take(i), enc), units(l.take(k), enc), enc) == k,
    decreases k - i,
{
    if i < k {
        lemma_units_take_step(l, i, enc);
        lemma_units_take_mono(l, i + 1, k, enc);
        lemma_col_scan_exact(l, i + 1, k, enc);
    } else if i < l.len() && !at_line_end(l, i) {
        lemma_units_take_step(l, i, enc);
    }
}

/// Law: the LSP position of a char offset converts back to that offset. For an
/// offset `c` that does not fall between the `'\r'` and `'\n'` of its line's break,
/// on a line whose number and column fit in 32 bits, reading the position
/// `(char_to_line, column_of)` back with `position_to_char` gives `c` again, in
/// every encoding. `lsp_position_from_char_offset` and `lsp_position_from_cursor`
/// produce such positions and `lsp_position_to_byte_offset` reads them, so the byte
/// offset it returns is `char_to_byte(t, c)`.
pub proof fn law_position_round_trip(t: Seq<char>, c: int, enc: LspPositionEncoding)
    requires
        0 <= c <= t.len(),
        char_to_line(t, c) <= u32::MAX,
        c - line_to_char(t, char_to_line(t, c)) <= line_content_len(line_chars(t, char_to_line(t, c)), 0),
        units(
            line_chars(t, char_to_line(t, c)).take(c - line_to_char(t, char_to_line(t, c))),
            enc,
        ) <= u32::MAX,
    ensures
        position_to_char(
            t,
            (char_to_line(t, c) as u32) as nat,
            column_of(t, char_to_line(t, c), c, enc) as nat,
            enc,
        ) == c,
{
    let row = char_to_line(t, c);
    let ls = line_to_char(t, row) as int;
    let le = line_to_char(t, row + 1) as int;
    let l = line_chars(t, row);
    let k = c - ls;
    lemma_count_nl_take_le(t, c);
    lemma_line_start_before(t, c);
    lemma_line_to_char_mono(t, row);
    assert(c <= le) by {
        if row + 1 <= count_nl(t) && c > le {
            lemma_line_to_char_bounds(t, row + 1);
            lemma_count_nl_take_le(t.take(c), le);
            assert(t.take(c).take(le) =~= t.take(le));
        }
    }
    assert(t.subrange(ls, c) =~= l.take(k));
    assert(l.take(0) =~= Seq::<char>::empty());
    lemma_col_scan_exact(l, 0, k, enc);
}

#[verifier::external_type_specification]
#[verifier::external_body]
pub struct ExFxHasher(FxHasher);

// The digest an `FxHasher` computes depends on the target's pointer width (its
// multiplier and final rotation differ between 32- and 64-bit targets), so the
// wrappers below state nothing of the hasher's state or of the digest.

/// `FxHasher::default`: a hasher with nothing written.
#[verifier::external_body]
fn fx_hasher() -> (h: FxHasher) {
    FxHasher::default()
}

/// `u32::hash` into an `FxHasher`.
#[verifier::external_body]
fn fx_write_u32(h: &mut FxHasher, x: u32) {
    x.hash(h)
}

/// `u8::hash` into an `FxHasher`.
#[verifier::external_body]
fn fx_write_u8(h: &mut FxHasher, x: u8) {
    x.hash(h)
}

/// `bool::hash` into an `FxHasher`.
#[verifier::external_body]
fn fx_write_bool(h: &mut FxHasher, x: bool) {
    x.hash(h)
}

/// `String::hash` into an `FxHasher`.
#[verifier::external_body]
fn fx_write_string(h: &mut FxHasher, x: &String) {
    x.hash(h)
}

/// `Vec<String>::hash` into an `FxHasher`.
#[verifier::external_body]
fn fx_write_strings(h: &mut FxHasher, x: &Vec<String>) {
    x.hash(h)
}

/// `FxHasher::finish`: the digest of what was written.
#[verifier::external_body]
fn fx_finish(h: &FxHasher) -> (r: u64) {
    h.finish()
}

/// A digest of semantic tokens with their encoding and legend: the encoding's tag,
/// the legend's type and modifier names, then each token's line, start, length, type
/// and modifiers, in order, written into an `FxHasher`. The digest is the hasher's
/// and depends on the target, so nothing is stated of it.
pub fn hash_semantic_tokens_payload(
    tokens: &[LspSemanticToken],
    encoding: LspPositionEncoding,
    legend: &LspSemanticTokensLegend,
) -> u64 {
    let mut hasher = fx_hasher();
    fx_write_u8(&mut hasher, encoding_tag(encoding));
    fx_write_strings(&mut hasher, &legend.token_types);
    fx_write_strings(&mut hasher, &legend.token_modifiers);
    let mut i: usize = 0;
    while i < tokens.len()
        decreases tokens.len() - i,
    {
        let token = &tokens[i];
        fx_write_u32(&mut hasher, token.line);
        fx_write_u32(&mut hasher, token.start);
        fx_write_u32(&mut hasher, token.length);
        fx_write_u32(&mut hasher, token.token_type);
        fx_write_u32(&mut hasher, token.modifiers);
        i += 1;
    }
    fx_finish(&hasher)
}

/// A digest of inlay hints: each hint's line, character, paddings and label, in
/// order, written into an `FxHasher`. The digest is the hasher's and depends on the
/// target, so nothing is stated of it.
pub fn hash_inlay_hints_payload(hints: &[LspInlayHint]) -> u64 {
    let mut hasher = fx_hasher();
    let mut i: usize = 0;
    while i < hints.len()
        decreases hints.len() - i,
    {
        let hint = &hints[i];
        fx_write_u32(&mut hasher, hint.position.line);
        fx_write_u32(&mut hasher, hint.position.character);
        fx_write_bool(&mut hasher, hint.padding_left);
        fx_write_bool(&mut hasher, hint.padding_right);
        fx_write_string(&mut hasher, &hint.label);
        i += 1;
    }
    fx_finish(&hasher)
}

/// A digest of folding ranges: each range's start and end line, in order, written
/// into an `FxHasher`. The digest is the hasher's and depends on the target, so
/// nothing is stated of it.
pub fn hash_folding_ranges_payload(ranges: &[LspFoldingRange]) -> u64 {
    let mut hasher = fx_hasher();
    let mut i: usize = 0;
    while i < ranges.len()
        decreases ranges.len() - i,
    {
        fx_write_u32(&mut hasher, ranges[i].start_line);
        fx_write_u32(&mut hasher, ranges[i].end_line);
        i += 1;
    }
    fx_finish(&hasher)
}

} // verus!
