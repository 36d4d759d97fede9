//! LSP-position conversions for requests, and the per-line layout of inlay hints.

use vstd::prelude::*;

use crate::ports::LspInlayHint;
use crate::text::{string_views, chars_le, chars_le_exec, lemma_chars_le_total, lemma_chars_le_trans, str_chars, string_from_chars};

pub use crate::flat_store::lsp::{
    end_line_exclusive_from_range, hash_folding_ranges_payload, hash_inlay_hints_payload, lsp_position_from_buffer_pos, lsp_position_from_char_offset,
    lsp_position_from_cursor, lsp_position_to_byte_offset, lsp_range_for_full_lines, problem_byte_offset,
};

verus! {

/// The text an inlay hint shows: its label, with a space on each side that asks for padding.
pub open spec fn hint_text(h: LspInlayHint) -> Seq<char> {
    (if h.padding_left {
        seq![' ']
    } else {
        Seq::empty()
    }) + h.label@ + (if h.padding_right {
        seq![' ']
    } else {
        Seq::empty()
    })
}

/// Order of hints on one line: by column, then by text.
pub open spec fn entry_le(a: (u32, Seq<char>), b: (u32, Seq<char>)) -> bool {
    a.0 < b.0 || (a.0 == b.0 && chars_le(a.1, b.1))
}

/// Inserts `x` after the last entry of `s` that does not come after it.
pub open spec fn insert_stable(s: Seq<(u32, Seq<char>)>, x: (u32, Seq<char>)) -> Seq<(u32, Seq<char>)>
    decreases s.len(),
{
    if s.len() == 0 {
        seq![x]
    } else if entry_le(s.last(), x) {
        s.push(x)
    } else {
        insert_stable(s.drop_last(), x).push(s.last())
    }
}

/// The hints on `line`, as `(column, text)`, in the order the snapshot shows them:
/// sorted by column and text, hints that tie keeping the order in which they came.
pub open spec fn line_entries(hints: Seq<LspInlayHint>, line: int) -> Seq<(u32, Seq<char>)>
    decreases hints.len(),
{
    if hints.len() == 0 {
        Seq::empty()
    } else {
        let rest = line_entries(hints.drop_last(), line);
        let h = hints.last();
        if h.position.line == line {
            insert_stable(rest, (h.position.character, hint_text(h)))
        } else {
            rest
        }
    }
}

/// The hints on `line`, as `(column, text)`, in the order they came.
pub open spec fn line_hits(hints: Seq<LspInlayHint>, line: int) -> Seq<(u32, Seq<char>)>
    decreases hints.len(),
{
    if hints.len() == 0 {
        Seq::empty()
    } else {
        let rest = line_hits(hints.drop_last(), line);
        let h = hints.last();
        if h.position.line == line {
            rest.push((h.position.character, hint_text(h)))
        } else {
            rest
        }
    }
}

/// Whether entries are in `entry_le` order.
pub open spec fn entries_sorted(s: Seq<(u32, Seq<char>)>) -> bool {
    forall|i: int, j: int| 0 <= i < j < s.len() ==> entry_le(#[trigger] s[i], #[trigger] s[j])
}

/// The texts of entries.
pub open spec fn entry_texts(s: Seq<(u32, Seq<char>)>) -> Seq<Seq<char>> {
    s.map_values(|e: (u32, Seq<char>)| e.1)
}

proof fn lemma_entry_le_total(a: (u32, Seq<char>), b: (u32, Seq<char>))
    ensures
        entry_le(a, b) || entry_le(b, a),
{
    lemma_chars_le_total(a.1, b.1);
}

proof fn lemma_entry_le_trans(a: (u32, Seq<char>), b: (u32, Seq<char>), c: (u32, Seq<char>))
    requires
        entry_le(a, b),
        entry_le(b, c),
    ensures
        entry_le(a, c),
{
    if a.0 == b.0 && b.0 == c.0 {
        lemma_chars_le_trans(a.1, b.1, c.1);
    }
}

/// Inserting into a sequence whose entries all precede `y` an entry that precedes `y`
/// keeps every entry before `y`.
proof fn lemma_insert_bound(s: Seq<(u32, Seq<char>)>, x: (u32, Seq<char>), y: (u32, Seq<char>))
    requires
        forall|k: int| 0 <= k < s.len() ==> entry_le(#[trigger] s[k], y),
        entry_le(x, y),
    ensures
        forall|k: int| 0 <= k < insert_stable(s, x).len() ==> entry_le(#[trigger] insert_stable(s, x)[k], y),
    decreases s.len(),
{
    let r = insert_stable(s, x);
    if s.len() == 0 {
        assert(r[0] == x);
    } else if entry_le(s.last(), x) {
        assert forall|k: int| 0 <= k < r.len() implies entry_le(#[trigger] r[k], y) by {
            if k < s.len() {
                assert(r[k] == s[k]);
            }
        }
    } else {
        let s2 = s.drop_last();
        assert forall|k: int| 0 <= k < s2.len() implies entry_le(#[trigger] s2[k], y) by {
            assert(s2[k] == s[k]);
        }
        lemma_insert_bound(s2, x, y);
        let r2 = insert_stable(s2, x);
        assert forall|k: int| 0 <= k < r.len() implies entry_le(#[trigger] r[k], y) by {
            if k < r2.len() {
                assert(r[k] == r2[k]);
            } else {
                assert(r[k] == s[s.len() - 1]);
            }
        }
    }
}

proof fn lemma_insert_len(s: Seq<(u32, Seq<char>)>, x: (u32, Seq<char>))
    ensures
        insert_stable(s, x).len() == s.len() + 1,
    decreases s.len(),
{
    if s.len() > 0 && !entry_le(s.last(), x) {
        lemma_insert_len(s.drop_last(), x);
    }
}

/// Insertion keeps a sorted sequence sorted.
proof fn lemma_insert_sorted(s: Seq<(u32, Seq<char>)>, x: (u32, Seq<char>))
    requires
        entries_sorted(s),
    ensures
        entries_sorted(insert_stable(s, x)),
    decreases s.len(),
{
    lemma_insert_len(s, x);
    if s.len() == 0 {
    } else if entry_le(s.last(), x) {
        let r = s.push(x);
        assert forall|i: int, j: int| 0 <= i < j < r.len() implies entry_le(#[trigger] r[i], #[trigger] r[j]) by {
            if j == s.len() {
                if i < s.len() - 1 {
                    assert(entry_le(s[i], s[s.len() - 1]));
                    lemma_entry_le_trans(s[i], s.last(), x);
                }
            } else {
                assert(entry_le(s[i], s[j]));
            }
        }
    } else {
        let s2 = s.drop_last();
        assert forall|i: int, j: int| 0 <= i < j < s2.len() implies entry_le(#[trigger] s2[i], #[trigger] s2[j]) by {
            assert(entry_le(s[i], s[j]));
        }
        lemma_insert_sorted(s2, x);
        lemma_entry_le_total(s.last(), x);
        assert forall|k: int| 0 <= k < s2.len() implies entry_le(#[trigger] s2[k], s.last()) by {
            assert(entry_le(s[k], s[s.len() - 1]));
        }
        lemma_insert_bound(s2, x, s.last());
        lemma_insert_len(s2, x);
        let r2 = insert_stable(s2, x);
        let r = r2.push(s.last());
        assert forall|i: int, j: int| 0 <= i < j < r.len() implies entry_le(#[trigger] r[i], #[trigger] r[j]) by {
            if j == r2.len() {
                assert(entry_le(r2[i], s.last()));
            } else {
                assert(entry_le(r2[i], r2[j]));
            }
        }
    }
}

/// Insertion adds exactly one entry to the multiset of entries.
proof fn lemma_insert_multiset(s: Seq<(u32, Seq<char>)>, x: (u32, Seq<char>))
    ensures
        insert_stable(s, x).to_multiset() == s.to_multiset().insert(x),
    decreases s.len(),
{
    broadcast use vstd::seq_lib::group_to_multiset_ensures;

    if s.len() == 0 {
        assert(seq![x] =~= Seq::<(u32, Seq<char>)>::empty().push(x));
    } else if entry_le(s.last(), x) {
    } else {
        let s2 = s.drop_last();
        lemma_insert_multiset(s2, x);
        assert(s =~= s2.push(s.last()));
        assert(insert_stable(s, x).to_multiset() =~= s.to_multiset().insert(x));
    }
}

/// The inlay hints of a line come out ordered by column and then by text, and they are
/// exactly the hints that the server placed on that line.
pub proof fn law_inlay_hint_line_is_sorted_permutation(hints: Seq<LspInlayHint>, line: int)
    ensures
        entries_sorted(line_entries(hints, line)),
        line_entries(hints, line).to_multiset() == line_hits(hints, line).to_multiset(),
    decreases hints.len(),
{
    broadcast use vstd::seq_lib::group_to_multiset_ensures;

    if hints.len() > 0 {
        let rest = line_entries(hints.drop_last(), line);
        law_inlay_hint_line_is_sorted_permutation(hints.drop_last(), line);
        let h = hints.last();
        if h.position.line == line {
            let x = (h.position.character, hint_text(h));
            lemma_insert_sorted(rest, x);
            lemma_insert_multiset(rest, x);
        }
    }
}

/// The chars an inlay hint shows.
fn hint_chars(h: &LspInlayHint) -> (v: Vec<char>)
    ensures
        v@ == hint_text(*h),
{
    let mut v: Vec<char> = Vec::new();
    if h.padding_left {
        v.push(' ');
    }
    let label = str_chars(h.label.as_str());
    let mut i: usize = 0;
    while i < label.len()
        invariant
            i <= label.len(),
            v@ == (if h.padding_left {
                seq![' ']
            } else {
                Seq::empty()
            }) + label@.take(i as int),
        decreases label.len() - i,
    {
        v.push(label[i]);
        proof {
            assert(label@.take(i + 1) =~= label@.take(i as int).push(label@[i as int]));
        }
        i += 1;
    }
    assert(label@.take(i as int) =~= h.label@);
    if h.padding_right {
        v.push(' ');
    }
    assert(v@ =~= hint_text(*h));
    v
}

/// Whether the row entry `a` comes before or ties with `(col, text)`.
fn entry_le_exec(a: &(u32, Vec<char>), col: u32, text: &Vec<char>) -> (r: bool)
    ensures
        r == entry_le((a.0, a.1@), (col, text@)),
{
    a.0 < col || (a.0 == col && chars_le_exec(a.1.as_slice(), text.as_slice()))
}

/// The entries of a row, with their texts as char sequences.
pub open spec fn row_view(row: Seq<(u32, Vec<char>)>) -> Seq<(u32, Seq<char>)> {
    row.map_values(|e: (u32, Vec<char>)| (e.0, e.1@))
}

/// Inserts `(col, text)` into `row` as `insert_stable` does.
fn insert_entry(row: &mut Vec<(u32, Vec<char>)>, col: u32, text: Vec<char>)
    ensures
        row_view(final(row)@) == insert_stable(row_view(old(row)@), (col, text@)),
{
    let ghost s = row_view(row@);
    let ghost x = (col, text@);
    let mut p: usize = row.len();
    assert(s.take(p as int) =~= s);
    assert(insert_stable(s, x) =~= insert_stable(s.take(p as int), x) + s.skip(p as int));
    let mut done: bool = p == 0;
    while !done
        invariant
            p <= row.len(),
            s == row_view(row@),
            insert_stable(s, x) == insert_stable(s.take(p as int), x) + s.skip(p as int),
            x == (col, text@),
            !done ==> p > 0,
            done ==> p == 0 || entry_le(s[p - 1], x),
        decreases p + if done { 0int } else { 1int },
    {
        let e = &row[p - 1];
        let le = entry_le_exec(e, col, &text);
        proof {
            assert(s.len() == row@.len());
            assert(s[p - 1] == (row@[p - 1].0, row@[p - 1].1@));
            assert(s[p - 1] == (e.0, e.1@));
        }
        if le {
            done = true;
        } else {
            proof {
                let t = s.take(p as int);
                assert(t.len() == p);
                assert(t.last() == s[p - 1]);
                assert(t.drop_last() =~= s.take(p - 1));
                assert(insert_stable(t, x) == insert_stable(s.take(p - 1), x).push(s[p - 1]));
                assert(s.skip(p - 1) =~= seq![s[p - 1]] + s.skip(p as int));
                assert(insert_stable(s.take(p - 1), x).push(s[p - 1]) + s.skip(p as int) =~= insert_stable(
                    s.take(p - 1),
                    x,
                ) + s.skip(p - 1));
            }
            p = p - 1;
            done = p == 0;
        }
    }
    proof {
        let t = s.take(p as int);
        if p == 0 {
            assert(t =~= Seq::<(u32, Seq<char>)>::empty());
            assert(insert_stable(t, x) =~= t.push(x));
        } else {
            assert(t.last() == s[p - 1]);
            assert(insert_stable(t, x) == t.push(x));
        }
    }
    row.insert(p, (col, text));
    proof {
        assert(row_view(row@) =~= s.take(p as int).push(x) + s.skip(p as int));
    }
}

/// Inlay hints of lines `start_line..end_line_exclusive`: for each line the texts of its
/// hints, ordered by column and then by text, ties in the order the hints came.
pub fn build_inlay_hint_lines_snapshot(
    hints: &[LspInlayHint],
    start_line: usize,
    end_line_exclusive: usize,
) -> (lines: Vec<Vec<String>>)
    ensures
        lines.len() == if end_line_exclusive > start_line {
            end_line_exclusive - start_line
        } else {
            0
        },
        forall|i: int|
            0 <= i < lines.len() ==> string_views(#[trigger] lines[i]@) == entry_texts(
                line_entries(hints@, start_line + i),
            ),
{
    let mut lines: Vec<Vec<String>> = Vec::new();
    if end_line_exclusive <= start_line {
        return lines;
    }
    let mut line: usize = start_line;
    while line < end_line_exclusive
        invariant
            start_line <= line <= end_line_exclusive,
            lines.len() == line - start_line,
            forall|i: int|
                0 <= i < lines.len() ==> string_views(#[trigger] lines[i]@) == entry_texts(
                    line_entries(hints@, start_line + i),
                ),
        decreases end_line_exclusive - line,
    {
        let mut row: Vec<(u32, Vec<char>)> = Vec::new();
        let mut j: usize = 0;
        while j < hints.len()
            invariant
                j <= hints.len(),
                row_view(row@) == line_entries(hints@.take(j as int), line as int),
            decreases hints.len() - j,
        {
            let h = &hints[j];
            proof {
                assert(hints@.take(j + 1).drop_last() =~= hints@.take(j as int));
                assert(hints@.take(j + 1).last() == hints@[j as int]);
            }
            if h.position.line as usize == line {
                let text = hint_chars(h);
                insert_entry(&mut row, h.position.character, text);
            }
            j += 1;
        }
        proof {
            assert(hints@.take(j as int) =~= hints@);
        }
        let mut texts: Vec<String> = Vec::new();
        let mut k: usize = 0;
        while k < row.len()
            invariant
                k <= row.len(),
                string_views(texts@) == entry_texts(row_view(row@)).take(k as int),
            decreases row.len() - k,
        {
            let s = string_from_chars(row[k].1.as_slice());
            proof {
                let ev = entry_texts(row_view(row@));
                assert(row_view(row@)[k as int] == (row@[k as int].0, row@[k as int].1@));
                assert(ev[k as int] == s@);
                assert(string_views(texts@.push(s)) =~= string_views(texts@).push(s@));
                assert(ev.take(k + 1) =~= ev.take(k as int).push(ev[k as int]));
            }
            texts.push(s);
            k += 1;
        }
        proof {
            let ev = entry_texts(row_view(row@));
            assert(ev.take(k as int) =~= ev);
        }
        lines.push(texts);
        line += 1;
    }
    lines
}

} // verus!
