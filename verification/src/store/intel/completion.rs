//! Completion popup logic: prefix matching, the incremental filter cache and
//! insertion planning.

use rustc_hash::FxHashMap;
use std::collections::HashMap;
use vstd::prelude::*;

use crate::editor::{lemma_count_nl_take_le, lemma_line_start_before, EditorTabState, SnippetSession, SnippetTabstop};
use crate::flat_store::completion::{add_clamped, clamped_sum, completion_prefix_bounds_at_cursor, word_start};
use crate::flat_store::lsp::{column_of, lsp_position_from_char_offset, lsp_position_to_byte_offset, position_to_char};
use crate::kernel::{EditorActionKind, LanguageId};
use crate::ports::{LspPosition, LspPositionEncoding, LspRange};
use crate::rope::{
    byte_to_char, char_to_byte, char_to_line, count_nl, line_to_char, rope_byte_to_char, rope_char, rope_char_to_line,
    rope_len_bytes, rope_len_chars, rope_line_to_char, rope_slice_string, rope_text,
};
use crate::text::{is_whitespace, string_from_chars, unicode_whitespace, utf8_len};
use crate::sorted::{
    insert_by, lemma_insert_by_scan_start, lemma_insert_by_scan_step, lemma_insert_by_scan_stop, sort_by,
};
use crate::store::intel::completion_rank::{score_in, CompletionRanker};
use crate::text::{cmp_chars, cmp_str, lemma_cmp_chars, str_chars, str_eq, str_starts_with};

verus! {

broadcast use vstd::std_specs::hash::group_hash_axioms;

/// A completion entry as the popup shows and filters it.
#[derive(Debug)]
pub struct CompletionEntry {
    pub id: u64,
    pub label: String,
    pub kind: Option<u32>,
    pub detail: Option<String>,
    pub sort_text: Option<String>,
    pub filter_text: Option<String>,
}

/// A completion record held by the popup.
#[derive(Debug)]
pub struct CompletionRecord {
    pub entry: CompletionEntry,
}

/// Code point of `c` with ASCII upper case folded to lower case.
pub open spec fn fold_code(c: char) -> u32 {
    let x = c as u32;
    if 65 <= x && x <= 90 {
        (x + 32) as u32
    } else {
        x
    }
}

/// `h` starts with `n` when ASCII letters are compared without case.
pub open spec fn starts_with_fold(h: Seq<char>, n: Seq<char>) -> bool {
    &&& n.len() <= h.len()
    &&& forall|i: int| 0 <= i < n.len() ==> #[trigger] fold_code(h[i]) == fold_code(n[i])
}

/// The text an entry is filtered by: its filter text, else its label.
pub open spec fn match_candidate(e: CompletionEntry) -> Seq<char> {
    match e.filter_text {
        Some(f) => f@,
        None => e.label@,
    }
}

/// Whether an entry matches the typed prefix.
pub open spec fn entry_matches(e: CompletionEntry, p: Seq<char>) -> bool {
    starts_with_fold(match_candidate(e), p)
}

/// `a` and `b` are the same char, or the same ASCII letter in upper and lower case.
pub open spec fn same_ignoring_ascii_case(a: char, b: char) -> bool {
    ||| a == b
    ||| 'A' <= a <= 'Z' && b as u32 == a as u32 + 32
    ||| 'A' <= b <= 'Z' && a as u32 == b as u32 + 32
}

/// `p` begins `t` when ASCII letters are compared without case.
pub open spec fn begins_ignoring_ascii_case(t: Seq<char>, p: Seq<char>) -> bool {
    p.len() <= t.len() && forall|i: int| 0 <= i < p.len() ==> #[trigger] same_ignoring_ascii_case(t[i], p[i])
}

proof fn lemma_fold_code_eq(a: char, b: char)
    ensures
        (fold_code(a) == fold_code(b)) <==> same_ignoring_ascii_case(a, b),
{
}

/// Comparing folded codes is comparing chars without ASCII case.
pub proof fn lemma_starts_with_fold(t: Seq<char>, p: Seq<char>)
    ensures
        starts_with_fold(t, p) <==> begins_ignoring_ascii_case(t, p),
{
    if starts_with_fold(t, p) {
        assert forall|i: int| 0 <= i < p.len() implies #[trigger] same_ignoring_ascii_case(t[i], p[i]) by {
            assert(fold_code(t[i]) == fold_code(p[i]));
            lemma_fold_code_eq(t[i], p[i]);
        }
    }
    if begins_ignoring_ascii_case(t, p) {
        assert forall|i: int| 0 <= i < p.len() implies #[trigger] fold_code(t[i]) == fold_code(p[i]) by {
            assert(same_ignoring_ascii_case(t[i], p[i]));
            lemma_fold_code_eq(t[i], p[i]);
        }
    }
}

/// An entry with a filter text matches a prefix exactly when the filter text begins
/// with it, ASCII letters compared without case; its label plays no part.
pub proof fn law_filter_text_decides_the_match(e: CompletionEntry, p: Seq<char>)
    requires
        e.filter_text is Some,
    ensures
        entry_matches(e, p) <==> begins_ignoring_ascii_case(e.filter_text->0@, p),
{
    lemma_starts_with_fold(e.filter_text->0@, p);
}

/// An entry without a filter text matches a prefix exactly when its label begins with
/// it, ASCII letters compared without case.
pub proof fn law_label_decides_the_match_without_filter_text(e: CompletionEntry, p: Seq<char>)
    requires
        e.filter_text is None,
    ensures
        entry_matches(e, p) <==> begins_ignoring_ascii_case(e.label@, p),
{
    lemma_starts_with_fold(e.label@, p);
}


/// The indices of `base`, in order, whose items match `p`.
pub open spec fn filter_indices(
    items: Seq<CompletionRecord>,
    p: Seq<char>,
    base: Seq<usize>,
) -> Seq<usize>
    decreases base.len(),
{
    if base.len() == 0 {
        Seq::empty()
    } else {
        let rest = filter_indices(items, p, base.drop_last());
        if entry_matches(items[base.last() as int].entry, p) {
            rest.push(base.last())
        } else {
            rest
        }
    }
}

/// `0, 1, ..., n - 1`.
pub open spec fn index_range(n: nat) -> Seq<usize> {
    Seq::new(n, |i: int| i as usize)
}

/// The visible indices for prefix `p`: every item when `p` is empty, else the matching ones.
pub open spec fn visible_for_prefix(items: Seq<CompletionRecord>, p: Seq<char>) -> Seq<usize> {
    if p.len() == 0 {
        index_range(items.len())
    } else {
        filter_indices(items, p, index_range(items.len()))
    }
}

proof fn lemma_filter_indices(items: Seq<CompletionRecord>, p: Seq<char>, base: Seq<usize>)
    requires
        forall|k1: int, k2: int| 0 <= k1 < k2 < base.len() ==> base[k1] < base[k2],
    ensures
        ({
            let r = filter_indices(items, p, base);
            &&& forall|k: int| 0 <= k < r.len() ==> base.contains(#[trigger] r[k]) && entry_matches(
                items[r[k] as int].entry,
                p,
            )
            &&& forall|j: int|
                0 <= j < base.len() && entry_matches(items[base[j] as int].entry, p) ==> r.contains(
                    #[trigger] base[j],
                )
            &&& forall|k1: int, k2: int| 0 <= k1 < k2 < r.len() ==> r[k1] < r[k2]
        }),
    decreases base.len(),
{
    if base.len() > 0 {
        let b = base.drop_last();
        assert forall|k1: int, k2: int| 0 <= k1 < k2 < b.len() implies b[k1] < b[k2] by {
            assert(b[k1] == base[k1] && b[k2] == base[k2]);
        }
        lemma_filter_indices(items, p, b);
        let rest = filter_indices(items, p, b);
        let r = filter_indices(items, p, base);
        assert forall|k: int| 0 <= k < rest.len() implies base.contains(#[trigger] rest[k]) && rest[k]
            < base.last() by {
            assert(b.contains(rest[k]));
            let j = choose|j: int| 0 <= j < b.len() && b[j] == rest[k];
            assert(base[j] == rest[k]);
        }
        assert forall|j: int|
            0 <= j < base.len() && entry_matches(items[base[j] as int].entry, p) implies r.contains(
                #[trigger] base[j],
            ) by {
            if j < base.len() - 1 {
                assert(b[j] == base[j]);
                assert(rest.contains(b[j]));
                let k = choose|k: int| 0 <= k < rest.len() && rest[k] == b[j];
                if entry_matches(items[base.last() as int].entry, p) {
                    assert(r[k] == rest[k]);
                }
            } else {
                assert(r[r.len() - 1] == base.last());
            }
        }
        if entry_matches(items[base.last() as int].entry, p) {
            assert(base.contains(base.last()));
            assert forall|k: int| 0 <= k < r.len() implies base.contains(#[trigger] r[k]) && entry_matches(
                items[r[k] as int].entry,
                p,
            ) by {
                if k < rest.len() {
                    assert(r[k] == rest[k]);
                }
            }
        }
    }
}

/// For a non-empty prefix the visible items are exactly the items that match it, in
/// their order; for an empty prefix every item is visible, in order.
pub proof fn law_visible_items_are_the_matching_ones(items: Seq<CompletionRecord>, p: Seq<char>)
    requires
        items.len() <= usize::MAX,
    ensures
        p.len() == 0 ==> visible_for_prefix(items, p).len() == items.len() && forall|k: int|
            0 <= k < items.len() ==> #[trigger] visible_for_prefix(items, p)[k] == k,
        p.len() > 0 ==> ({
            let r = visible_for_prefix(items, p);
            &&& forall|k: int|
                0 <= k < r.len() ==> #[trigger] r[k] < items.len() && entry_matches(items[r[k] as int].entry, p)
            &&& forall|i: int| 0 <= i < items.len() && entry_matches(items[i].entry, p) ==> r.contains(i as usize)
            &&& forall|k1: int, k2: int| 0 <= k1 < k2 < r.len() ==> r[k1] < r[k2]
        }),
{
    let base = index_range(items.len());
    assert forall|k: int| 0 <= k < base.len() implies #[trigger] base[k] == k by {}
    if p.len() > 0 {
        assert forall|k1: int, k2: int| 0 <= k1 < k2 < base.len() implies base[k1] < base[k2] by {
            assert(base[k1] == k1 && base[k2] == k2);
        }
        lemma_filter_indices(items, p, base);
        let r = visible_for_prefix(items, p);
        assert forall|k: int| 0 <= k < r.len() implies #[trigger] r[k] < items.len() && entry_matches(
            items[r[k] as int].entry,
            p,
        ) by {
            assert(base.contains(r[k]));
        }
        assert forall|i: int| 0 <= i < items.len() && entry_matches(items[i].entry, p) implies r.contains(
            i as usize,
        ) by {
            assert(base[i] == i as usize);
        }
    }
}


fn fold_eq(a: char, b: char) -> (r: bool)
    ensures
        r == (fold_code(a) == fold_code(b)),
{
    let x = a as u32;
    let y = b as u32;
    let fx = if 65 <= x && x <= 90 { x + 32 } else { x };
    let fy = if 65 <= y && y <= 90 { y + 32 } else { y };
    fx == fy
}

/// Whether `haystack` starts with `needle`, comparing ASCII letters without case
/// (the same answer as comparing the first `needle.len()` bytes with
/// `eq_ignore_ascii_case`).
pub fn starts_with_ignore_ascii_case(haystack: &str, needle: &str) -> (r: bool)
    ensures
        r == starts_with_fold(haystack@, needle@),
{
    let h = str_chars(haystack);
    let n = str_chars(needle);
    if n.len() > h.len() {
        return false;
    }
    let mut i: usize = 0;
    while i < n.len()
        invariant
            n@ == needle@,
            h@ == haystack@,
            n.len() <= h.len(),
            i <= n.len(),
            forall|k: int| 0 <= k < i ==> #[trigger] fold_code(h@[k]) == fold_code(n@[k]),
        decreases n.len() - i,
    {
        if !fold_eq(h[i], n[i]) {
            return false;
        }
        i += 1;
    }
    true
}

/// Whether `item` matches `prefix` (by its filter text, else its label).
pub fn completion_item_matches_prefix(item: &CompletionEntry, prefix: &str) -> (r: bool)
    ensures
        r == entry_matches(*item, prefix@),
{
    let candidate = match &item.filter_text {
        Some(f) => f.as_str(),
        None => item.label.as_str(),
    };
    starts_with_ignore_ascii_case(candidate, prefix)
}

/// The indices of `base_indices`, in order, whose items match `prefix`.
pub fn collect_matching_indices(
    all_items: &[CompletionRecord],
    prefix: &str,
    base_indices: &[usize],
) -> (matched: Vec<usize>)
    requires
        forall|k: int| 0 <= k < base_indices@.len() ==> #[trigger] base_indices@[k] < all_items@.len(),
    ensures
        matched@ == filter_indices(all_items@, prefix@, base_indices@),
{
    let mut matched: Vec<usize> = Vec::new();
    let mut k: usize = 0;
    while k < base_indices.len()
        invariant
            k <= base_indices@.len(),
            forall|j: int| 0 <= j < base_indices@.len() ==> #[trigger] base_indices@[j] < all_items@.len(),
            matched@ == filter_indices(all_items@, prefix@, base_indices@.take(k as int)),
        decreases base_indices@.len() - k,
    {
        let idx = base_indices[k];
        proof {
            assert(base_indices@.take(k + 1).drop_last() =~= base_indices@.take(k as int));
        }
        if completion_item_matches_prefix(&all_items[idx].entry, prefix) {
            matched.push(idx);
        }
        k += 1;
    }
    proof {
        assert(base_indices@.take(k as int) =~= base_indices@);
    }
    matched
}

/// `0, 1, ..., n - 1` as a vector.
fn index_range_vec(n: usize) -> (v: Vec<usize>)
    ensures
        v@ == index_range(n as nat),
{
    let mut v: Vec<usize> = Vec::new();
    let mut i: usize = 0;
    while i < n
        invariant
            i <= n,
            v@ == index_range(i as nat),
        decreases n - i,
    {
        v.push(i);
        i += 1;
        proof {
            assert(v@ =~= index_range(i as nat));
        }
    }
    v
}

/// The indices of the items that `prefix` keeps visible: all of them for an empty
/// prefix, else those that match it.
pub fn filtered_completion_indices(items: &[CompletionRecord], prefix: &str) -> (r: Vec<usize>)
    ensures
        r@ == visible_for_prefix(items@, prefix@),
{
    if items.len() == 0 {
        proof {
            assert(index_range(0) =~= Seq::<usize>::empty());
        }
        return Vec::new();
    }
    if prefix.is_empty() {
        return index_range_vec(items.len());
    }
    let all = index_range_vec(items.len());
    collect_matching_indices(items, prefix, &all)
}


/// The popup's state: all received items, the visible indices into them, the
/// selection, and a cache of the last filter result.
pub struct CompletionPopupState {
    pub all_items: Vec<CompletionRecord>,
    pub visible_indices: Vec<usize>,
    pub selected: usize,
    pub selection_locked: bool,
    pub visible: bool,
    pub filter_cache_prefix: String,
    pub filter_cache_indices: Vec<usize>,
    pub filter_cache_source_len: usize,
    pub filter_cache_valid: bool,
    pub index_by_id: HashMap<u64, usize>,
}

/// Each id mapped to the last index at which it occurs.
pub open spec fn id_index(items: Seq<CompletionRecord>) -> Map<u64, usize>
    decreases items.len(),
{
    if items.len() == 0 {
        Map::empty()
    } else {
        id_index(items.drop_last()).insert(items.last().entry.id, (items.len() - 1) as usize)
    }
}

/// Indices in non-decreasing order.
pub open spec fn sorted(s: Seq<usize>) -> bool {
    forall|i: int, j: int| 0 <= i <= j < s.len() ==> s[i] <= s[j]
}

/// Indices in increasing order.
pub open spec fn strictly_sorted(s: Seq<usize>) -> bool {
    forall|i: int, j: int| 0 <= i < j < s.len() ==> s[i] < s[j]
}

/// Checks, as a precondition, that indices never decrease.
pub fn debug_assert_monotonic_indices(indices: &[usize])
    requires
        sorted(indices@),
{
}

/// The first position of `x` in `s`, or `s.len()`.
pub open spec fn first_index(s: Seq<usize>, x: usize) -> nat
    decreases s.len(),
{
    if s.len() == 0 {
        0
    } else if s[0] == x {
        0
    } else {
        1 + first_index(s.drop_first(), x)
    }
}

/// Whether the filter cache describes the current item list.
pub open spec fn cache_live(s: CompletionPopupState) -> bool {
    s.filter_cache_valid && s.filter_cache_source_len == s.all_items@.len()
}

/// The id of the selected visible item, if the selection points at one.
pub open spec fn selected_id_of(s: CompletionPopupState) -> Option<u64> {
    if s.selected < s.visible_indices@.len() && s.visible_indices@[s.selected as int]
        < s.all_items@.len() {
        Some(s.all_items@[s.visible_indices@[s.selected as int] as int].entry.id)
    } else {
        None
    }
}

/// Where the item with id `id` sits among `visible` (0 when it is absent).
pub open spec fn selected_visible_spec(
    index: Map<u64, usize>,
    items: Seq<CompletionRecord>,
    visible: Seq<usize>,
    id: Option<u64>,
) -> nat {
    match id {
        None => 0,
        Some(id) => if !index.contains_key(id) {
            0
        } else if index[id] >= items.len() || items[index[id] as int].entry.id != id {
            0
        } else if visible.contains(index[id]) {
            first_index(visible, index[id])
        } else {
            0
        },
    }
}

/// The item index that id `id` stands for, when the index maps it to an item with
/// that id.
pub open spec fn selected_target(index: Map<u64, usize>, items: Seq<CompletionRecord>, id: Option<u64>) -> Option<
    usize,
> {
    match id {
        None => None,
        Some(id) => if index.contains_key(id) && index[id] < items.len() && items[index[id] as int].entry.id == id {
            Some(index[id])
        } else {
            None
        },
    }
}

/// `r` is a position of `target` among `visible` when it is visible there, else 0.
pub open spec fn selection_follows(visible: Seq<usize>, target: Option<usize>, r: int) -> bool {
    match target {
        Some(t) => if visible.contains(t) {
            0 <= r < visible.len() && visible[r] == t
        } else {
            r == 0
        },
        None => r == 0,
    }
}

/// `min(i, len - 1)`, and 0 for an empty list.
pub open spec fn clamp_index(i: nat, len: nat) -> nat {
    if len == 0 {
        0
    } else if i < len {
        i
    } else {
        (len - 1) as nat
    }
}

/// Binary search for `x`: `Ok` with a position holding `x` (only ever one that
/// does), else `Err` with where the search stopped; in a sorted slice `Err` means `x`
/// is absent.
fn binary_search_index(v: &[usize], x: usize) -> (r: Result<usize, usize>)
    ensures
        r matches Ok(p) ==> p < v@.len() && v@[p as int] == x,
        sorted(v@) ==> (r is Err ==> !v@.contains(x)),
{
    let mut lo: usize = 0;
    let mut hi: usize = v.len();
    while lo < hi
        invariant
            lo <= hi <= v@.len(),
            sorted(v@) ==> forall|k: int| 0 <= k < lo ==> v@[k] < x,
            sorted(v@) ==> forall|k: int| hi <= k < v@.len() ==> v@[k] > x,
        decreases hi - lo,
    {
        let mid = lo + (hi - lo) / 2;
        if v[mid] == x {
            return Ok(mid);
        }
        if v[mid] < x {
            proof {
                if sorted(v@) {
                    assert forall|k: int| 0 <= k < mid + 1 implies v@[k] < x by {
                        assert(v@[k] <= v@[mid as int]);
                    }
                }
            }
            lo = mid + 1;
        } else {
            proof {
                if sorted(v@) {
                    assert forall|k: int| mid <= k < v@.len() implies v@[k] > x by {
                        assert(v@[mid as int] <= v@[k]);
                    }
                }
            }
            hi = mid;
        }
    }
    proof {
        if sorted(v@) && v@.contains(x) {
            let k = choose|k: int| 0 <= k < v@.len() && v@[k] == x;
            assert(v@[k] == x);
        }
    }
    Err(lo)
}

proof fn lemma_first_index(s: Seq<usize>, p: int)
    requires
        0 <= p < s.len(),
        forall|k: int| 0 <= k < p ==> s[k] != s[p],
    ensures
        first_index(s, s[p]) == p,
    decreases p,
{
    if p > 0 {
        lemma_first_index(s.drop_first(), p - 1);
    }
}

proof fn lemma_first_index_bound(s: Seq<usize>, x: usize)
    ensures
        first_index(s, x) <= s.len(),
        s.contains(x) ==> first_index(s, x) < s.len() && s[first_index(s, x) as int] == x,
        forall|k: int| 0 <= k < first_index(s, x) ==> s[k] != x,
    decreases s.len(),
{
    if s.len() > 0 && s[0] != x {
        lemma_first_index_bound(s.drop_first(), x);
        if s.contains(x) {
            let k = choose|k: int| 0 <= k < s.len() && s[k] == x;
            assert(s.drop_first()[k - 1] == x);
        }
        assert forall|k: int| 0 <= k < first_index(s, x) implies s[k] != x by {
            if k > 0 {
                assert(s[k] == s.drop_first()[k - 1]);
            }
        }
    }
}

/// The first position of `x` in `v`, or `None`.
fn position_of(v: &[usize], x: usize) -> (r: Option<usize>)
    ensures
        match r {
            Some(p) => v@.contains(x) && p == first_index(v@, x),
            None => !v@.contains(x),
        },
{
    let mut i: usize = 0;
    while i < v.len()
        invariant
            i <= v@.len(),
            forall|k: int| 0 <= k < i ==> v@[k] != x,
        decreases v@.len() - i,
    {
        if v[i] == x {
            proof {
                lemma_first_index(v@, i as int);
            }
            return Some(i);
        }
        i += 1;
    }
    None
}

impl CompletionPopupState {
    /// An empty, hidden popup with an invalid filter cache.
    pub fn new() -> (s: Self)
        ensures
            s.all_items@.len() == 0,
            s.visible_indices@.len() == 0,
            s.selected == 0,
            !s.selection_locked,
            !s.visible,
            s.filter_cache_prefix@.len() == 0,
            s.filter_cache_indices@.len() == 0,
            s.filter_cache_source_len == 0,
            !s.filter_cache_valid,
            s.index_by_id@ == Map::<u64, usize>::empty(),
    {
        CompletionPopupState {
            all_items: Vec::new(),
            visible_indices: Vec::new(),
            selected: 0,
            selection_locked: false,
            visible: false,
            filter_cache_prefix: String::new(),
            filter_cache_indices: Vec::new(),
            filter_cache_source_len: 0,
            filter_cache_valid: false,
            index_by_id: HashMap::new(),
        }
    }

    /// Number of visible items.
    pub fn visible_len(&self) -> (n: usize)
        ensures
            n == self.visible_indices@.len(),
    {
        self.visible_indices.len()
    }

    /// The id of the selected visible item, if any.
    pub fn selected_item_id(&self) -> (r: Option<u64>)
        ensures
            r == selected_id_of(*self),
    {
        if self.selected < self.visible_indices.len() {
            let idx = self.visible_indices[self.selected];
            if idx < self.all_items.len() {
                return Some(self.all_items[idx].entry.id);
            }
        }
        None
    }

    /// Forgets the filter cache.
    pub fn invalidate_filter_cache(&mut self)
        ensures
            !final(self).filter_cache_valid,
            final(self).filter_cache_prefix@.len() == 0,
            final(self).filter_cache_indices@.len() == 0,
            final(self).filter_cache_source_len == 0,
            final(self).all_items == old(self).all_items,
            final(self).visible_indices == old(self).visible_indices,
            final(self).selected == old(self).selected,
            final(self).selection_locked == old(self).selection_locked,
            final(self).visible == old(self).visible,
            final(self).index_by_id == old(self).index_by_id,
    {
        self.filter_cache_valid = false;
        self.filter_cache_prefix = String::new();
        self.filter_cache_indices = Vec::new();
        self.filter_cache_source_len = 0;
    }

    /// Forgets the filter cache when it was computed for a list of another length.
    pub fn reset_filter_cache_if_source_changed(&mut self)
        ensures
            final(self).filter_cache_valid == cache_live(*old(self)),
            cache_live(*old(self)) ==> *final(self) == *old(self),
            final(self).all_items == old(self).all_items,
            final(self).visible_indices == old(self).visible_indices,
            final(self).selected == old(self).selected,
            final(self).selection_locked == old(self).selection_locked,
            final(self).visible == old(self).visible,
            final(self).index_by_id == old(self).index_by_id,
    {
        if self.filter_cache_valid && self.filter_cache_source_len != self.all_items.len() {
            self.invalidate_filter_cache();
        }
    }

    /// Maps each item id to the last index that holds it.
    pub fn rebuild_index_by_id(&mut self)
        ensures
            final(self).index_by_id@ == id_index(old(self).all_items@),
            final(self).all_items == old(self).all_items,
            final(self).visible_indices == old(self).visible_indices,
            final(self).selected == old(self).selected,
            final(self).selection_locked == old(self).selection_locked,
            final(self).visible == old(self).visible,
            final(self).filter_cache_prefix == old(self).filter_cache_prefix,
            final(self).filter_cache_indices == old(self).filter_cache_indices,
            final(self).filter_cache_source_len == old(self).filter_cache_source_len,
            final(self).filter_cache_valid == old(self).filter_cache_valid,
    {
        let mut index: HashMap<u64, usize> = HashMap::new();
        let mut i: usize = 0;
        while i < self.all_items.len()
            invariant
                i <= self.all_items@.len(),
                index@ == id_index(self.all_items@.take(i as int)),
            decreases self.all_items@.len() - i,
        {
            proof {
                assert(self.all_items@.take(i + 1).drop_last() =~= self.all_items@.take(i as int));
            }
            index.insert(self.all_items[i].entry.id, i);
            i += 1;
        }
        proof {
            assert(self.all_items@.take(i as int) =~= self.all_items@);
        }
        self.index_by_id = index;
    }
}

/// The remainder of a negative number, from that of its magnitude.
proof fn lemma_neg_mod(v: int, m: int)
    requires
        v < 0,
        m > 0,
    ensures
        v % m == if (-v) % m == 0 {
            0
        } else {
            m - (-v) % m
        },
{
    let q = (-v) / m;
    let r = (-v) % m;
    vstd::arithmetic::div_mod::lemma_fundamental_div_mod(-v, m);
    vstd::arithmetic::div_mod::lemma_mod_bound(-v, m);
    if r == 0 {
        assert(v == (-q) * m + 0) by (nonlinear_arith)
            requires
                -v == m * q + r,
                r == 0,
        ;
        vstd::arithmetic::div_mod::lemma_fundamental_div_mod_converse(v, m, -q, 0);
    } else {
        assert(v == (-q - 1) * m + (m - r)) by (nonlinear_arith)
            requires
                -v == m * q + r,
        ;
        vstd::arithmetic::div_mod::lemma_fundamental_div_mod_converse(v, m, -q - 1, m - r);
    }
}

/// The row a move by `delta` from `selected` lands on among `len` rows: the
/// selection plus `delta` (wrapping in `isize`), taken modulo `len`.
pub open spec fn moved_selection(selected: usize, delta: isize, len: nat) -> int {
    ((selected as isize).wrapping_add(delta) as int) % (len as int)
}

/// Moves the selection of a shown, non-empty popup by `delta` rows, wrapping around
/// the visible items; a move onto another row locks the selection. Whether the
/// selection changed; a hidden or empty popup is left alone.
pub fn move_completion_selection(completion: &mut CompletionPopupState, delta: isize) -> (changed: bool)
    requires
        old(completion).visible_indices@.len() <= isize::MAX,
    ensures
        !old(completion).visible || old(completion).visible_indices@.len() == 0 ==> !changed && *final(completion)
            == *old(completion),
        old(completion).visible && old(completion).visible_indices@.len() > 0 ==> {
            let next = moved_selection(old(completion).selected, delta, old(completion).visible_indices@.len());
            &&& changed == (next != old(completion).selected)
            &&& *final(completion) == (CompletionPopupState {
                selected: next as usize,
                selection_locked: old(completion).selection_locked || changed,
                ..*old(completion)
            })
        },
{
    let len = completion.visible_indices.len();
    if !completion.visible || len == 0 {
        return false;
    }
    let prev = completion.selected;
    let v: isize = (prev as isize).wrapping_add(delta);
    let m: i128 = len as i128;
    let vv: i128 = v as i128;
    let next_i: i128 = if vv >= 0 {
        vv % m
    } else {
        let r = (-vv) % m;
        if r == 0 {
            0
        } else {
            m - r
        }
    };
    proof {
        if vv < 0 {
            lemma_neg_mod(vv as int, m as int);
        }
        vstd::arithmetic::div_mod::lemma_mod_bound(vv as int, m as int);
    }
    let next = next_i as usize;
    completion.selected = next;
    let changed = next != prev;
    if changed {
        completion.selection_locked = true;
    }
    changed
}

/// Where the item with `selected_id` sits among `visible_indices`: 0 when there is
/// no id, the id is unknown or stale, or the item is not visible. A binary search
/// finds it, checked against the list, with a scan from the start as the fallback;
/// in a strictly sorted list that is its one position.
pub fn selected_visible_index(
    completion: &CompletionPopupState,
    visible_indices: &[usize],
    selected_id: Option<u64>,
) -> (r: usize)
    ensures
        selection_follows(
            visible_indices@,
            selected_target(completion.index_by_id@, completion.all_items@, selected_id),
            r as int,
        ),
        strictly_sorted(visible_indices@) ==> r == selected_visible_spec(
            completion.index_by_id@,
            completion.all_items@,
            visible_indices@,
            selected_id,
        ),
{
    let id = match selected_id {
        None => return 0,
        Some(id) => id,
    };
    let item_idx = match completion.index_by_id.get(&id) {
        None => return 0,
        Some(i) => *i,
    };
    if item_idx >= completion.all_items.len() || completion.all_items[item_idx].entry.id != id {
        return 0;
    }
    proof {
        lemma_first_index_bound(visible_indices@, item_idx);
    }
    match binary_search_index(visible_indices, item_idx) {
        Ok(p) if p < visible_indices.len() && visible_indices[p] == item_idx => {
            proof {
                assert(visible_indices@.contains(item_idx)) by {
                    assert(visible_indices@[p as int] == item_idx);
                }
                if strictly_sorted(visible_indices@) {
                    assert forall|k: int| 0 <= k < p implies visible_indices@[k] != visible_indices@[p as int] by {}
                    lemma_first_index(visible_indices@, p as int);
                }
            }
            p
        },
        _ => match position_of(visible_indices, item_idx) {
            Some(p) => {
                proof {
                    lemma_first_index_bound(visible_indices@, item_idx);
                }
                p
            },
            None => 0,
        },
    }
}


/// A copy of `v`.
fn copy_indices(v: &[usize]) -> (r: Vec<usize>)
    ensures
        r@ == v@,
{
    let mut r: Vec<usize> = Vec::new();
    let mut i: usize = 0;
    while i < v.len()
        invariant
            i <= v@.len(),
            r@ == v@.take(i as int),
        decreases v@.len() - i,
    {
        r.push(v[i]);
        i += 1;
        proof {
            assert(r@ =~= v@.take(i as int));
        }
    }
    proof {
        assert(v@.take(i as int) =~= v@);
    }
    r
}

/// Whether two index lists are equal.
fn same_indices(a: &[usize], b: &[usize]) -> (r: bool)
    ensures
        r == (a@ == b@),
{
    if a.len() != b.len() {
        return false;
    }
    let mut i: usize = 0;
    while i < a.len()
        invariant
            a@.len() == b@.len(),
            i <= a@.len(),
            forall|k: int| 0 <= k < i ==> a@[k] == b@[k],
        decreases a@.len() - i,
    {
        if a[i] != b[i] {
            return false;
        }
        i += 1;
    }
    proof {
        assert(a@ =~= b@);
    }
    true
}

/// What a resynchronisation of a non-empty popup with prefix `p` leaves behind:
/// on a cache hit the cached indices (refreshing the visible ones only when their
/// lengths differ), otherwise a fresh filter result, computed from the cached
/// indices when the cached prefix begins `p` and from all items otherwise, which
/// then becomes the cache. The selection follows the previously selected id when
/// the selection is locked.
pub open spec fn sync_post(
    o: CompletionPopupState,
    p: Seq<char>,
    n: CompletionPopupState,
    changed: bool,
) -> bool {
    let len = o.all_items@.len();
    let live = cache_live(o);
    let sel_id = if o.selection_locked {
        selected_id_of(o)
    } else {
        None
    };
    &&& n.all_items == o.all_items
    &&& n.selection_locked == o.selection_locked
    &&& n.index_by_id@ == if !live || o.index_by_id@.len() != len {
        id_index(o.all_items@)
    } else {
        o.index_by_id@
    }
    &&& if live && p == o.filter_cache_prefix@ {
        &&& changed == (o.visible_indices@.len() != o.filter_cache_indices@.len())
        &&& n.visible_indices@ == if changed {
            o.filter_cache_indices@
        } else {
            o.visible_indices@
        }
        &&& n.filter_cache_prefix@ == o.filter_cache_prefix@
        &&& n.filter_cache_indices@ == o.filter_cache_indices@
        &&& n.filter_cache_source_len == o.filter_cache_source_len
        &&& n.filter_cache_valid
        &&& n.visible == (o.filter_cache_indices@.len() > 0)
        &&& selection_follows(
            o.filter_cache_indices@,
            selected_target(n.index_by_id@, o.all_items@, sel_id),
            n.selected as int,
        )
        &&& strictly_sorted(o.filter_cache_indices@) ==> n.selected == clamp_index(
            selected_visible_spec(n.index_by_id@, o.all_items@, o.filter_cache_indices@, sel_id),
            o.filter_cache_indices@.len(),
        )
    } else {
        let fresh = if p.len() == 0 {
            index_range(len)
        } else if live && o.filter_cache_prefix@.is_prefix_of(p) {
            filter_indices(o.all_items@, p, o.filter_cache_indices@)
        } else {
            filter_indices(o.all_items@, p, index_range(len))
        };
        &&& changed == (!live || o.visible_indices@ != fresh)
        &&& n.visible_indices@ == fresh
        &&& n.filter_cache_prefix@ == p
        &&& n.filter_cache_indices@ == fresh
        &&& n.filter_cache_source_len == len
        &&& n.filter_cache_valid
        &&& n.visible == (fresh.len() > 0)
        &&& selection_follows(fresh, selected_target(n.index_by_id@, o.all_items@, sel_id), n.selected as int)
        &&& strictly_sorted(fresh) ==> n.selected == clamp_index(
            selected_visible_spec(n.index_by_id@, o.all_items@, fresh, sel_id),
            fresh.len(),
        )
    }
}

/// Refilters the popup's items for the typed `prefix`, reusing the filter cache when
/// it still applies, and keeps the selection on the same item when it is locked.
/// Returns whether the visible items changed; an empty popup is left alone.
#[verifier::rlimit(40)]
pub fn sync_completion_items_from_cache(completion: &mut CompletionPopupState, prefix: &str) -> (changed: bool)
    requires
        cache_live(*old(completion)) ==> forall|k: int|
            0 <= k < old(completion).filter_cache_indices@.len()
                ==> #[trigger] old(completion).filter_cache_indices@[k] < old(completion).all_items@.len(),
        cache_live(*old(completion)) && old(completion).filter_cache_prefix@.is_prefix_of(prefix@) && prefix@
            != old(completion).filter_cache_prefix@ && prefix@.len() > 0 ==> sorted(
            filter_indices(old(completion).all_items@, prefix@, old(completion).filter_cache_indices@),
        ),
    ensures
        old(completion).all_items@.len() == 0 ==> !changed && *final(completion) == *old(completion),
        old(completion).all_items@.len() > 0 ==> sync_post(*old(completion), prefix@, *final(completion), changed),
{
    if completion.all_items.len() == 0 {
        return false;
    }
    let ghost o = *completion;

    completion.reset_filter_cache_if_source_changed();
    let source_len = completion.all_items.len();
    let source_changed = !completion.filter_cache_valid;
    if source_changed || completion.index_by_id.len() != source_len {
        completion.rebuild_index_by_id();
    }

    let selected_id = if completion.selection_locked {
        completion.selected_item_id()
    } else {
        None
    };

    if completion.filter_cache_valid && completion.filter_cache_source_len == source_len
        && str_eq(prefix, completion.filter_cache_prefix.as_str()) {
        let cached = copy_indices(&completion.filter_cache_indices);
        let mut items_changed = source_changed;
        if source_changed || completion.visible_indices.len() != cached.len() {
            completion.visible_indices = copy_indices(&cached);
            items_changed = true;
        }
        let sel = selected_visible_index(completion, &cached, selected_id);
        let last = if cached.len() == 0 { 0 } else { cached.len() - 1 };
        completion.selected = if sel < last { sel } else { last };
        completion.visible = cached.len() > 0;
        assert(completion.all_items == o.all_items);
        assert(completion.selection_locked == o.selection_locked);
        assert(completion.filter_cache_indices@ == o.filter_cache_indices@);
        assert(completion.filter_cache_prefix@ == o.filter_cache_prefix@);
        assert(items_changed == (o.visible_indices@.len() != o.filter_cache_indices@.len()));
        return items_changed;
    }

    let can_use_cached_base = completion.filter_cache_valid
        && completion.filter_cache_source_len == source_len
        && str_starts_with(prefix, completion.filter_cache_prefix.as_str());

    let new_indices = if prefix.is_empty() {
        index_range_vec(source_len)
    } else if can_use_cached_base {
        collect_matching_indices(&completion.all_items, prefix, &completion.filter_cache_indices)
    } else {
        let all = index_range_vec(source_len);
        collect_matching_indices(&completion.all_items, prefix, &all)
    };

    proof {
        if prefix@.len() != 0 {
            if can_use_cached_base {
                assert(completion.filter_cache_indices@ == o.filter_cache_indices@);
                assert(completion.all_items@ == o.all_items@);
            } else {
                lemma_filter_sorted(completion.all_items@, prefix@, index_range(source_len as nat));
            }
        }
    }
    debug_assert_monotonic_indices(&new_indices);
    let items_changed = source_changed || !same_indices(&completion.visible_indices, &new_indices);
    if items_changed {
        completion.visible_indices = copy_indices(&new_indices);
        debug_assert_monotonic_indices(&completion.visible_indices);
    }

    let sel = selected_visible_index(completion, &new_indices, selected_id);
    let last = if new_indices.len() == 0 { 0 } else { new_indices.len() - 1 };
    completion.selected = if sel < last { sel } else { last };

    proof {
        broadcast use vstd::string::group_string_axioms;
    }
    completion.filter_cache_prefix = prefix.to_string();
    completion.filter_cache_indices = new_indices;
    completion.filter_cache_source_len = source_len;
    completion.filter_cache_valid = true;
    completion.visible = completion.visible_len() > 0;
    items_changed
}


/// The filter cache agrees with the items: when it is live it holds the visible
/// indices for its prefix, and the popup shows exactly those.
pub open spec fn cache_coherent(s: CompletionPopupState) -> bool {
    cache_live(s) ==> {
        &&& s.filter_cache_indices@ == visible_for_prefix(s.all_items@, s.filter_cache_prefix@)
        &&& s.visible_indices@ == s.filter_cache_indices@
    }
}

/// A filter result only holds indices no larger than a bound of its base.
pub proof fn lemma_filter_le(items: Seq<CompletionRecord>, p: Seq<char>, base: Seq<usize>, v: usize)
    requires
        forall|k: int| 0 <= k < base.len() ==> #[trigger] base[k] <= v,
    ensures
        forall|k: int|
            0 <= k < filter_indices(items, p, base).len() ==> #[trigger] filter_indices(items, p, base)[k] <= v,
    decreases base.len(),
{
    if base.len() > 0 {
        lemma_filter_le(items, p, base.drop_last(), v);
        let rest = filter_indices(items, p, base.drop_last());
        assert(base.last() == base[base.len() - 1]);
        assert forall|k: int| 0 <= k < filter_indices(items, p, base).len() implies #[trigger] filter_indices(items, p, base)[k] <= v by {
            if k < rest.len() {
                assert(filter_indices(items, p, base)[k] == rest[k]);
            }
        }
    }
}

/// Filtering sorted indices keeps them sorted.
pub proof fn lemma_filter_sorted(items: Seq<CompletionRecord>, p: Seq<char>, base: Seq<usize>)
    requires
        sorted(base),
    ensures
        sorted(filter_indices(items, p, base)),
    decreases base.len(),
{
    if base.len() > 0 {
        let b2 = base.drop_last();
        assert(sorted(b2)) by {
            assert forall|i: int, j: int| 0 <= i <= j < b2.len() implies b2[i] <= b2[j] by {
                assert(b2[i] == base[i] && b2[j] == base[j]);
            }
        }
        lemma_filter_sorted(items, p, b2);
        assert forall|k: int| 0 <= k < b2.len() implies #[trigger] b2[k] <= base.last() by {
            assert(b2[k] == base[k]);
        }
        lemma_filter_le(items, p, b2, base.last());
    }
}

/// A filter result only holds indices taken from its base.
pub proof fn lemma_filter_within(items: Seq<CompletionRecord>, p: Seq<char>, base: Seq<usize>, bound: nat)
    requires
        forall|k: int| 0 <= k < base.len() ==> #[trigger] base[k] < bound,
    ensures
        forall|k: int|
            0 <= k < filter_indices(items, p, base).len() ==> #[trigger] filter_indices(items, p, base)[k] < bound,
    decreases base.len(),
{
    if base.len() > 0 {
        lemma_filter_within(items, p, base.drop_last(), bound);
        let rest = filter_indices(items, p, base.drop_last());
        assert(base.last() == base[base.len() - 1]);
        assert forall|k: int| 0 <= k < filter_indices(items, p, base).len() implies #[trigger] filter_indices(items, p, base)[k] < bound by {
            if k < rest.len() {
                assert(filter_indices(items, p, base)[k] == rest[k]);
            }
        }
    }
}

/// Matching a longer prefix implies matching every prefix of it.
pub proof fn lemma_match_shorter_prefix(e: CompletionEntry, q: Seq<char>, p: Seq<char>)
    requires
        q.is_prefix_of(p),
        entry_matches(e, p),
    ensures
        entry_matches(e, q),
{
    assert forall|i: int| 0 <= i < q.len() implies #[trigger] fold_code(match_candidate(e)[i]) == fold_code(q[i]) by {
        assert(q[i] == p[i]);
        assert(fold_code(match_candidate(e)[i]) == fold_code(p[i]));
    }
}

/// Filtering by a prefix `q` and then by a longer prefix `p` is filtering by `p`.
pub proof fn lemma_filter_refine(items: Seq<CompletionRecord>, q: Seq<char>, p: Seq<char>, base: Seq<usize>)
    requires
        q.is_prefix_of(p),
    ensures
        filter_indices(items, p, filter_indices(items, q, base)) == filter_indices(items, p, base),
    decreases base.len(),
{
    if base.len() > 0 {
        lemma_filter_refine(items, q, p, base.drop_last());
        let x = base.last();
        let fq = filter_indices(items, q, base);
        if entry_matches(items[x as int].entry, q) {
            assert(fq.drop_last() =~= filter_indices(items, q, base.drop_last()));
        } else if entry_matches(items[x as int].entry, p) {
            lemma_match_shorter_prefix(items[x as int].entry, q, p);
        }
    }
}

/// Every index in `0..n` lies below `n`.
pub proof fn lemma_index_range_within(n: nat)
    ensures
        forall|k: int| 0 <= k < index_range(n).len() ==> #[trigger] index_range(n)[k] < n,
{
}

/// A coherent popup meets the precondition of `sync_completion_items_from_cache`.
pub proof fn lemma_coherent_cache_in_range(s: CompletionPopupState)
    requires
        cache_coherent(s),
    ensures
        cache_live(s) ==> forall|k: int|
            0 <= k < s.filter_cache_indices@.len() ==> #[trigger] s.filter_cache_indices@[k] < s.all_items@.len(),
{
    if cache_live(s) {
        lemma_index_range_within(s.all_items@.len());
        lemma_filter_within(s.all_items@, s.filter_cache_prefix@, index_range(s.all_items@.len()), s.all_items@.len());
    }
}

/// With distinct ids, the index maps each item's id to that item.
proof fn lemma_id_index_distinct(items: Seq<CompletionRecord>, i: int)
    requires
        0 <= i < items.len(),
        items.len() <= usize::MAX,
        forall|j: int, k: int| 0 <= j < k < items.len() ==> #[trigger] items[j].entry.id != #[trigger] items[k].entry.id,
    ensures
        id_index(items).contains_key(items[i].entry.id),
        id_index(items)[items[i].entry.id] == i,
    decreases items.len(),
{
    let t = items.drop_last();
    if i < items.len() - 1 {
        assert(items[i].entry.id != items[items.len() - 1].entry.id);
        assert forall|j: int, k: int| 0 <= j < k < t.len() implies #[trigger] t[j].entry.id != #[trigger] t[k].entry.id by {
            assert(t[j] == items[j] && t[k] == items[k]);
        }
        assert(t[i] == items[i]);
        lemma_id_index_distinct(t, i);
    } else {
        assert(items[i] == items.last());
    }
}

/// Law: a locked selection stays on its item. When the items have distinct ids, the
/// index maps ids to them, and the cache agrees with what is shown, resynchronising
/// for any prefix under which the selected item is still visible keeps that item
/// selected, at a position within the visible list, whatever order the list has.
pub proof fn law_locked_selection_follows_its_item(
    o: CompletionPopupState,
    p: Seq<char>,
    n: CompletionPopupState,
    changed: bool,
)
    requires
        cache_coherent(o),
        o.all_items@.len() > 0,
        sync_post(o, p, n, changed),
        o.selection_locked,
        o.index_by_id@ == id_index(o.all_items@),
        forall|j: int, k: int|
            0 <= j < k < o.all_items@.len() ==> #[trigger] o.all_items@[j].entry.id
                != #[trigger] o.all_items@[k].entry.id,
        selected_id_of(o) is Some,
        n.visible_indices@.contains(o.visible_indices@[o.selected as int]),
    ensures
        n.selected < n.visible_indices@.len(),
        selected_id_of(n) == selected_id_of(o),
{
    let i0 = o.visible_indices@[o.selected as int];
    assert(o.all_items@.len() == o.all_items.len());
    lemma_id_index_distinct(o.all_items@, i0 as int);
    assert(n.index_by_id@ == id_index(o.all_items@));
    let k = n.selected as int;
    assert(n.visible_indices@[k] == i0);
}

/// Law: resynchronising a popup whose cache is coherent shows exactly the items
/// that a fresh filter of all items for the typed prefix would show, whether the
/// cache was hit, refined or rebuilt, and leaves the cache coherent.
pub proof fn law_sync_equals_fresh_filter(
    o: CompletionPopupState,
    p: Seq<char>,
    n: CompletionPopupState,
    changed: bool,
)
    requires
        cache_coherent(o),
        o.all_items@.len() > 0,
        sync_post(o, p, n, changed),
    ensures
        n.visible_indices@ == visible_for_prefix(o.all_items@, p),
        n.visible == (visible_for_prefix(o.all_items@, p).len() > 0),
        cache_coherent(n),
{
    let len = o.all_items@.len();
    if cache_live(o) && p == o.filter_cache_prefix@ {
    } else if p.len() == 0 {
    } else if cache_live(o) && o.filter_cache_prefix@.is_prefix_of(p) {
        let q = o.filter_cache_prefix@;
        if q.len() > 0 {
            lemma_filter_refine(o.all_items@, q, p, index_range(len));
        }
    }
}

/// `FxHashMap::default`: no scores.
#[verifier::external_body]
fn score_map_new() -> (m: FxHashMap<u64, u64>)
    ensures
        m@.dom() == Set::<u64>::empty(),
{
    FxHashMap::default()
}

/// `HashMap::insert` on the scores: sets the score of `id`.
#[verifier::external_body]
fn score_map_insert(m: &mut FxHashMap<u64, u64>, id: u64, score: u64)
    ensures
        final(m)@ == old(m)@.insert(id, score),
{
    m.insert(id, score);
}

/// `HashMap::get` on the scores: the score of `id`, if set.
#[verifier::external_body]
fn score_map_get(m: &FxHashMap<u64, u64>, id: u64) -> (r: Option<u64>)
    ensures
        r == (if m@.contains_key(id) {
            Some(m@[id])
        } else {
            None
        }),
{
    m.get(&id).copied()
}

/// The ranker's score of an item in `language` (zero without a language).
pub open spec fn ranker_score(r: CompletionRanker, language: Option<LanguageId>, label: Seq<char>, kind: Option<u32>) -> u64 {
    match language {
        Some(l) => score_in(r.language_entries(l), label, kind),
        None => 0,
    }
}

/// The score of each item id: the score of the last item with that id.
pub open spec fn id_scores(items: Seq<CompletionRecord>, r: CompletionRanker, language: Option<LanguageId>) -> Map<u64, u64>
    decreases items.len(),
{
    if items.len() == 0 {
        Map::empty()
    } else {
        let e = items.last().entry;
        id_scores(items.drop_last(), r, language).insert(e.id, ranker_score(r, language, e.label@, e.kind))
    }
}

/// The text an entry sorts by: its sort text, else its label.
pub open spec fn sort_key(e: CompletionEntry) -> Seq<char> {
    match e.sort_text {
        Some(t) => t@,
        None => e.label@,
    }
}

/// Comparison of details: none first, then by text.
pub open spec fn cmp_detail(a: Option<String>, b: Option<String>) -> int {
    match (a, b) {
        (None, None) => 0,
        (None, Some(_)) => -1,
        (Some(_), None) => 1,
        (Some(x), Some(y)) => cmp_chars(x@, y@),
    }
}

/// Comparison of scores, higher first.
pub open spec fn cmp_score(x: u64, y: u64) -> int {
    if x == y {
        0
    } else if x > y {
        -1
    } else {
        1
    }
}

/// The score of an item id in `scores`, zero when absent.
pub open spec fn score_of(scores: Map<u64, u64>, id: u64) -> u64 {
    if scores.contains_key(id) {
        scores[id]
    } else {
        0
    }
}

/// Whether record `a` sorts before or ties with `b`: higher score first, then by sort
/// key, then by label, then by detail.
pub open spec fn completion_le(scores: Map<u64, u64>, a: CompletionRecord, b: CompletionRecord) -> bool {
    let c1 = cmp_score(score_of(scores, a.entry.id), score_of(scores, b.entry.id));
    let c2 = cmp_chars(sort_key(a.entry), sort_key(b.entry));
    let c3 = cmp_chars(a.entry.label@, b.entry.label@);
    let c4 = cmp_detail(a.entry.detail, b.entry.detail);
    c1 < 0 || (c1 == 0 && (c2 < 0 || (c2 == 0 && (c3 < 0 || (c3 == 0 && c4 <= 0)))))
}

/// `completion_le` as an order.
pub open spec fn completion_order(scores: Map<u64, u64>) -> spec_fn(CompletionRecord, CompletionRecord) -> bool {
    |a: CompletionRecord, b: CompletionRecord| completion_le(scores, a, b)
}

proof fn lemma_cmp_detail(a: Option<String>, b: Option<String>, c: Option<String>)
    ensures
        cmp_detail(a, b) == -cmp_detail(b, a),
        cmp_detail(a, b) <= 0 && cmp_detail(b, c) <= 0 ==> cmp_detail(a, c) <= 0,
        cmp_detail(a, b) < 0 && cmp_detail(b, c) <= 0 ==> cmp_detail(a, c) < 0,
        cmp_detail(a, b) <= 0 && cmp_detail(b, c) < 0 ==> cmp_detail(a, c) < 0,
{
    match (a, b, c) {
        (Some(x), Some(y), Some(z)) => lemma_cmp_chars(x@, y@, z@),
        (Some(x), Some(y), None) => lemma_cmp_chars(x@, y@, y@),
        (None, Some(y), Some(z)) => lemma_cmp_chars(y@, z@, z@),
        (Some(x), None, Some(z)) => lemma_cmp_chars(x@, z@, z@),
        _ => {},
    }
}

/// Comparing with `completion_le` is total and transitive on three records.
proof fn lemma_completion_le(scores: Map<u64, u64>, a: CompletionRecord, b: CompletionRecord, c: CompletionRecord)
    ensures
        completion_le(scores, a, b) || completion_le(scores, b, a),
        completion_le(scores, a, b) && completion_le(scores, b, c) ==> completion_le(scores, a, c),
{
    lemma_cmp_chars(sort_key(a.entry), sort_key(b.entry), sort_key(c.entry));
    lemma_cmp_chars(a.entry.label@, b.entry.label@, c.entry.label@);
    lemma_cmp_detail(a.entry.detail, b.entry.detail, c.entry.detail);
    lemma_cmp_chars(sort_key(b.entry), sort_key(a.entry), sort_key(c.entry));
    lemma_cmp_chars(b.entry.label@, a.entry.label@, c.entry.label@);
    lemma_cmp_detail(b.entry.detail, a.entry.detail, c.entry.detail);
}

/// The records sort in a total, transitive order.
pub proof fn lemma_completion_order_total_preorder(scores: Map<u64, u64>)
    ensures
        crate::sorted::total_preorder(completion_order(scores)),
{
    assert forall|a: CompletionRecord, b: CompletionRecord|
        #[trigger] completion_order(scores)(a, b) || completion_order(scores)(b, a) by {
        lemma_completion_le(scores, a, b, a);
    }
    assert forall|a: CompletionRecord, b: CompletionRecord, c: CompletionRecord|
        #[trigger] completion_order(scores)(a, b) && #[trigger] completion_order(scores)(b, c) implies completion_order(
            scores,
        )(a, c) by {
        lemma_completion_le(scores, a, b, c);
    }
}

/// Law: sorting completion records keeps exactly the same records and puts them in
/// ranking order: each record ranks no lower than the ones after it.
pub proof fn law_sorted_completions_are_ordered(items: Seq<CompletionRecord>, scores: Map<u64, u64>)
    ensures
        crate::sorted::sorted_by(
            crate::sorted::sort_by(items, completion_order(scores)),
            completion_order(scores),
        ),
        crate::sorted::sort_by(items, completion_order(scores)).to_multiset() == items.to_multiset(),
{
    lemma_completion_order_total_preorder(scores);
    crate::sorted::lemma_sort_by(items, completion_order(scores));
}

fn cmp_detail_exec(a: &Option<String>, b: &Option<String>) -> (r: i8)
    ensures
        r == cmp_detail(*a, *b),
{
    match (a, b) {
        (None, None) => 0,
        (None, Some(_)) => -1,
        (Some(_), None) => 1,
        (Some(x), Some(y)) => cmp_str(x.as_str(), y.as_str()),
    }
}

fn sort_key_exec(e: &CompletionEntry) -> (r: &str)
    ensures
        r@ == sort_key(*e),
{
    match &e.sort_text {
        Some(t) => t.as_str(),
        None => e.label.as_str(),
    }
}

fn completion_le_exec(scores: &FxHashMap<u64, u64>, a: &CompletionRecord, b: &CompletionRecord) -> (r: bool)
    ensures
        r == completion_le(scores@, *a, *b),
{
    let sa = match score_map_get(scores, a.entry.id) {
        Some(x) => x,
        None => 0,
    };
    let sb = match score_map_get(scores, b.entry.id) {
        Some(x) => x,
        None => 0,
    };
    if sa != sb {
        return sa > sb;
    }
    let c2 = cmp_str(sort_key_exec(&a.entry), sort_key_exec(&b.entry));
    if c2 != 0 {
        return c2 < 0;
    }
    let c3 = cmp_str(a.entry.label.as_str(), b.entry.label.as_str());
    if c3 != 0 {
        return c3 < 0;
    }
    cmp_detail_exec(&a.entry.detail, &b.entry.detail) <= 0
}

/// Inserts `x` into `v` as `insert_by` does under `completion_order`.
fn insert_completion(v: &mut Vec<CompletionRecord>, x: CompletionRecord, scores: &FxHashMap<u64, u64>)
    ensures
        final(v)@ == insert_by(old(v)@, x, completion_order(scores@)),
{
    let ghost s = v@;
    let ghost le = completion_order(scores@);
    let mut p: usize = v.len();
    proof {
        lemma_insert_by_scan_start(s, x, le);
    }
    let mut done: bool = p == 0;
    while !done
        invariant
            p <= v.len(),
            s == v@,
            le == completion_order(scores@),
            insert_by(s, x, le) == insert_by(s.take(p as int), x, le) + s.skip(p as int),
            !done ==> p > 0,
            done ==> p == 0 || le(s[p - 1], x),
        decreases p + if done {
            0int
        } else {
            1int
        },
    {
        if completion_le_exec(scores, &v[p - 1], &x) {
            done = true;
        } else {
            proof {
                lemma_insert_by_scan_step(s, x, le, p as int);
            }
            p = p - 1;
            done = p == 0;
        }
    }
    proof {
        lemma_insert_by_scan_stop(s, x, le, p as int);
    }
    v.insert(p, x);
    proof {
        assert(v@ =~= s.take(p as int).push(x) + s.skip(p as int));
    }
}

/// Sorts completion records by their ranker score (higher first), then by sort text
/// (the label when absent), then by label, then by detail; records that tie keep their
/// order. Each id is scored once, with the last record of that id.
pub fn sort_completion_items(items: &mut Vec<CompletionRecord>, ranker: &CompletionRanker, language: Option<LanguageId>)
    ensures
        final(items)@ == sort_by(old(items)@, completion_order(id_scores(old(items)@, *ranker, language))),
{
    let ghost orig = items@;
    let mut scores = score_map_new();
    let mut i: usize = 0;
    while i < items.len()
        invariant
            i <= items@.len(),
            items@ == orig,
            scores@ == id_scores(orig.take(i as int), *ranker, language),
        decreases items@.len() - i,
    {
        let e = &items[i].entry;
        let sc = ranker.score(language, e.label.as_str(), e.kind);
        score_map_insert(&mut scores, e.id, sc);
        proof {
            assert(orig.take(i + 1).drop_last() =~= orig.take(i as int));
        }
        i += 1;
    }
    proof {
        assert(orig.take(i as int) =~= orig);
    }
    let ghost le = completion_order(scores@);
    let mut src: Vec<CompletionRecord> = Vec::new();
    std::mem::swap(&mut src, items);
    let mut out: Vec<CompletionRecord> = Vec::new();
    let mut k: usize = 0;
    proof {
        assert(orig.take(0) =~= Seq::<CompletionRecord>::empty());
    }
    let _n = src.len();
    while src.len() > 0
        invariant
            orig.len() <= usize::MAX,
            k + src@.len() == orig.len(),
            src@ == orig.skip(k as int),
            out@ == sort_by(orig.take(k as int), le),
            le == completion_order(scores@),
        decreases src@.len(),
    {
        let x = src.remove(0);
        proof {
            assert(orig.take(k + 1).drop_last() =~= orig.take(k as int));
            assert(orig.take(k + 1).last() == x);
            assert(src@ =~= orig.skip(k + 1));
        }
        insert_completion(&mut out, x, &scores);
        k += 1;
    }
    proof {
        assert(orig.take(k as int) =~= orig);
    }
    *items = out;
}

/// How a completion chooses the text it replaces.
#[derive(Debug, Clone, Copy)]
pub enum CompletionReplacePolicy {
    /// The identifier run that ends at the cursor.
    CursorWord,
    /// The ranges the server gave; with `anchor_to_prefix`, never starting before the
    /// identifier run that ends at the cursor.
    ServerRange { insert_range: Option<LspRange>, replace_range: Option<LspRange>, anchor_to_prefix: bool },
}

/// The LSP position of a char offset, clamped to the text.
pub open spec fn position_of_char(t: Seq<char>, off: int, enc: LspPositionEncoding) -> LspPosition {
    let o = if off < t.len() {
        off
    } else {
        t.len() as int
    };
    LspPosition { line: char_to_line(t, o) as u32, character: column_of(t, char_to_line(t, o), o, enc) }
}

/// The char offset an LSP position designates, through its byte offset.
pub open spec fn char_of_position(t: Seq<char>, p: LspPosition, enc: LspPositionEncoding) -> int {
    let b = if t.len() == 0 {
        0
    } else {
        char_to_byte(t, position_to_char(t, p.line as nat, p.character as nat, enc)) as int
    };
    let bounded = if b < utf8_len(t) {
        b
    } else {
        utf8_len(t) as int
    };
    byte_to_char(t, bounded) as int
}

/// The range of the identifier run (ASCII letters, digits, `_`) that ends at char `c`.
pub open spec fn cursor_word_range(t: Seq<char>, c: int, enc: LspPositionEncoding) -> LspRange {
    LspRange { start: position_of_char(t, word_start(t, c), enc), end: position_of_char(t, c, enc) }
}

/// The range a completion replaces: the identifier run before the cursor, unless the
/// buffer is still at the requested version and the policy names server ranges (the
/// replace range, else the insert range); when anchored, a server range that does not
/// reach the cursor word's end, or is inverted, gives way to the cursor word, and one
/// that starts before the word starts at the word.
pub open spec fn replace_range_for(
    t: Seq<char>,
    c: int,
    version_matches: bool,
    policy: CompletionReplacePolicy,
    enc: LspPositionEncoding,
) -> LspRange {
    let fb = cursor_word_range(t, c, enc);
    if !version_matches {
        fb
    } else {
        match policy {
            CompletionReplacePolicy::ServerRange { insert_range, replace_range, anchor_to_prefix } => {
                let chosen = if replace_range is Some {
                    replace_range
                } else {
                    insert_range
                };
                match chosen {
                    None => fb,
                    Some(item) => if !anchor_to_prefix {
                        item
                    } else {
                        let fs = char_of_position(t, fb.start, enc);
                        let fe = char_of_position(t, fb.end, enc);
                        let is = char_of_position(t, item.start, enc);
                        let ie = char_of_position(t, item.end, enc);
                        if is > ie || ie < fe {
                            fb
                        } else if is < fs {
                            LspRange { start: fb.start, end: item.end }
                        } else {
                            item
                        }
                    },
                }
            },
            CompletionReplacePolicy::CursorWord => fb,
        }
    }
}

fn char_offset_of_position(tab: &EditorTabState, p: LspPosition, encoding: LspPositionEncoding) -> (r: usize)
    ensures
        r == char_of_position(tab.buffer.text(), p, encoding),
{
    let byte = lsp_position_to_byte_offset(tab, p.line, p.character, encoding);
    let rope = tab.buffer.rope();
    let total = rope_len_bytes(rope);
    let bounded = if byte < total {
        byte
    } else {
        total
    };
    rope_byte_to_char(rope, bounded)
}

/// The LSP range a completion replaces, as `replace_range_for` describes it for the
/// tab's text and cursor.
pub fn completion_replace_range(
    tab: &EditorTabState,
    requested_version: u64,
    replace: &CompletionReplacePolicy,
    encoding: LspPositionEncoding,
) -> (r: LspRange)
    ensures
        r == replace_range_for(
            tab.buffer.text(),
            tab.buffer.cursor_at() as int,
            tab.edit_version == requested_version,
            *replace,
            encoding,
        ),
{
    let (start_char, end_char) = completion_prefix_bounds_at_cursor(tab);
    let fallback = LspRange {
        start: lsp_position_from_char_offset(tab, start_char, encoding),
        end: lsp_position_from_char_offset(tab, end_char, encoding),
    };
    if tab.edit_version != requested_version {
        return fallback;
    }
    match replace {
        CompletionReplacePolicy::ServerRange { insert_range, replace_range, anchor_to_prefix } => {
            let chosen = match replace_range {
                Some(r) => Some(*r),
                None => *insert_range,
            };
            let item = match chosen {
                Some(it) => it,
                None => return fallback,
            };
            if !*anchor_to_prefix {
                return item;
            }
            let fallback_start_char = char_offset_of_position(tab, fallback.start, encoding);
            let fallback_end_char = char_offset_of_position(tab, fallback.end, encoding);
            let item_start_char = char_offset_of_position(tab, item.start, encoding);
            let item_end_char = char_offset_of_position(tab, item.end, encoding);
            if item_start_char > item_end_char || item_end_char < fallback_end_char {
                return fallback;
            }
            if item_start_char < fallback_start_char {
                return LspRange { start: fallback.start, end: item.end };
            }
            item
        },
        CompletionReplacePolicy::CursorWord => fallback,
    }
}

/// A tab stop of an edit plan: index and char range within the planned text.
#[derive(Debug, Clone, Copy, PartialEq, Eq, Structural)]
pub struct TextEditTabstop {
    pub index: u32,
    pub start: usize,
    pub end: usize,
}

/// What a completion inserts, as a language plans it: the text, where the cursor or
/// selection goes within it, and its tab stops.
#[derive(Debug, Clone)]
pub struct TextEditPlan {
    pub text: String,
    pub cursor: Option<usize>,
    pub selection: Option<(usize, usize)>,
    pub tabstops: Vec<TextEditTabstop>,
}

/// A completion ready to insert: text, cursor or selection within it, tab stops.
#[derive(Debug, Clone)]
pub struct CompletionInsertion {
    pub text: String,
    pub cursor: Option<usize>,
    pub selection: Option<(usize, usize)>,
    pub tabstops: Vec<SnippetTabstop>,
}

impl CompletionInsertion {
    /// The insertion a plan describes, field for field.
    pub fn from_plan(plan: TextEditPlan) -> (r: Self)
        ensures
            r.text@ == plan.text@,
            r.cursor == plan.cursor,
            r.selection == plan.selection,
            r.tabstops@.len() == plan.tabstops@.len(),
            forall|i: int|
                0 <= i < r.tabstops@.len() ==> #[trigger] r.tabstops@[i] == (SnippetTabstop {
                    index: plan.tabstops@[i].index,
                    start: plan.tabstops@[i].start,
                    end: plan.tabstops@[i].end,
                }),
    {
        let mut tabstops: Vec<SnippetTabstop> = Vec::new();
        let mut i: usize = 0;
        while i < plan.tabstops.len()
            invariant
                i <= plan.tabstops@.len(),
                tabstops@.len() == i,
                forall|k: int|
                    0 <= k < i ==> #[trigger] tabstops@[k] == (SnippetTabstop {
                        index: plan.tabstops@[k].index,
                        start: plan.tabstops@[k].start,
                        end: plan.tabstops@[k].end,
                    }),
            decreases plan.tabstops@.len() - i,
        {
            let t = plan.tabstops[i];
            tabstops.push(SnippetTabstop { index: t.index, start: t.start, end: t.end });
            i += 1;
        }
        CompletionInsertion { text: plan.text, cursor: plan.cursor, selection: plan.selection, tabstops }
    }

    /// Whether the insertion places the cursor or a selection.
    pub fn has_cursor_or_selection(&self) -> (r: bool)
        ensures
            r == (self.cursor is Some || self.selection is Some),
    {
        self.cursor.is_some() || self.selection.is_some()
    }
}

/// End of the run of spaces and tabs of `t` that starts at `i`, stopping at `stop`.
pub open spec fn blank_run_end(t: Seq<char>, i: int, stop: int) -> int
    decreases stop - i,
{
    if i >= stop || !(t[i] == ' ' || t[i] == '\t') {
        i
    } else {
        blank_run_end(t, i + 1, stop)
    }
}

/// The spaces and tabs that start the line of char `off` (clamped to the text), up to `off`.
pub open spec fn indentation_before(t: Seq<char>, off: int) -> Seq<char> {
    let o = if off < t.len() {
        off
    } else {
        t.len() as int
    };
    let ls = line_to_char(t, char_to_line(t, o)) as int;
    t.subrange(ls, blank_run_end(t, ls, o))
}

proof fn lemma_blank_run_end(t: Seq<char>, i: int, stop: int)
    requires
        i <= stop,
    ensures
        i <= blank_run_end(t, i, stop) <= stop,
    decreases stop - i,
{
    if i < stop && (t[i] == ' ' || t[i] == '\t') {
        lemma_blank_run_end(t, i + 1, stop);
    }
}

/// The spaces and tabs at the start of the line of char `char_offset`, before it.
pub fn indentation_prefix_before_char(tab: &EditorTabState, char_offset: usize) -> (r: String)
    ensures
        r@ == indentation_before(tab.buffer.text(), char_offset as int),
{
    let rope = tab.buffer.rope();
    let ghost t = tab.buffer.text();
    let n = rope_len_chars(rope);
    let off = if char_offset < n {
        char_offset
    } else {
        n
    };
    let line = rope_char_to_line(rope, off);
    proof {
        lemma_count_nl_take_le(t, off as int);
        lemma_line_start_before(t, off as int);
    }
    let line_start = rope_line_to_char(rope, line);
    let mut ws_end = line_start;
    while ws_end < off && (rope_char(rope, ws_end) == ' ' || rope_char(rope, ws_end) == '\t')
        invariant
            line_start <= ws_end <= off <= t.len(),
            t == rope_text(*rope),
            blank_run_end(t, line_start as int, off as int) == blank_run_end(t, ws_end as int, off as int),
        decreases off - ws_end,
    {
        ws_end += 1;
    }
    rope_slice_string(rope, line_start, ws_end)
}

/// Index of the first line break of `t` at or after `i`, or `t.len()`.
pub open spec fn line_end_from(t: Seq<char>, i: int) -> int
    decreases t.len() - i,
{
    if i < 0 || i >= t.len() {
        t.len() as int
    } else if t[i] == '\n' {
        i
    } else {
        line_end_from(t, i + 1)
    }
}

/// A line without one trailing `'\r'`.
pub open spec fn strip_cr(l: Seq<char>) -> Seq<char> {
    if l.len() > 0 && l.last() == '\r' {
        l.drop_last()
    } else {
        l
    }
}

/// Whether a line is empty or white space only.
pub open spec fn blank_line(l: Seq<char>) -> bool {
    forall|k: int| 0 <= k < l.len() ==> #[trigger] unicode_whitespace(l[k])
}

/// Whether some line of `t` starting at or after line start `i` has text and does not
/// start with `base`.
pub open spec fn misindented_from(t: Seq<char>, base: Seq<char>, i: int) -> bool
    decreases t.len() + 1 - i,
{
    if i < 0 || i > t.len() {
        false
    } else {
        proof {
            lemma_line_end_from(t, i);
        }
        let e = line_end_from(t, i);
        let l = strip_cr(t.subrange(i, e));
        (!blank_line(l) && !base.is_prefix_of(l)) || (e < t.len() && misindented_from(t, base, e + 1))
    }
}

/// Whether a line of `t` after its first has text and does not start with `base`.
pub open spec fn needs_indent(t: Seq<char>, base: Seq<char>) -> bool {
    let e = line_end_from(t, 0);
    e < t.len() && misindented_from(t, base, e + 1)
}

/// The line end lies between `i` and the end of `t`, on a line break or past the end.
pub proof fn lemma_line_end_from(t: Seq<char>, i: int)
    requires
        0 <= i <= t.len(),
    ensures
        i <= line_end_from(t, i) <= t.len(),
        line_end_from(t, i) < t.len() ==> t[line_end_from(t, i)] == '\n',
        forall|k: int| i <= k < line_end_from(t, i) ==> t[k] != '\n',
    decreases t.len() - i,
{
    if i < t.len() && t[i] != '\n' {
        lemma_line_end_from(t, i + 1);
    }
}

fn line_end_exec(t: &Vec<char>, i: usize) -> (e: usize)
    requires
        i <= t@.len(),
    ensures
        e == line_end_from(t@, i as int),
{
    let mut e = i;
    while e < t.len() && t[e] != '\n'
        invariant
            i <= e <= t@.len(),
            line_end_from(t@, i as int) == line_end_from(t@, e as int),
        decreases t@.len() - e,
    {
        e += 1;
    }
    e
}

/// Whether the line `t[i..e]` (without one trailing `'\r'`) has text and does not start
/// with `base`.
fn line_misindented(t: &Vec<char>, base: &Vec<char>, i: usize, e: usize) -> (r: bool)
    requires
        i <= e <= t@.len(),
    ensures
        r == (!blank_line(strip_cr(t@.subrange(i as int, e as int))) && !base@.is_prefix_of(
            strip_cr(t@.subrange(i as int, e as int)),
        )),
{
    let ghost l = strip_cr(t@.subrange(i as int, e as int));
    let end = if e > i && t[e - 1] == '\r' {
        e - 1
    } else {
        e
    };
    assert(l =~= t@.subrange(i as int, end as int));
    let mut k = i;
    let mut blank = true;
    while k < end
        invariant
            i <= k <= end <= e <= t@.len(),
            l == t@.subrange(i as int, end as int),
            blank == (forall|m: int| i <= m < k ==> #[trigger] unicode_whitespace(t@[m])),
        decreases end - k,
    {
        if !is_whitespace(t[k]) {
            blank = false;
        }
        k += 1;
    }
    assert(blank == blank_line(l)) by {
        if blank {
            assert forall|m: int| 0 <= m < l.len() implies #[trigger] unicode_whitespace(l[m]) by {
                assert(l[m] == t@[i + m]);
            }
        } else {
            let m = choose|m: int| i <= m < end && !unicode_whitespace(#[trigger] t@[m]);
            assert(l[m - i] == t@[m]);
        }
    }
    if blank {
        return false;
    }
    if base.len() > end - i {
        return true;
    }
    let mut j: usize = 0;
    while j < base.len()
        invariant
            j <= base@.len() <= end - i,
            i <= end <= t@.len(),
            !blank_line(l),
            l == strip_cr(t@.subrange(i as int, e as int)),
            l == t@.subrange(i as int, end as int),
            forall|m: int| 0 <= m < j ==> base@[m] == l[m],
        decreases base@.len() - j,
    {
        if base[j] != t[i + j] {
            proof {
                assert(l[j as int] == t@[i + j]);
            }
            return true;
        }
        j += 1;
    }
    proof {
        assert(base@ =~= l.take(base@.len() as int));
    }
    false
}

/// Whether some line of `text` after the first has text and does not start with
/// `base_indent` (a trailing `'\r'` aside).
pub fn multiline_text_needs_indent_adjustment(text: &str, base_indent: &str) -> (r: bool)
    ensures
        r == needs_indent(text@, base_indent@),
{
    let t = str_chars(text);
    let base = str_chars(base_indent);
    proof {
        lemma_line_end_from(t@, 0);
    }
    let first = line_end_exec(&t, 0);
    if first >= t.len() {
        return false;
    }
    let mut i = first + 1;
    loop
        invariant
            0 < i <= t@.len(),
            t@ == text@,
            base@ == base_indent@,
            needs_indent(t@, base@) == misindented_from(t@, base@, i as int),
        decreases t@.len() - i,
    {
        proof {
            lemma_line_end_from(t@, i as int);
        }
        let e = line_end_exec(&t, i);
        if line_misindented(&t, &base, i, e) {
            return true;
        }
        if e >= t.len() {
            return false;
        }
        i = e + 1;
    }
}

/// `t` with `base` inserted after each line break.
pub open spec fn indent_after_newlines(t: Seq<char>, base: Seq<char>) -> Seq<char>
    decreases t.len(),
{
    if t.len() == 0 {
        Seq::empty()
    } else {
        let r = indent_after_newlines(t.drop_last(), base);
        if t.last() == '\n' {
            r.push('\n') + base
        } else {
            r.push(t.last())
        }
    }
}

/// Where char offset `idx` of `t` (clamped to its length) lands once `base_len` chars
/// follow each line break.
pub open spec fn remap_index(t: Seq<char>, base_len: nat, idx: int) -> int {
    let b = if idx < t.len() {
        idx
    } else {
        t.len() as int
    };
    b + base_len * count_nl(t.take(b))
}

/// The tab stops with their bounds remapped.
pub open spec fn remapped_tabstops(old: Seq<SnippetTabstop>, t: Seq<char>, base_len: nat, new: Seq<SnippetTabstop>) -> bool {
    &&& new.len() == old.len()
    &&& forall|i: int|
        0 <= i < new.len() ==> #[trigger] new[i] == (SnippetTabstop {
            index: old[i].index,
            start: remap_index(t, base_len, old[i].start as int) as usize,
            end: remap_index(t, base_len, old[i].end as int) as usize,
        })
}

/// Whether a multi-line insertion gets the indentation of its line: its text has a line
/// break, the line has indentation before the insertion point, and some later line of
/// the text does not already start with it.
pub open spec fn indent_applies(t: Seq<char>, start: int, text: Seq<char>) -> bool {
    &&& text.contains('\n')
    &&& indentation_before(t, start).len() > 0
    &&& needs_indent(text, indentation_before(t, start))
}

/// Indents the lines after the first of a multi-line insertion like the line it is
/// inserted on, moving its cursor, selection and tab stops along.
pub fn adjust_completion_multiline_indentation(
    tab: &EditorTabState,
    insertion_start_char: usize,
    insertion: CompletionInsertion,
) -> (r: CompletionInsertion)
    ensures
        !indent_applies(tab.buffer.text(), insertion_start_char as int, insertion.text@) ==> r == insertion,
        indent_applies(tab.buffer.text(), insertion_start_char as int, insertion.text@) ==> {
            let t = insertion.text@;
            let base = indentation_before(tab.buffer.text(), insertion_start_char as int);
            &&& r.text@ == indent_after_newlines(t, base)
            &&& r.cursor == match insertion.cursor {
                Some(c) => Some(remap_index(t, base.len(), c as int) as usize),
                None => None,
            }
            &&& r.selection == match insertion.selection {
                Some((a, b)) => Some(
                    (remap_index(t, base.len(), a as int) as usize, remap_index(t, base.len(), b as int) as usize),
                ),
                None => None,
            }
            &&& remapped_tabstops(insertion.tabstops@, t, base.len(), r.tabstops@)
        },
{
    let t = str_chars(insertion.text.as_str());
    let mut has_newline = false;
    let mut k: usize = 0;
    while k < t.len()
        invariant
            k <= t@.len(),
            has_newline == (exists|m: int| 0 <= m < k && t@[m] == '\n'),
        decreases t@.len() - k,
    {
        if t[k] == '\n' {
            has_newline = true;
        }
        k += 1;
    }
    if !has_newline {
        return insertion;
    }
    let base_indent = indentation_prefix_before_char(tab, insertion_start_char);
    let base = str_chars(base_indent.as_str());
    if base.len() == 0 {
        return insertion;
    }
    if !multiline_text_needs_indent_adjustment(insertion.text.as_str(), base_indent.as_str()) {
        return insertion;
    }
    let ghost bl = base@.len();
    let old_len = t.len();
    let mut index_map: Vec<usize> = Vec::new();
    index_map.push(0);
    let mut adjusted: Vec<char> = Vec::new();
    let mut i: usize = 0;
    proof {
        assert(t@.take(0) =~= Seq::<char>::empty());
        assert(0 + bl * count_nl(t@.take(0)) == 0) by (nonlinear_arith)
            requires
                count_nl(t@.take(0)) == 0,
        ;
    }
    while i < old_len
        invariant
            i <= old_len == t@.len(),
            bl == base@.len(),
            adjusted@ == indent_after_newlines(t@.take(i as int), base@),
            index_map@.len() == i + 1,
            forall|j: int| 0 <= j <= i ==> #[trigger] index_map@[j] == j + bl * count_nl(t@.take(j)),
            adjusted@.len() == i + bl * count_nl(t@.take(i as int)),
        decreases old_len - i,
    {
        let ch = t[i];
        proof {
            assert(t@.take(i + 1).drop_last() =~= t@.take(i as int));
            assert(t@.take(i + 1).last() == ch);
        }
        adjusted.push(ch);
        if ch == '\n' {
            let mut b: usize = 0;
            let ghost before = adjusted@;
            while b < base.len()
                invariant
                    b <= base@.len(),
                    adjusted@ == before + base@.take(b as int),
                decreases base@.len() - b,
            {
                adjusted.push(base[b]);
                proof {
                    assert(base@.take(b + 1) =~= base@.take(b as int).push(base@[b as int]));
                }
                b += 1;
            }
            proof {
                assert(base@.take(b as int) =~= base@);
                assert(count_nl(t@.take(i + 1)) == count_nl(t@.take(i as int)) + 1);
                assert((i + 1) + bl * (count_nl(t@.take(i as int)) + 1) == i + bl * count_nl(t@.take(i as int)) + 1 + bl)
                    by (nonlinear_arith);
            }
        } else {
            proof {
                assert(count_nl(t@.take(i + 1)) == count_nl(t@.take(i as int)));
            }
        }
        let ghost prev_map = index_map@;
        index_map.push(adjusted.len());
        proof {
            assert forall|j: int| 0 <= j <= i + 1 implies #[trigger] index_map@[j] == j + bl * count_nl(t@.take(j)) by {
                if j <= i {
                    assert(index_map@[j] == prev_map[j]);
                }
            }
        }
        i += 1;
    }
    proof {
        assert(t@.take(i as int) =~= t@);
    }
    let text = string_from_chars(adjusted.as_slice());
    let cursor = match insertion.cursor {
        Some(c) => Some(index_map[if c < old_len {
            c
        } else {
            old_len
        }]),
        None => None,
    };
    let selection = match insertion.selection {
        Some((a, b)) => Some(
            (index_map[if a < old_len {
                a
            } else {
                old_len
            }], index_map[if b < old_len {
                b
            } else {
                old_len
            }]),
        ),
        None => None,
    };
    let mut tabstops: Vec<SnippetTabstop> = Vec::new();
    let mut m: usize = 0;
    while m < insertion.tabstops.len()
        invariant
            m <= insertion.tabstops@.len(),
            old_len == t@.len(),
            index_map@.len() == old_len + 1,
            forall|j: int| 0 <= j <= old_len ==> #[trigger] index_map@[j] == j + bl * count_nl(t@.take(j)),
            tabstops@.len() == m,
            forall|x: int|
                0 <= x < m ==> #[trigger] tabstops@[x] == (SnippetTabstop {
                    index: insertion.tabstops@[x].index,
                    start: remap_index(t@, bl, insertion.tabstops@[x].start as int) as usize,
                    end: remap_index(t@, bl, insertion.tabstops@[x].end as int) as usize,
                }),
        decreases insertion.tabstops@.len() - m,
    {
        let ts = insertion.tabstops[m];
        let s = index_map[if ts.start < old_len {
            ts.start
        } else {
            old_len
        }];
        let e = index_map[if ts.end < old_len {
            ts.end
        } else {
            old_len
        }];
        tabstops.push(SnippetTabstop { index: ts.index, start: s, end: e });
        m += 1;
    }
    proof {
        assert(t@.contains('\n'));
    }
    CompletionInsertion { text, cursor, selection, tabstops }
}

/// Whether the text just before the cursor is the insertion's text and the insertion
/// places a cursor or selection.
pub open spec fn insertion_applies(t: Seq<char>, cursor: int, ins: CompletionInsertion) -> bool {
    let n = ins.text@.len() as int;
    &&& (ins.cursor is Some || ins.selection is Some)
    &&& n > 0
    &&& cursor >= n
    &&& t.subrange(cursor - n, cursor) == ins.text@
}

fn copy_tabstops(v: &Vec<SnippetTabstop>) -> (r: Vec<SnippetTabstop>)
    ensures
        r@ == v@,
{
    let mut r: Vec<SnippetTabstop> = Vec::new();
    let mut i: usize = 0;
    while i < v.len()
        invariant
            i <= v@.len(),
            r@ == v@.take(i as int),
        decreases v@.len() - i,
    {
        r.push(v[i]);
        proof {
            assert(v@.take(i + 1) =~= v@.take(i as int).push(v@[i as int]));
        }
        i += 1;
    }
    proof {
        assert(v@.take(i as int) =~= v@);
    }
    r
}

/// After a completion was inserted before the cursor: ends any snippet session, and
/// when the text just before the cursor is the inserted text, follows the cursor,
/// starts a snippet session for the insertion's tab stops, and places its cursor (or
/// selects its placeholder) relative to where the insertion starts.
pub fn apply_completion_insertion_cursor(tab: &mut EditorTabState, insertion: &CompletionInsertion)
    ensures
        final(tab).buffer.text() == old(tab).buffer.text(),
        final(tab).path == old(tab).path,
        final(tab).language == old(tab).language,
        final(tab).edit_version == old(tab).edit_version,
        final(tab).string_or_comment == old(tab).string_or_comment,
        !(insertion.cursor is Some || insertion.selection is Some) ==> final(tab).snippet_session == old(
            tab,
        ).snippet_session,
        !insertion_applies(old(tab).buffer.text(), old(tab).buffer.cursor_at() as int, *insertion) ==> {
            &&& final(tab).buffer.cursor_at() == old(tab).buffer.cursor_at()
            &&& final(tab).buffer.anchor_at() == old(tab).buffer.anchor_at()
            &&& final(tab).viewport == old(tab).viewport
            &&& (insertion.cursor is Some || insertion.selection is Some) ==> final(tab).snippet_session is None
        },
        insertion_applies(old(tab).buffer.text(), old(tab).buffer.cursor_at() as int, *insertion) ==> {
            let len = old(tab).buffer.text().len() as int;
            let start = old(tab).buffer.cursor_at() - insertion.text@.len();
            &&& final(tab).viewport.follow_cursor
            &&& if insertion.tabstops@.len() > 0 {
                &&& final(tab).snippet_session is Some
                &&& final(tab).snippet_session.unwrap().start == start
                &&& final(tab).snippet_session.unwrap().tabstops@ == insertion.tabstops@
            } else {
                final(tab).snippet_session is None
            }
            &&& match insertion.selection {
                Some((a, b)) => {
                    let lo = if a > b {
                        b
                    } else {
                        a
                    };
                    let hi = if a > b {
                        a
                    } else {
                        b
                    };
                    &&& final(tab).buffer.anchor_at() == Some(clamped_sum(start, lo as int, len) as usize)
                    &&& final(tab).buffer.cursor_at() == clamped_sum(start, hi as int, len)
                },
                None => {
                    &&& final(tab).buffer.anchor_at() is None
                    &&& final(tab).buffer.cursor_at() == clamped_sum(start, insertion.cursor.unwrap() as int, len)
                },
            }
        },
{
    if !insertion.has_cursor_or_selection() {
        return;
    }
    tab.cancel_snippet_session();
    let inserted = str_chars(insertion.text.as_str());
    let inserted_chars = inserted.len();
    if inserted_chars == 0 {
        return;
    }
    let cursor_end = tab.buffer.cursor_char_offset();
    if cursor_end < inserted_chars {
        return;
    }
    let start_char = cursor_end - inserted_chars;
    let len = rope_len_chars(tab.buffer.rope());
    let before = rope_slice_string(tab.buffer.rope(), start_char, cursor_end);
    if !str_eq(before.as_str(), insertion.text.as_str()) {
        return;
    }
    tab.viewport.follow_cursor = true;
    if insertion.tabstops.len() > 0 {
        let stops = copy_tabstops(&insertion.tabstops);
        tab.begin_snippet_session(start_char, stops);
    }
    match insertion.selection {
        Some((a, b)) => {
            let (lo, hi) = if a > b {
                (b, a)
            } else {
                (a, b)
            };
            let sel_start = add_clamped(start_char, lo, len);
            let sel_end = add_clamped(start_char, hi, len);
            tab.buffer.set_selection_chars(sel_start, sel_end);
        },
        None => {
            if let Some(cursor_rel) = insertion.cursor {
                let target = add_clamped(start_char, cursor_rel, len);
                tab.buffer.set_cursor_char(target);
            }
        },
    }
}

/// Editor actions that leave the completion popup open: viewport resizes, search
/// progress and syntax-highlight patches.
pub open spec fn keeps_completion_on_editor_action(a: EditorActionKind) -> bool {
    a == EditorActionKind::SetViewportSize || a == EditorActionKind::SearchStarted
        || a == EditorActionKind::SearchMessage || a == EditorActionKind::ApplySyntaxHighlightPatches
}

/// Whether an editor action closes the completion popup.
pub fn should_close_completion_on_editor_action(action: &EditorActionKind) -> (r: bool)
    ensures
        r == !keeps_completion_on_editor_action(*action),
{
    match action {
        EditorActionKind::SetViewportSize => false,
        EditorActionKind::SearchStarted | EditorActionKind::SearchMessage => false,
        EditorActionKind::ApplySyntaxHighlightPatches => false,
        _ => true,
    }
}

} // verus!
