//! Stable insertion into ordered sequences, and the sort it builds, for any order
//! that is total and transitive.

use vstd::prelude::*;

verus! {

/// Inserts `x` after the last element of `s` that does not come after it.
pub open spec fn insert_by<T>(s: Seq<T>, x: T, le: spec_fn(T, T) -> bool) -> Seq<T>
    decreases s.len(),
{
    if s.len() == 0 {
        seq![x]
    } else if le(s.last(), x) {
        s.push(x)
    } else {
        insert_by(s.drop_last(), x, le).push(s.last())
    }
}

/// Stable sort: each element inserted, in turn, after those that do not come after it.
pub open spec fn sort_by<T>(s: Seq<T>, le: spec_fn(T, T) -> bool) -> Seq<T>
    decreases s.len(),
{
    if s.len() == 0 {
        Seq::empty()
    } else {
        insert_by(sort_by(s.drop_last(), le), s.last(), le)
    }
}

/// Whether every element comes before or ties with every later one.
pub open spec fn sorted_by<T>(s: Seq<T>, le: spec_fn(T, T) -> bool) -> bool {
    forall|i: int, j: int| 0 <= i < j < s.len() ==> #[trigger] le(s[i], s[j])
}

/// Whether `le` orders any two elements one way or the other, transitively.
pub open spec fn total_preorder<T>(le: spec_fn(T, T) -> bool) -> bool {
    &&& forall|a: T, b: T| #[trigger] le(a, b) || le(b, a)
    &&& forall|a: T, b: T, c: T| #[trigger] le(a, b) && #[trigger] le(b, c) ==> le(a, c)
}

/// Insertion adds one element.
pub proof fn lemma_insert_by_len<T>(s: Seq<T>, x: T, le: spec_fn(T, T) -> bool)
    ensures
        insert_by(s, x, le).len() == s.len() + 1,
    decreases s.len(),
{
    if s.len() > 0 && !le(s.last(), x) {
        lemma_insert_by_len(s.drop_last(), x, le);
    }
}

/// Insertion adds `x` to the multiset of elements.
pub proof fn lemma_insert_by_multiset<T>(s: Seq<T>, x: T, le: spec_fn(T, T) -> bool)
    ensures
        insert_by(s, x, le).to_multiset() == s.to_multiset().insert(x),
    decreases s.len(),
{
    broadcast use vstd::seq_lib::group_to_multiset_ensures;

    if s.len() == 0 {
        assert(seq![x] =~= Seq::<T>::empty().push(x));
    } else if !le(s.last(), x) {
        let s2 = s.drop_last();
        lemma_insert_by_multiset(s2, x, le);
        assert(s =~= s2.push(s.last()));
        assert(insert_by(s, x, le).to_multiset() =~= s.to_multiset().insert(x));
    }
}

/// Inserting into a sequence whose elements all come before `y` an element that comes
/// before `y` keeps every element before `y`.
proof fn lemma_insert_by_bound<T>(s: Seq<T>, x: T, y: T, le: spec_fn(T, T) -> bool)
    requires
        forall|k: int| 0 <= k < s.len() ==> #[trigger] le(s[k], y),
        le(x, y),
    ensures
        forall|k: int| 0 <= k < insert_by(s, x, le).len() ==> #[trigger] le(insert_by(s, x, le)[k], y),
    decreases s.len(),
{
    let r = insert_by(s, x, le);
    if s.len() == 0 {
        assert(r[0] == x);
    } else if le(s.last(), x) {
        assert forall|k: int| 0 <= k < r.len() implies #[trigger] le(r[k], y) by {
            if k < s.len() {
                assert(r[k] == s[k]);
            }
        }
    } else {
        let s2 = s.drop_last();
        assert forall|k: int| 0 <= k < s2.len() implies #[trigger] le(s2[k], y) by {
            assert(s2[k] == s[k]);
        }
        lemma_insert_by_bound(s2, x, y, le);
        let r2 = insert_by(s2, x, le);
        assert forall|k: int| 0 <= k < r.len() implies #[trigger] le(r[k], y) by {
            if k < r2.len() {
                assert(r[k] == r2[k]);
            } else {
                assert(r[k] == s[s.len() - 1]);
            }
        }
    }
}

/// Insertion keeps a sorted sequence sorted.
pub proof fn lemma_insert_by_sorted<T>(s: Seq<T>, x: T, le: spec_fn(T, T) -> bool)
    requires
        total_preorder(le),
        sorted_by(s, le),
    ensures
        sorted_by(insert_by(s, x, le), le),
    decreases s.len(),
{
    lemma_insert_by_len(s, x, le);
    if s.len() == 0 {
    } else if le(s.last(), x) {
        let r = s.push(x);
        assert forall|i: int, j: int| 0 <= i < j < r.len() implies #[trigger] le(r[i], r[j]) by {
            if j == s.len() {
                if i < s.len() - 1 {
                    assert(le(s[i], s[s.len() - 1]));
                    assert(le(s[i], s.last()) && le(s.last(), x));
                }
            } else {
                assert(le(s[i], s[j]));
            }
        }
    } else {
        let s2 = s.drop_last();
        assert forall|i: int, j: int| 0 <= i < j < s2.len() implies #[trigger] le(s2[i], s2[j]) by {
            assert(le(s[i], s[j]));
        }
        lemma_insert_by_sorted(s2, x, le);
        assert(le(s.last(), x) || le(x, s.last()));
        assert forall|k: int| 0 <= k < s2.len() implies #[trigger] le(s2[k], s.last()) by {
            assert(le(s[k], s[s.len() - 1]));
        }
        lemma_insert_by_bound(s2, x, s.last(), le);
        lemma_insert_by_len(s2, x, le);
        let r2 = insert_by(s2, x, le);
        let r = r2.push(s.last());
        assert forall|i: int, j: int| 0 <= i < j < r.len() implies #[trigger] le(r[i], r[j]) by {
            if j == r2.len() {
                assert(le(r2[i], s.last()));
            } else {
                assert(le(r2[i], r2[j]));
            }
        }
    }
}

/// The sort is sorted, and holds the same elements.
pub proof fn lemma_sort_by<T>(s: Seq<T>, le: spec_fn(T, T) -> bool)
    requires
        total_preorder(le),
    ensures
        sorted_by(sort_by(s, le), le),
        sort_by(s, le).to_multiset() == s.to_multiset(),
        sort_by(s, le).len() == s.len(),
    decreases s.len(),
{
    broadcast use vstd::seq_lib::group_to_multiset_ensures;

    if s.len() > 0 {
        lemma_sort_by(s.drop_last(), le);
        lemma_insert_by_sorted(sort_by(s.drop_last(), le), s.last(), le);
        lemma_insert_by_multiset(sort_by(s.drop_last(), le), s.last(), le);
        lemma_insert_by_len(sort_by(s.drop_last(), le), s.last(), le);
        assert(s =~= s.drop_last().push(s.last()));
    } else {
        assert(s.to_multiset() =~= Seq::<T>::empty().to_multiset());
    }
}

/// One step of a backward scan for the insertion point: when the element before `p`
/// comes after `x`, the point lies before it.
pub proof fn lemma_insert_by_scan_step<T>(s: Seq<T>, x: T, le: spec_fn(T, T) -> bool, p: int)
    requires
        0 < p <= s.len(),
        !le(s[p - 1], x),
    ensures
        insert_by(s.take(p), x, le) + s.skip(p) == insert_by(s.take(p - 1), x, le) + s.skip(p - 1),
{
    let t = s.take(p);
    assert(t.last() == s[p - 1]);
    assert(t.drop_last() =~= s.take(p - 1));
    assert(insert_by(t, x, le) == insert_by(s.take(p - 1), x, le).push(s[p - 1]));
    assert(s.skip(p - 1) =~= seq![s[p - 1]] + s.skip(p));
    assert(insert_by(s.take(p - 1), x, le).push(s[p - 1]) + s.skip(p) =~= insert_by(s.take(p - 1), x, le) + s.skip(
        p - 1,
    ));
}

/// The end of the scan: `x` goes right after the element before `p`.
pub proof fn lemma_insert_by_scan_stop<T>(s: Seq<T>, x: T, le: spec_fn(T, T) -> bool, p: int)
    requires
        0 <= p <= s.len(),
        p == 0 || le(s[p - 1], x),
    ensures
        insert_by(s.take(p), x, le) == s.take(p).push(x),
{
    let t = s.take(p);
    if p == 0 {
        assert(t =~= Seq::<T>::empty());
        assert(insert_by(t, x, le) =~= t.push(x));
    } else {
        assert(t.last() == s[p - 1]);
    }
}

/// The start of the scan, from the end of `s`.
pub proof fn lemma_insert_by_scan_start<T>(s: Seq<T>, x: T, le: spec_fn(T, T) -> bool)
    ensures
        insert_by(s, x, le) == insert_by(s.take(s.len() as int), x, le) + s.skip(s.len() as int),
{
    assert(s.take(s.len() as int) =~= s);
    assert(insert_by(s, x, le) =~= insert_by(s.take(s.len() as int), x, le) + s.skip(s.len() as int));
}

} // verus!
