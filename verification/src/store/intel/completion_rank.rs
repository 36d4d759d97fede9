//! Ranking of completion items by how recently each was confirmed, per language.
//!
//! Every confirmed completion gets a stamp from a counter that only grows; an
//! item's score is its latest stamp (zero if it was never confirmed). Each language
//! keeps at most `MAX_ENTRIES_PER_LANGUAGE` items, dropping the oldest.

use rustc_hash::{FxBuildHasher, FxHashMap};
use vstd::prelude::*;

use crate::kernel::LanguageId;
use crate::sorted::{
    insert_by, lemma_insert_by_len, lemma_insert_by_multiset, lemma_insert_by_scan_start, lemma_insert_by_scan_step,
    lemma_insert_by_scan_stop, lemma_insert_by_sorted, sorted_by, total_preorder,
};
use crate::text::{chars_le, chars_le_exec, lemma_chars_le_antisym, lemma_chars_le_total, lemma_chars_le_trans, str_chars, string_from_chars};

verus! {

#[verifier::external_type_specification]
#[verifier::external_body]
pub struct ExFxBuildHasher(FxBuildHasher);

/// Most items a language keeps.
pub const MAX_ENTRIES_PER_LANGUAGE: usize = 512;

/// An item of a language: its completion kind and its label.
pub type RankKey = (Option<u32>, Seq<char>);

/// The stamps, by label, that a bucket of one kind holds.
pub uninterp spec fn label_stamps(b: FxHashMap<String, u64>) -> Map<Seq<char>, u64>;

/// `FxHashMap::default`: an empty bucket.
#[verifier::external_body]
fn bucket_new() -> (b: FxHashMap<String, u64>)
    ensures
        label_stamps(b).dom() == Set::<Seq<char>>::empty(),
{
    FxHashMap::default()
}

/// `HashMap::get` on a bucket: the stamp of `label`, if the bucket has it.
#[verifier::external_body]
fn bucket_get(b: &FxHashMap<String, u64>, label: &str) -> (r: Option<u64>)
    ensures
        r == (if label_stamps(*b).contains_key(label@) {
            Some(label_stamps(*b)[label@])
        } else {
            None
        }),
{
    b.get(label).copied()
}

/// `HashMap::insert` on a bucket: sets the stamp of `label`, and tells whether the
/// label is new to the bucket.
#[verifier::external_body]
fn bucket_insert(b: &mut FxHashMap<String, u64>, label: String, stamp: u64) -> (fresh: bool)
    ensures
        label_stamps(*final(b)) == label_stamps(*old(b)).insert(label@, stamp),
        fresh == !label_stamps(*old(b)).contains_key(label@),
{
    b.insert(label, stamp).is_none()
}

/// `HashMap::iter` on a bucket: each label with its stamp once, in the map's own order.
#[verifier::external_body]
fn bucket_entries(b: &FxHashMap<String, u64>) -> (v: Vec<(String, u64)>)
    ensures
        forall|i: int|
            0 <= i < v@.len() ==> label_stamps(*b).contains_key(#[trigger] v@[i].0@) && label_stamps(*b)[v@[i].0@]
                == v@[i].1,
        forall|i: int, j: int| 0 <= i < j < v@.len() ==> (#[trigger] v@[i].0)@ != (#[trigger] v@[j].0)@,
        forall|l: Seq<char>|
            #[trigger] label_stamps(*b).contains_key(l) ==> exists|i: int| 0 <= i < v@.len() && (#[trigger] v@[i].0)@ == l,
{
    b.iter().map(|(label, stamp)| (label.clone(), *stamp)).collect()
}

/// `FxHashMap::default`: no buckets.
#[verifier::external_body]
fn kinds_new() -> (m: FxHashMap<Option<u32>, FxHashMap<String, u64>>)
    ensures
        m@.dom() == Set::<Option<u32>>::empty(),
{
    FxHashMap::default()
}

/// `HashMap::get` on the buckets: the bucket of `kind`, if any.
#[verifier::external_body]
fn kinds_get(m: &FxHashMap<Option<u32>, FxHashMap<String, u64>>, kind: Option<u32>) -> (r: Option<
    &FxHashMap<String, u64>,
>)
    ensures
        match r {
            Some(b) => m@.contains_key(kind) && *b == m@[kind],
            None => !m@.contains_key(kind),
        },
{
    m.get(&kind)
}

/// `HashMap::remove` on the buckets: takes out the bucket of `kind`, if any.
#[verifier::external_body]
fn kinds_remove(m: &mut FxHashMap<Option<u32>, FxHashMap<String, u64>>, kind: Option<u32>) -> (r: Option<
    FxHashMap<String, u64>,
>)
    ensures
        final(m)@ == old(m)@.remove(kind),
        match r {
            Some(b) => old(m)@.contains_key(kind) && b == old(m)@[kind],
            None => !old(m)@.contains_key(kind),
        },
{
    m.remove(&kind)
}

/// `HashMap::insert` on the buckets: puts the bucket of `kind`.
#[verifier::external_body]
fn kinds_insert(m: &mut FxHashMap<Option<u32>, FxHashMap<String, u64>>, kind: Option<u32>, b: FxHashMap<String, u64>)
    ensures
        final(m)@ == old(m)@.insert(kind, b),
{
    m.insert(kind, b);
}

/// `HashMap::iter` on the buckets: each kind with its bucket once, in the map's own order.
#[verifier::external_body]
fn kinds_entries(m: &FxHashMap<Option<u32>, FxHashMap<String, u64>>) -> (v: Vec<(Option<u32>, &FxHashMap<String, u64>)>)
    ensures
        forall|i: int| 0 <= i < v@.len() ==> m@.contains_key(#[trigger] v@[i].0) && *v@[i].1 == m@[v@[i].0],
        forall|i: int, j: int| 0 <= i < j < v@.len() ==> #[trigger] v@[i].0 != #[trigger] v@[j].0,
        forall|k: Option<u32>| #[trigger] m@.contains_key(k) ==> exists|i: int| 0 <= i < v@.len() && #[trigger] v@[i].0 == k,
{
    m.iter().map(|(kind, bucket)| (*kind, bucket)).collect()
}

/// Whether ranked entry `a` comes before `b`: newer first, then by kind (none
/// first), then by label.
pub open spec fn rank_before(a: (u64, Option<u32>, Seq<char>), b: (u64, Option<u32>, Seq<char>)) -> bool {
    a.0 > b.0 || (a.0 == b.0 && (kind_lt(a.1, b.1) || (a.1 == b.1 && chars_le(a.2, b.2))))
}

/// The order of kinds: none first, then by number.
pub open spec fn kind_lt(a: Option<u32>, b: Option<u32>) -> bool {
    match (a, b) {
        (None, Some(_)) => true,
        (Some(x), Some(y)) => x < y,
        _ => false,
    }
}

/// What a language keeps of `grown`: all of it when it fits, else
/// `MAX_ENTRIES_PER_LANGUAGE` entries, each ranked before every dropped one.
pub open spec fn capped(grown: Map<RankKey, u64>, kept: Map<RankKey, u64>) -> bool {
    if grown.len() <= MAX_ENTRIES_PER_LANGUAGE {
        kept == grown
    } else {
        &&& kept.len() == MAX_ENTRIES_PER_LANGUAGE
        &&& kept.dom().finite()
        &&& kept.submap_of(grown)
        &&& forall|p: RankKey, q: RankKey|
            #![trigger kept.contains_key(p), grown.contains_key(q)]
            kept.contains_key(p) && grown.contains_key(q) && !kept.contains_key(q) ==> rank_before(
                (grown[p], p.0, p.1),
                (grown[q], q.0, q.1),
            )
    }
}

/// An item with its stamp, ready for ranking: stamp, kind, label chars.
pub type Ranked = (u64, Option<u32>, Vec<char>);

/// The value a ranked item stands for.
pub open spec fn ranked_view(e: Ranked) -> (u64, Option<u32>, Seq<char>) {
    (e.0, e.1, e.2@)
}

/// The key of a ranked item.
pub open spec fn ranked_key(e: Ranked) -> RankKey {
    (e.1, e.2@)
}

/// The values of ranked items.
pub open spec fn ranked_views(v: Seq<Ranked>) -> Seq<(u64, Option<u32>, Seq<char>)> {
    v.map_values(|e: Ranked| ranked_view(e))
}

/// `rank_before` as an order.
pub open spec fn rank_order() -> spec_fn((u64, Option<u32>, Seq<char>), (u64, Option<u32>, Seq<char>)) -> bool {
    |a: (u64, Option<u32>, Seq<char>), b: (u64, Option<u32>, Seq<char>)| rank_before(a, b)
}

/// Order of saved items: by kind (none first), then by label, then newest first.
pub open spec fn snapshot_before(a: (u64, Option<u32>, Seq<char>), b: (u64, Option<u32>, Seq<char>)) -> bool {
    kind_lt(a.1, b.1) || (a.1 == b.1 && (!chars_le(b.2, a.2) || (a.2 == b.2 && a.0 >= b.0)))
}

/// `snapshot_before` as an order.
pub open spec fn snapshot_order() -> spec_fn((u64, Option<u32>, Seq<char>), (u64, Option<u32>, Seq<char>)) -> bool {
    |a: (u64, Option<u32>, Seq<char>), b: (u64, Option<u32>, Seq<char>)| snapshot_before(a, b)
}

/// The order a sort of ranked items follows: `snapshot_order` or `rank_order`.
pub open spec fn ranked_order(snapshot: bool) -> spec_fn((u64, Option<u32>, Seq<char>), (u64, Option<u32>, Seq<char>)) -> bool {
    if snapshot {
        snapshot_order()
    } else {
        rank_order()
    }
}

proof fn lemma_snapshot_order_total_preorder()
    ensures
        total_preorder(snapshot_order()),
{
    assert forall|a: (u64, Option<u32>, Seq<char>), b: (u64, Option<u32>, Seq<char>)|
        #[trigger] snapshot_order()(a, b) || snapshot_order()(b, a) by {
        lemma_chars_le_total(a.2, b.2);
        if chars_le(a.2, b.2) && chars_le(b.2, a.2) {
            lemma_chars_le_antisym(a.2, b.2);
        }
    }
    assert forall|a: (u64, Option<u32>, Seq<char>), b: (u64, Option<u32>, Seq<char>), c: (u64, Option<u32>, Seq<char>)|
        #[trigger] snapshot_order()(a, b) && #[trigger] snapshot_order()(b, c) implies snapshot_order()(a, c) by {
        if a.1 == b.1 && b.1 == c.1 {
            lemma_chars_le_total(a.2, b.2);
            lemma_chars_le_total(b.2, c.2);
            lemma_chars_le_total(a.2, c.2);
            if chars_le(c.2, a.2) {
                if !chars_le(b.2, a.2) {
                    lemma_chars_le_trans(c.2, a.2, b.2);
                    if chars_le(b.2, c.2) {
                        lemma_chars_le_antisym(b.2, c.2);
                    }
                } else if !chars_le(c.2, b.2) {
                    lemma_chars_le_trans(c.2, a.2, b.2);
                } else {
                    lemma_chars_le_antisym(a.2, b.2);
                    lemma_chars_le_antisym(b.2, c.2);
                }
            }
        }
    }
}

proof fn lemma_ranked_order_total_preorder(snapshot: bool)
    ensures
        total_preorder(ranked_order(snapshot)),
{
    if snapshot {
        lemma_snapshot_order_total_preorder();
    } else {
        lemma_rank_order_total_preorder();
    }
}

proof fn lemma_rank_order_total_preorder()
    ensures
        total_preorder(rank_order()),
{
    assert forall|a: (u64, Option<u32>, Seq<char>), b: (u64, Option<u32>, Seq<char>)|
        #[trigger] rank_order()(a, b) || rank_order()(b, a) by {
        lemma_chars_le_total(a.2, b.2);
    }
    assert forall|a: (u64, Option<u32>, Seq<char>), b: (u64, Option<u32>, Seq<char>), c: (u64, Option<u32>, Seq<char>)|
        #[trigger] rank_order()(a, b) && #[trigger] rank_order()(b, c) implies rank_order()(a, c) by {
        if a.0 == b.0 && b.0 == c.0 && a.1 == b.1 && b.1 == c.1 {
            lemma_chars_le_trans(a.2, b.2, c.2);
        }
    }
}

fn kind_lt_exec(a: Option<u32>, b: Option<u32>) -> (r: bool)
    ensures
        r == kind_lt(a, b),
{
    match (a, b) {
        (None, Some(_)) => true,
        (Some(x), Some(y)) => x < y,
        _ => false,
    }
}

fn rank_before_exec(a: &Ranked, b: &Ranked) -> (r: bool)
    ensures
        r == rank_before(ranked_view(*a), ranked_view(*b)),
{
    a.0 > b.0 || (a.0 == b.0 && (kind_lt_exec(a.1, b.1) || (a.1 == b.1 && chars_le_exec(a.2.as_slice(), b.2.as_slice()))))
}

fn snapshot_before_exec(a: &Ranked, b: &Ranked) -> (r: bool)
    ensures
        r == snapshot_before(ranked_view(*a), ranked_view(*b)),
{
    if kind_lt_exec(a.1, b.1) {
        return true;
    }
    if a.1 != b.1 {
        return false;
    }
    let ba = chars_le_exec(b.2.as_slice(), a.2.as_slice());
    if !ba {
        return true;
    }
    let ab = chars_le_exec(a.2.as_slice(), b.2.as_slice());
    proof {
        if ab {
            lemma_chars_le_antisym(a.2@, b.2@);
        }
    }
    ab && a.0 >= b.0
}

fn ranked_before_exec(a: &Ranked, b: &Ranked, snapshot: bool) -> (r: bool)
    ensures
        r == ranked_order(snapshot)(ranked_view(*a), ranked_view(*b)),
{
    if snapshot {
        snapshot_before_exec(a, b)
    } else {
        rank_before_exec(a, b)
    }
}

/// Inserts `x` into `v` as `insert_by` does under `ranked_order(snapshot)`.
fn insert_ranked(v: &mut Vec<Ranked>, x: Ranked, snapshot: bool)
    ensures
        ranked_views(final(v)@) == insert_by(ranked_views(old(v)@), ranked_view(x), ranked_order(snapshot)),
{
    let ghost s = ranked_views(v@);
    let ghost xv = ranked_view(x);
    let mut p: usize = v.len();
    proof {
        lemma_insert_by_scan_start(s, xv, ranked_order(snapshot));
    }
    let mut done: bool = p == 0;
    while !done
        invariant
            p <= v.len(),
            s == ranked_views(v@),
            xv == ranked_view(x),
            insert_by(s, xv, ranked_order(snapshot)) == insert_by(s.take(p as int), xv, ranked_order(snapshot)) + s.skip(p as int),
            !done ==> p > 0,
            done ==> p == 0 || ranked_order(snapshot)(s[p - 1], xv),
        decreases p + if done {
            0int
        } else {
            1int
        },
    {
        let le = ranked_before_exec(&v[p - 1], &x, snapshot);
        proof {
            assert(s[p - 1] == ranked_view(v@[p - 1]));
        }
        if le {
            done = true;
        } else {
            proof {
                lemma_insert_by_scan_step(s, xv, ranked_order(snapshot), p as int);
            }
            p = p - 1;
            done = p == 0;
        }
    }
    proof {
        lemma_insert_by_scan_stop(s, xv, ranked_order(snapshot), p as int);
    }
    v.insert(p, x);
    proof {
        assert(ranked_views(v@) =~= s.take(p as int).push(xv) + s.skip(p as int));
    }
}

/// `v`'s items in `ranked_order(snapshot)`: the same items, sorted.
fn sort_ranked(v: Vec<Ranked>, snapshot: bool) -> (r: Vec<Ranked>)
    ensures
        sorted_by(ranked_views(r@), ranked_order(snapshot)),
        ranked_views(r@).to_multiset() == ranked_views(v@).to_multiset(),
{
    broadcast use vstd::seq_lib::group_to_multiset_ensures;

    let ghost orig = ranked_views(v@);
    let mut rest = v;
    let mut out: Vec<Ranked> = Vec::new();
    proof {
        lemma_ranked_order_total_preorder(snapshot);
        assert(ranked_views(out@) =~= Seq::<(u64, Option<u32>, Seq<char>)>::empty());
    }
    while rest.len() > 0
        invariant
            total_preorder(ranked_order(snapshot)),
            sorted_by(ranked_views(out@), ranked_order(snapshot)),
            ranked_views(out@).to_multiset().add(ranked_views(rest@).to_multiset()) == orig.to_multiset(),
        decreases rest.len(),
    {
        let ghost before = ranked_views(rest@);
        let x = rest.pop().unwrap();
        proof {
            assert(before =~= ranked_views(rest@).push(ranked_view(x)));
            assert(before == ranked_views(rest@).push(ranked_view(x)));
            lemma_insert_by_sorted(ranked_views(out@), ranked_view(x), ranked_order(snapshot));
            lemma_insert_by_multiset(ranked_views(out@), ranked_view(x), ranked_order(snapshot));
        }
        let ghost prev_out = ranked_views(out@);
        insert_ranked(&mut out, x, snapshot);
        proof {
            broadcast use vstd::multiset::group_multiset_axioms;

            let xv = ranked_view(x);
            vstd::seq_lib::to_multiset_build(ranked_views(rest@), xv);
            assert(before.to_multiset() == ranked_views(rest@).to_multiset().insert(xv));
            assert(ranked_views(out@).to_multiset() == prev_out.to_multiset().insert(xv));
            assert(ranked_views(out@).to_multiset().add(ranked_views(rest@).to_multiset()) =~= prev_out.to_multiset().add(
                before.to_multiset(),
            ));
        }
    }
    proof {
        assert(ranked_views(rest@) =~= Seq::<(u64, Option<u32>, Seq<char>)>::empty());
        assert(ranked_views(out@).to_multiset() =~= orig.to_multiset());
    }
    out
}

/// Items that are each an entry, once, and cover all entries, are as many as the entries.
proof fn lemma_ranked_len(u: Seq<Ranked>, grown: Map<RankKey, u64>)
    requires
        grown.dom().finite(),
        forall|i: int| 0 <= i < u.len() ==> grown.contains_key(#[trigger] ranked_key(u[i])),
        forall|i: int, j: int| 0 <= i < j < u.len() ==> ranked_key(#[trigger] u[i]) != ranked_key(#[trigger] u[j]),
        forall|p: RankKey| #[trigger] grown.contains_key(p) ==> exists|i: int| 0 <= i < u.len() && ranked_key(u[i]) == p,
    ensures
        u.len() == grown.len(),
{
    let ks = u.map_values(|e: Ranked| ranked_key(e));
    assert(ks.no_duplicates()) by {
        assert forall|i: int, j: int| 0 <= i < ks.len() && 0 <= j < ks.len() && i != j implies ks[i] != ks[j] by {
            if i < j {
                assert(ranked_key(u[i]) != ranked_key(u[j]));
            } else {
                assert(ranked_key(u[j]) != ranked_key(u[i]));
            }
        }
    }
    assert(ks.to_set() =~= grown.dom()) by {
        assert forall|p: RankKey| ks.to_set().contains(p) <==> grown.dom().contains(p) by {
            if grown.contains_key(p) {
                let i = choose|i: int| 0 <= i < u.len() && ranked_key(u[i]) == p;
                assert(ks[i] == p);
            }
            if ks.to_set().contains(p) {
                let i = choose|i: int| 0 <= i < ks.len() && ks[i] == p;
                assert(grown.contains_key(ranked_key(u[i])));
            }
        }
    }
    ks.unique_seq_to_set();
}

/// Sorting items whose keys are distinct keeps their keys distinct.
proof fn lemma_sorted_keys_distinct(u: Seq<Ranked>, r: Seq<Ranked>)
    requires
        forall|i: int, j: int| 0 <= i < j < u.len() ==> ranked_key(#[trigger] u[i]) != ranked_key(#[trigger] u[j]),
        ranked_views(r).to_multiset() == ranked_views(u).to_multiset(),
    ensures
        r.len() == u.len(),
        forall|a: int, b: int| 0 <= a < b < r.len() ==> ranked_key(#[trigger] r[a]) != ranked_key(#[trigger] r[b]),
{
    broadcast use vstd::seq_lib::group_to_multiset_ensures;

    let uv = ranked_views(u);
    let rv = ranked_views(r);
    assert(uv.to_multiset().len() == uv.len());
    assert(rv.to_multiset().len() == rv.len());
    assert(uv.no_duplicates()) by {
        assert forall|i: int, j: int| 0 <= i < uv.len() && 0 <= j < uv.len() && i != j implies uv[i] != uv[j] by {
            if i < j {
                assert(ranked_key(u[i]) != ranked_key(u[j]));
            } else {
                assert(ranked_key(u[j]) != ranked_key(u[i]));
            }
        }
    }
    uv.lemma_multiset_has_no_duplicates();
    assert forall|x| rv.to_multiset().count(x) <= 1 by {
        assert(uv.to_multiset().count(x) <= 1);
    }
    rv.lemma_multiset_has_no_duplicates_conv();
    assert forall|a: int, b: int| 0 <= a < b < r.len() implies ranked_key(#[trigger] r[a]) != ranked_key(#[trigger] r[b]) by {
        if ranked_key(r[a]) == ranked_key(r[b]) {
            assert(rv.contains(rv[a]));
            assert(rv.to_multiset().count(rv[a]) > 0);
            assert(uv.contains(rv[a]));
            assert(rv.contains(rv[b]));
            assert(rv.to_multiset().count(rv[b]) > 0);
            assert(uv.contains(rv[b]));
            let i = choose|i: int| 0 <= i < uv.len() && uv[i] == rv[a];
            let j = choose|j: int| 0 <= j < uv.len() && uv[j] == rv[b];
            assert(ranked_key(u[i]) == ranked_key(u[j]));
            if i < j {
            } else if j < i {
            } else {
                assert(rv[a] == rv[b]);
            }
        }
    }
}

/// The first `MAX_ENTRIES_PER_LANGUAGE` of the sorted items are what `capped` keeps.
proof fn lemma_kept_is_capped(u: Seq<Ranked>, r: Seq<Ranked>, grown: Map<RankKey, u64>, kept: Map<RankKey, u64>)
    requires
        grown.dom().finite(),
        grown.len() > MAX_ENTRIES_PER_LANGUAGE,
        forall|i: int|
            0 <= i < u.len() ==> grown.contains_key(#[trigger] ranked_key(u[i])) && grown[ranked_key(u[i])] == u[i].0,
        forall|p: RankKey| #[trigger] grown.contains_key(p) ==> exists|i: int| 0 <= i < u.len() && ranked_key(u[i]) == p,
        ranked_views(r).to_multiset() == ranked_views(u).to_multiset(),
        sorted_by(ranked_views(r), rank_order()),
        r.len() > MAX_ENTRIES_PER_LANGUAGE,
        kept.dom().finite(),
        kept.len() == MAX_ENTRIES_PER_LANGUAGE,
        forall|a: int|
            0 <= a < MAX_ENTRIES_PER_LANGUAGE ==> kept.contains_key(#[trigger] ranked_key(r[a])) && kept[ranked_key(r[a])]
                == r[a].0,
        forall|p: RankKey|
            #[trigger] kept.contains_key(p) ==> exists|a: int| 0 <= a < MAX_ENTRIES_PER_LANGUAGE && ranked_key(r[a]) == p,
    ensures
        capped(grown, kept),
{
    broadcast use vstd::seq_lib::group_to_multiset_ensures;

    let uv = ranked_views(u);
    let rv = ranked_views(r);
    assert(uv.to_multiset().len() == uv.len());
    assert(rv.to_multiset().len() == rv.len());
    // every sorted item is one of the entries
    assert forall|a: int| 0 <= a < r.len() implies grown.contains_key(#[trigger] ranked_key(r[a])) && grown[ranked_key(
        r[a],
    )] == r[a].0 by {
        assert(rv.contains(rv[a]));
        assert(rv.to_multiset().count(rv[a]) > 0);
        assert(uv.contains(rv[a]));
        let i = choose|i: int| 0 <= i < uv.len() && uv[i] == rv[a];
        assert(ranked_key(u[i]) == ranked_key(r[a]));
    }
    assert(kept.submap_of(grown)) by {
        assert forall|p: RankKey| #[trigger] kept.contains_key(p) implies grown.contains_key(p) && kept[p] == grown[p] by {
            let a = choose|a: int| 0 <= a < MAX_ENTRIES_PER_LANGUAGE && ranked_key(r[a]) == p;
            assert(grown.contains_key(ranked_key(r[a])));
        }
    }
    assert forall|p: RankKey, q: RankKey|
        #![trigger kept.contains_key(p), grown.contains_key(q)]
        kept.contains_key(p) && grown.contains_key(q) && !kept.contains_key(q) implies rank_before(
            (grown[p], p.0, p.1),
            (grown[q], q.0, q.1),
        ) by {
        let a = choose|a: int| 0 <= a < MAX_ENTRIES_PER_LANGUAGE && ranked_key(r[a]) == p;
        let i = choose|i: int| 0 <= i < u.len() && ranked_key(u[i]) == q;
        assert(uv.contains(uv[i]));
        assert(uv.to_multiset().count(uv[i]) > 0);
        assert(rv.contains(uv[i]));
        let b = choose|b: int| 0 <= b < rv.len() && rv[b] == uv[i];
        assert(ranked_key(r[b]) == q);
        if b < MAX_ENTRIES_PER_LANGUAGE {
            assert(kept.contains_key(ranked_key(r[b])));
        }
        assert(a < b);
        assert(rank_order()(rv[a], rv[b]));
        assert(grown.contains_key(ranked_key(r[a])));
    }
}

/// A saved item: kind, label and stamp.
#[derive(Debug, Clone)]
pub struct FrequencyEntry {
    pub label: String,
    pub kind: Option<u32>,
    pub score: u64,
}

/// The saved items of one language.
#[derive(Debug, Clone)]
pub struct LanguageFrequency {
    pub items: Vec<FrequencyEntry>,
}

/// The saved items of one language, with the language.
#[derive(Debug, Clone)]
pub struct LanguageRankerEntry {
    pub language: LanguageId,
    pub frequency: LanguageFrequency,
}

/// Everything a ranker saves.
#[derive(Debug, Clone)]
pub struct CompletionRankerData {
    pub languages: Vec<LanguageRankerEntry>,
}

/// The items a saved list describes: each item with a positive score, a later one
/// replacing an earlier one with the same kind and label.
pub open spec fn frequency_map(items: Seq<FrequencyEntry>) -> Map<RankKey, u64>
    decreases items.len(),
{
    if items.len() == 0 {
        Map::empty()
    } else {
        let rest = frequency_map(items.drop_last());
        let it = items.last();
        if it.score > 0 {
            rest.insert((it.kind, it.label@), it.score)
        } else {
            rest
        }
    }
}

/// Sorting keeps the items: each sorted item is an entry, each entry is sorted once.
proof fn lemma_sorted_same_items(u: Seq<Ranked>, r: Seq<Ranked>, m: Map<RankKey, u64>)
    requires
        forall|i: int| 0 <= i < u.len() ==> m.contains_key(#[trigger] ranked_key(u[i])) && m[ranked_key(u[i])] == u[i].0,
        forall|i: int, j: int| 0 <= i < j < u.len() ==> ranked_key(#[trigger] u[i]) != ranked_key(#[trigger] u[j]),
        forall|p: RankKey| #[trigger] m.contains_key(p) ==> exists|i: int| 0 <= i < u.len() && ranked_key(u[i]) == p,
        ranked_views(r).to_multiset() == ranked_views(u).to_multiset(),
    ensures
        forall|i: int| 0 <= i < r.len() ==> m.contains_key(#[trigger] ranked_key(r[i])) && m[ranked_key(r[i])] == r[i].0,
        forall|i: int, j: int| 0 <= i < j < r.len() ==> ranked_key(#[trigger] r[i]) != ranked_key(#[trigger] r[j]),
        forall|p: RankKey| #[trigger] m.contains_key(p) ==> exists|i: int| 0 <= i < r.len() && ranked_key(r[i]) == p,
        r.len() == u.len(),
{
    broadcast use vstd::seq_lib::group_to_multiset_ensures;

    lemma_sorted_keys_distinct(u, r);
    let uv = ranked_views(u);
    let rv = ranked_views(r);
    assert(uv.to_multiset().len() == uv.len());
    assert forall|a: int| 0 <= a < r.len() implies m.contains_key(#[trigger] ranked_key(r[a])) && m[ranked_key(r[a])]
        == r[a].0 by {
        assert(rv.contains(rv[a]));
        assert(rv.to_multiset().count(rv[a]) > 0);
        assert(uv.contains(rv[a]));
        let i = choose|i: int| 0 <= i < uv.len() && uv[i] == rv[a];
        assert(ranked_key(u[i]) == ranked_key(r[a]));
    }
    assert forall|p: RankKey| #[trigger] m.contains_key(p) implies exists|b: int| 0 <= b < r.len() && ranked_key(r[b]) == p by {
        let i = choose|i: int| 0 <= i < u.len() && ranked_key(u[i]) == p;
        assert(uv.contains(uv[i]));
        assert(uv.to_multiset().count(uv[i]) > 0);
        assert(rv.contains(uv[i]));
        let b = choose|b: int| 0 <= b < rv.len() && rv[b] == uv[i];
        assert(ranked_key(r[b]) == p);
    }
}

/// The values of saved items: stamp, kind, label.
pub open spec fn frequency_views(items: Seq<FrequencyEntry>) -> Seq<(u64, Option<u32>, Seq<char>)> {
    items.map_values(|it: FrequencyEntry| (it.score, it.kind, it.label@))
}

/// Whether saved items are exactly the entries `m`, each once, in `snapshot_order`.
pub open spec fn describes(items: Seq<FrequencyEntry>, m: Map<RankKey, u64>) -> bool {
    &&& sorted_by(frequency_views(items), snapshot_order())
    &&& forall|i: int|
        0 <= i < items.len() ==> m.contains_key((#[trigger] items[i].kind, items[i].label@)) && m[(
            items[i].kind,
            items[i].label@,
        )] == items[i].score
    &&& forall|i: int, j: int|
        0 <= i < j < items.len() ==> (#[trigger] items[i].kind, items[i].label@) != (#[trigger] items[j].kind, items[j].label@)
    &&& forall|p: RankKey| #[trigger] m.contains_key(p) ==> exists|i: int| 0 <= i < items.len() && (items[i].kind, items[i].label@) == p
}

/// Saved items that describe entries with positive stamps give back those entries.
pub proof fn lemma_frequency_map_of_described(items: Seq<FrequencyEntry>, m: Map<RankKey, u64>)
    requires
        describes(items, m),
        forall|p: RankKey| #[trigger] m.contains_key(p) ==> m[p] > 0,
    ensures
        frequency_map(items) == m,
    decreases items.len(),
{
    if items.len() == 0 {
        assert forall|p: RankKey| !m.contains_key(p) by {
            if m.contains_key(p) {
                let i = choose|i: int| 0 <= i < items.len() && (items[i].kind, items[i].label@) == p;
            }
        }
        assert(frequency_map(items) =~= m);
    } else {
        let last = items.last();
        let key = (last.kind, last.label@);
        let rest = items.drop_last();
        let m2 = m.remove(key);
        assert(describes(rest, m2)) by {
            assert forall|i: int, j: int| 0 <= i < j < rest.len() implies #[trigger] snapshot_order()(
                frequency_views(rest)[i],
                frequency_views(rest)[j],
            ) by {
                assert(frequency_views(rest)[i] == frequency_views(items)[i]);
                assert(frequency_views(rest)[j] == frequency_views(items)[j]);
            }
            assert forall|i: int| 0 <= i < rest.len() implies m2.contains_key((#[trigger] rest[i].kind, rest[i].label@))
                && m2[(rest[i].kind, rest[i].label@)] == rest[i].score by {
                assert(rest[i] == items[i]);
                assert((items[i].kind, items[i].label@) != (items[items.len() - 1].kind, items[items.len() - 1].label@));
            }
            assert forall|p: RankKey| #[trigger] m2.contains_key(p) implies exists|i: int|
                0 <= i < rest.len() && (rest[i].kind, rest[i].label@) == p by {
                let i = choose|i: int| 0 <= i < items.len() && (items[i].kind, items[i].label@) == p;
                assert(i != items.len() - 1);
                assert(rest[i] == items[i]);
            }
        }
        lemma_frequency_map_of_described(rest, m2);
        assert(m.contains_key(key));
        assert(frequency_map(items) =~= m);
    }
}

/// The items of one language: a bucket per kind, stamps by label.
pub struct LanguageRankState {
    last_used_by_kind: FxHashMap<Option<u32>, FxHashMap<String, u64>>,
    entry_count: usize,
    keys: Ghost<Set<RankKey>>,
}

impl LanguageRankState {
    /// The count and the ghost key set agree with the buckets.
    pub closed spec fn wf(&self) -> bool {
        &&& self.keys@.finite()
        &&& self.keys@.len() == self.entry_count
        &&& forall|p: RankKey|
            #![trigger self.keys@.contains(p)]
            #![trigger label_stamps(self.last_used_by_kind@[p.0]).contains_key(p.1)]
            self.keys@.contains(p) <==> (self.last_used_by_kind@.contains_key(p.0) && label_stamps(
                self.last_used_by_kind@[p.0],
            ).contains_key(p.1))
    }

    /// The items with their stamps.
    pub closed spec fn entries(&self) -> Map<RankKey, u64> {
        Map::new(
            |p: RankKey| self.keys@.contains(p),
            |p: RankKey| label_stamps(self.last_used_by_kind@[p.0])[p.1],
        )
    }

    /// The number of items.
    pub closed spec fn count(&self) -> nat {
        self.entry_count as nat
    }

    /// The items are finitely many: as many as the count.
    pub proof fn lemma_entries_finite(&self)
        requires
            self.wf(),
        ensures
            self.entries().dom().finite(),
            self.entries().len() == self.count(),
    {
        assert(self.entries().dom() =~= self.keys@);
    }

    /// A language with no items.
    pub fn new() -> (s: Self)
        ensures
            s.wf(),
            s.entries() == Map::<RankKey, u64>::empty(),
            s.count() == 0,
    {
        let s = LanguageRankState { last_used_by_kind: kinds_new(), entry_count: 0, keys: Ghost(Set::empty()) };
        assert(s.entries() =~= Map::<RankKey, u64>::empty());
        s
    }

    /// The stamp of the item, zero if the language does not have it.
    pub fn score(&self, label: &str, kind: Option<u32>) -> (r: u64)
        requires
            self.wf(),
        ensures
            r == (if self.entries().contains_key((kind, label@)) {
                self.entries()[(kind, label@)]
            } else {
                0
            }),
    {
        match kinds_get(&self.last_used_by_kind, kind) {
            Some(bucket) => match bucket_get(bucket, label) {
                Some(stamp) => {
                    assert(self.keys@.contains((kind, label@)));
                    stamp
                },
                None => {
                    assert(!self.keys@.contains((kind, label@)));
                    0
                },
            },
            None => {
                assert(!self.keys@.contains((kind, label@)));
                0
            },
        }
    }

    /// Every item once, with its stamp and its label's chars, in no particular order.
    fn unsorted_entries(&self) -> (v: Vec<Ranked>)
        requires
            self.wf(),
        ensures
            forall|i: int|
                0 <= i < v@.len() ==> self.entries().contains_key(#[trigger] ranked_key(v@[i]))
                    && self.entries()[ranked_key(v@[i])] == v@[i].0,
            forall|i: int, j: int| 0 <= i < j < v@.len() ==> ranked_key(#[trigger] v@[i]) != ranked_key(#[trigger] v@[j]),
            forall|p: RankKey|
                #[trigger] self.entries().contains_key(p) ==> exists|i: int| 0 <= i < v@.len() && ranked_key(v@[i]) == p,
    {
        let kl = kinds_entries(&self.last_used_by_kind);
        let ghost km = self.last_used_by_kind@;
        let mut v: Vec<Ranked> = Vec::new();
        let ghost mut done_kinds: Set<Option<u32>> = Set::empty();
        let mut i: usize = 0;
        while i < kl.len()
            invariant
                self.wf(),
                km == self.last_used_by_kind@,
                i <= kl@.len(),
                forall|a: int| 0 <= a < kl@.len() ==> km.contains_key(#[trigger] kl@[a].0) && *kl@[a].1 == km[kl@[a].0],
                forall|a: int, b: int| 0 <= a < b < kl@.len() ==> #[trigger] kl@[a].0 != #[trigger] kl@[b].0,
                forall|a: int| 0 <= a < i ==> done_kinds.contains(#[trigger] kl@[a].0),
                forall|a: int| i <= a < kl@.len() ==> !done_kinds.contains(#[trigger] kl@[a].0),
                forall|x: int|
                    0 <= x < v@.len() ==> self.entries().contains_key(#[trigger] ranked_key(v@[x]))
                        && self.entries()[ranked_key(v@[x])] == v@[x].0 && done_kinds.contains(v@[x].1),
                forall|x: int, y: int| 0 <= x < y < v@.len() ==> ranked_key(#[trigger] v@[x]) != ranked_key(#[trigger] v@[y]),
                forall|p: RankKey|
                    #[trigger] self.entries().contains_key(p) && done_kinds.contains(p.0) ==> exists|x: int|
                        0 <= x < v@.len() && ranked_key(v@[x]) == p,
            decreases kl@.len() - i,
        {
            let kind = kl[i].0;
            let bucket = kl[i].1;
            let be = bucket_entries(bucket);
            let ghost bm = label_stamps(*bucket);
            let base = v.len();
            let mut j: usize = 0;
            while j < be.len()
                invariant
                    self.wf(),
                    km == self.last_used_by_kind@,
                    km.contains_key(kind),
                    bm == label_stamps(km[kind]),
                    !done_kinds.contains(kind),
                    base <= v@.len(),
                    j <= be@.len(),
                    v@.len() == base + j,
                    forall|a: int|
                        0 <= a < be@.len() ==> bm.contains_key(#[trigger] be@[a].0@) && bm[be@[a].0@] == be@[a].1,
                    forall|a: int, b: int| 0 <= a < b < be@.len() ==> (#[trigger] be@[a].0)@ != (#[trigger] be@[b].0)@,
                    forall|x: int|
                        0 <= x < base ==> self.entries().contains_key(#[trigger] ranked_key(v@[x]))
                            && self.entries()[ranked_key(v@[x])] == v@[x].0 && done_kinds.contains(v@[x].1),
                    forall|a: int| 0 <= a < j ==> ranked_key(#[trigger] v@[base + a]) == (kind, be@[a].0@) && v@[base + a].0 == be@[a].1,
                    forall|x: int, y: int| 0 <= x < y < v@.len() ==> ranked_key(#[trigger] v@[x]) != ranked_key(#[trigger] v@[y]),
                    forall|p: RankKey|
                        #[trigger] self.entries().contains_key(p) && done_kinds.contains(p.0) ==> exists|x: int|
                            0 <= x < base && ranked_key(v@[x]) == p,
                decreases be@.len() - j,
            {
                let chars = str_chars(be[j].0.as_str());
                let stamp = be[j].1;
                let ghost key = (kind, be@[j as int].0@);
                proof {
                    assert(self.keys@.contains(key));
                    assert forall|x: int| 0 <= x < v@.len() implies ranked_key(#[trigger] v@[x]) != key by {
                        if x >= base {
                            assert(ranked_key(v@[base + (x - base)]) == (kind, be@[x - base].0@));
                        }
                    }
                }
                let ghost prev_v = v@;
                v.push((stamp, kind, chars));
                proof {
                    assert(ranked_key(v@[base + j]) == key);
                    assert forall|p: RankKey|
                        #[trigger] self.entries().contains_key(p) && done_kinds.contains(p.0) implies exists|x: int|
                            0 <= x < base && ranked_key(v@[x]) == p by {
                        let x = choose|x: int| 0 <= x < base && ranked_key(prev_v[x]) == p;
                        assert(v@[x] == prev_v[x]);
                    }
                }
                j += 1;
            }
            proof {
                assert forall|p: RankKey|
                    #[trigger] self.entries().contains_key(p) && done_kinds.insert(kind).contains(p.0) implies exists|x: int|
                        0 <= x < v@.len() && ranked_key(v@[x]) == p by {
                    if p.0 == kind {
                        assert(bm.contains_key(p.1));
                        let a = choose|a: int| 0 <= a < be@.len() && (#[trigger] be@[a].0)@ == p.1;
                        assert(ranked_key(v@[base + a]) == p);
                    } else {
                        let x = choose|x: int| 0 <= x < base && ranked_key(v@[x]) == p;
                        assert(0 <= x < v@.len() && ranked_key(v@[x]) == p);
                    }
                }
                assert forall|x: int| 0 <= x < v@.len() implies self.entries().contains_key(#[trigger] ranked_key(v@[x]))
                    && self.entries()[ranked_key(v@[x])] == v@[x].0 && done_kinds.insert(kind).contains(v@[x].1) by {
                    if x >= base {
                        let a = x - base;
                        assert(ranked_key(v@[base + a]) == (kind, be@[a].0@));
                        assert(self.keys@.contains((kind, be@[a].0@)));
                    }
                }
                done_kinds = done_kinds.insert(kind);
            }
            i += 1;
        }
        proof {
            assert forall|p: RankKey| #[trigger] self.entries().contains_key(p) implies exists|x: int|
                0 <= x < v@.len() && ranked_key(v@[x]) == p by {
                assert(km.contains_key(p.0));
                let a = choose|a: int| 0 <= a < kl@.len() && #[trigger] kl@[a].0 == p.0;
                assert(done_kinds.contains(kl@[a].0));
            }
        }
        v
    }

    /// Keeps the `MAX_ENTRIES_PER_LANGUAGE` newest items (ties by kind, then label) when
    /// the language holds more.
    fn enforce_capacity(&mut self)
        requires
            old(self).wf(),
        ensures
            final(self).wf(),
            capped(old(self).entries(), final(self).entries()),
            final(self).count() <= MAX_ENTRIES_PER_LANGUAGE,
    {
        proof {
            assert(self.entries().dom() =~= self.keys@);
        }
        if self.entry_count <= MAX_ENTRIES_PER_LANGUAGE {
            return;
        }
        let ghost grown = self.entries();
        let unsorted = self.unsorted_entries();
        proof {
            lemma_ranked_len(unsorted@, grown);
        }
        let ranked = sort_ranked(unsorted, false);
        proof {
            lemma_sorted_keys_distinct(unsorted@, ranked@);
        }
        let mut fresh_state = LanguageRankState::new();
        let mut k: usize = 0;
        while k < MAX_ENTRIES_PER_LANGUAGE
            invariant
                k <= MAX_ENTRIES_PER_LANGUAGE < ranked@.len(),
                fresh_state.wf(),
                fresh_state.count() == k,
                forall|a: int, b: int| 0 <= a < b < ranked@.len() ==> ranked_key(#[trigger] ranked@[a]) != ranked_key(#[trigger] ranked@[b]),
                forall|a: int|
                    0 <= a < k ==> fresh_state.entries().contains_key(#[trigger] ranked_key(ranked@[a]))
                        && fresh_state.entries()[ranked_key(ranked@[a])] == ranked@[a].0,
                forall|p: RankKey|
                    #[trigger] fresh_state.entries().contains_key(p) ==> exists|a: int| 0 <= a < k && ranked_key(ranked@[a]) == p,
            decreases MAX_ENTRIES_PER_LANGUAGE - k,
        {
            let label = string_from_chars(ranked[k].2.as_slice());
            let ghost key = ranked_key(ranked@[k as int]);
            proof {
                assert(!fresh_state.entries().contains_key(key)) by {
                    if fresh_state.entries().contains_key(key) {
                        let a = choose|a: int| 0 <= a < k && ranked_key(ranked@[a]) == key;
                        assert(ranked_key(ranked@[a]) != ranked_key(ranked@[k as int]));
                    }
                }
            }
            let ghost before = fresh_state.entries();
            fresh_state.put(label, ranked[k].1, ranked[k].0);
            proof {
                assert forall|p: RankKey| #[trigger] fresh_state.entries().contains_key(p) implies exists|a: int|
                    0 <= a < k + 1 && ranked_key(ranked@[a]) == p by {
                    if p != key {
                        assert(before.contains_key(p));
                        let a = choose|a: int| 0 <= a < k && ranked_key(ranked@[a]) == p;
                        assert(0 <= a < k + 1);
                    } else {
                        assert(ranked_key(ranked@[k as int]) == p);
                    }
                }
            }
            k += 1;
        }
        proof {
            let kept = fresh_state.entries();
            assert(kept.dom() =~= fresh_state.keys@);
            lemma_kept_is_capped(unsorted@, ranked@, grown, kept);
        }
        *self = fresh_state;
    }

    /// Stamps the item with `stamp`, then keeps the language within its capacity.
    pub fn record(&mut self, label: &str, kind: Option<u32>, stamp: u64)
        requires
            old(self).wf(),
            old(self).count() <= MAX_ENTRIES_PER_LANGUAGE,
        ensures
            final(self).wf(),
            final(self).count() <= MAX_ENTRIES_PER_LANGUAGE,
            capped(old(self).entries().insert((kind, label@), stamp), final(self).entries()),
    {
        proof {
            broadcast use vstd::string::group_string_axioms;
        }
        let owned = label.to_string();
        self.put(owned, kind, stamp);
        self.enforce_capacity();
    }

    /// The items of a saved frequency list (items with a zero score are skipped; a later
    /// item replaces an earlier one with the same kind and label), within capacity.
    pub fn from_frequency(frequency: &LanguageFrequency) -> (s: Self)
        ensures
            s.wf(),
            s.count() <= MAX_ENTRIES_PER_LANGUAGE,
            capped(frequency_map(frequency.items@), s.entries()),
    {
        let mut state = LanguageRankState::new();
        let mut j: usize = 0;
        while j < frequency.items.len()
            invariant
                j <= frequency.items@.len(),
                state.wf(),
                state.count() <= j,
                state.entries() == frequency_map(frequency.items@.take(j as int)),
            decreases frequency.items@.len() - j,
        {
            let item = &frequency.items[j];
            proof {
                assert(frequency.items@.take(j + 1).drop_last() =~= frequency.items@.take(j as int));
                assert(frequency.items@.take(j + 1).last() == frequency.items@[j as int]);
            }
            if item.score > 0 {
                state.put(item.label.clone(), item.kind, item.score);
            }
            j += 1;
        }
        proof {
            assert(frequency.items@.take(j as int) =~= frequency.items@);
        }
        state.enforce_capacity();
        state
    }

    /// The largest stamp of the language, zero when it has none.
    pub fn max_stamp(&self) -> (m: u64)
        requires
            self.wf(),
        ensures
            forall|p: RankKey| #[trigger] self.entries().contains_key(p) ==> self.entries()[p] <= m,
            m == 0 || exists|p: RankKey| #[trigger] self.entries().contains_key(p) && self.entries()[p] == m,
    {
        let v = self.unsorted_entries();
        let mut m: u64 = 0;
        let mut i: usize = 0;
        while i < v.len()
            invariant
                i <= v@.len(),
                forall|a: int| 0 <= a < i ==> v@[a].0 <= m,
                m == 0 || exists|a: int| 0 <= a < i && v@[a].0 == m,
            decreases v@.len() - i,
        {
            if v[i].0 > m {
                m = v[i].0;
            }
            i += 1;
        }
        proof {
            assert forall|p: RankKey| #[trigger] self.entries().contains_key(p) implies self.entries()[p] <= m by {
                let a = choose|a: int| 0 <= a < v@.len() && ranked_key(v@[a]) == p;
                assert(self.entries().contains_key(ranked_key(v@[a])));
            }
            if m != 0 {
                let a = choose|a: int| 0 <= a < i && v@[a].0 == m;
                assert(self.entries().contains_key(ranked_key(v@[a])));
            }
        }
        m
    }

    /// The items to save: each once, ordered by kind, then label.
    pub fn snapshot_items(&self) -> (items: Vec<FrequencyEntry>)
        requires
            self.wf(),
        ensures
            describes(items@, self.entries()),
            items@.len() == self.count(),
    {
        let unsorted = self.unsorted_entries();
        proof {
            assert(self.entries().dom() =~= self.keys@);
            lemma_ranked_len(unsorted@, self.entries());
        }
        let ranked = sort_ranked(unsorted, true);
        proof {
            lemma_sorted_same_items(unsorted@, ranked@, self.entries());
        }
        let mut items: Vec<FrequencyEntry> = Vec::new();
        let mut i: usize = 0;
        while i < ranked.len()
            invariant
                i <= ranked@.len(),
                items@.len() == i,
                forall|a: int|
                    0 <= a < i ==> (#[trigger] items@[a]).score == ranked@[a].0 && items@[a].kind == ranked@[a].1
                        && items@[a].label@ == ranked@[a].2@,
            decreases ranked@.len() - i,
        {
            let label = string_from_chars(ranked[i].2.as_slice());
            items.push(FrequencyEntry { label, kind: ranked[i].1, score: ranked[i].0 });
            i += 1;
        }
        proof {
            assert(frequency_views(items@) =~= ranked_views(ranked@));
            assert forall|a: int| 0 <= a < items@.len() implies (#[trigger] items@[a].kind, items@[a].label@)
                == ranked_key(ranked@[a]) by {}
            assert forall|a: int, b: int| 0 <= a < b < items@.len() implies (#[trigger] items@[a].kind, items@[a].label@) != (
                #[trigger] items@[b].kind,
                items@[b].label@,
            ) by {
                assert(ranked_key(ranked@[a]) != ranked_key(ranked@[b]));
            }
            assert forall|p: RankKey| #[trigger] self.entries().contains_key(p) implies exists|a: int|
                0 <= a < items@.len() && (items@[a].kind, items@[a].label@) == p by {
                let b = choose|b: int| 0 <= b < ranked@.len() && ranked_key(ranked@[b]) == p;
                assert((items@[b].kind, items@[b].label@) == ranked_key(ranked@[b]));
            }
        }
        items
    }

    /// Sets the item's stamp, counting it if it is new; the caller caps the count.
    fn put(&mut self, label: String, kind: Option<u32>, stamp: u64)
        requires
            old(self).wf(),
            old(self).count() < usize::MAX,
        ensures
            final(self).wf(),
            final(self).entries() == old(self).entries().insert((kind, label@), stamp),
            final(self).count() == old(self).count() + if old(self).entries().contains_key((kind, label@)) {
                0int
            } else {
                1int
            },
    {
        let ghost key = (kind, label@);
        let ghost old_kinds = self.last_used_by_kind@;
        let mut bucket = match kinds_remove(&mut self.last_used_by_kind, kind) {
            Some(b) => b,
            None => bucket_new(),
        };
        let ghost old_bucket = label_stamps(bucket);
        proof {
            if !old_kinds.contains_key(kind) {
                assert forall|l: Seq<char>| !old_bucket.contains_key(l) by {}
            }
        }
        let fresh = bucket_insert(&mut bucket, label, stamp);
        kinds_insert(&mut self.last_used_by_kind, kind, bucket);
        proof {
            assert(fresh == !self.keys@.contains(key));
            self.keys@ = self.keys@.insert(key);
        }
        if fresh {
            self.entry_count = self.entry_count + 1;
        }
        proof {
            let k2 = self.last_used_by_kind@;
            assert forall|p: RankKey|
                #![trigger self.keys@.contains(p)]
                #![trigger label_stamps(self.last_used_by_kind@[p.0]).contains_key(p.1)]
                self.keys@.contains(p) <==> (k2.contains_key(p.0) && label_stamps(k2[p.0]).contains_key(p.1)) by {
                if p.0 != kind {
                    assert(k2[p.0] == old_kinds[p.0]);
                }
            }
            assert(self.entries() =~= old(self).entries().insert(key, stamp)) by {
                assert forall|p: RankKey| #[trigger] self.entries().contains_key(p) implies self.entries()[p]
                    == old(self).entries().insert(key, stamp)[p] by {
                    if p.0 != kind {
                        assert(k2[p.0] == old_kinds[p.0]);
                    }
                }
            }
        }
    }
}

/// `FxHashMap::default`: no languages.
#[verifier::external_body]
fn index_new() -> (m: FxHashMap<LanguageId, LanguageRankState>)
    ensures
        m@.dom() == Set::<LanguageId>::empty(),
{
    FxHashMap::default()
}

/// `HashMap::get` on the languages: the items of `lang`, if any.
#[verifier::external_body]
fn index_get(m: &FxHashMap<LanguageId, LanguageRankState>, lang: LanguageId) -> (r: Option<&LanguageRankState>)
    ensures
        match r {
            Some(s) => m@.contains_key(lang) && *s == m@[lang],
            None => !m@.contains_key(lang),
        },
{
    m.get(&lang)
}

/// `HashMap::remove` on the languages: takes out the items of `lang`, if any.
#[verifier::external_body]
fn index_remove(m: &mut FxHashMap<LanguageId, LanguageRankState>, lang: LanguageId) -> (r: Option<LanguageRankState>)
    ensures
        final(m)@ == old(m)@.remove(lang),
        match r {
            Some(s) => old(m)@.contains_key(lang) && s == old(m)@[lang],
            None => !old(m)@.contains_key(lang),
        },
{
    m.remove(&lang)
}

/// `HashMap::insert` on the languages: puts the items of `lang`.
#[verifier::external_body]
fn index_insert(m: &mut FxHashMap<LanguageId, LanguageRankState>, lang: LanguageId, s: LanguageRankState)
    ensures
        final(m)@ == old(m)@.insert(lang, s),
{
    m.insert(lang, s);
}

/// The languages in the order of their identifiers (`c`, `cpp`, `java`, `python`, `rust`).
pub open spec fn language_order() -> Seq<LanguageId> {
    seq![LanguageId::C, LanguageId::Cpp, LanguageId::Java, LanguageId::Python, LanguageId::Rust]
}

/// Position of a language in `language_order`.
pub open spec fn language_pos(l: LanguageId) -> int {
    match l {
        LanguageId::C => 0,
        LanguageId::Cpp => 1,
        LanguageId::Java => 2,
        LanguageId::Python => 3,
        LanguageId::Rust => 4,
    }
}

/// Completion items ranked by when each was last confirmed, per language.
pub struct CompletionRanker {
    index: FxHashMap<LanguageId, LanguageRankState>,
    dirty: bool,
    clock: u64,
}

/// The items of a language in a map of languages; none when it is absent.
pub open spec fn entries_in(index: Map<LanguageId, LanguageRankState>, lang: LanguageId) -> Map<RankKey, u64> {
    if index.contains_key(lang) {
        index[lang].entries()
    } else {
        Map::empty()
    }
}

/// The score an item has among `entries`: its stamp, or zero.
pub open spec fn score_in(entries: Map<RankKey, u64>, label: Seq<char>, kind: Option<u32>) -> u64 {
    if entries.contains_key((kind, label)) {
        entries[(kind, label)]
    } else {
        0
    }
}

impl CompletionRanker {
    #[verifier::type_invariant]
    spec fn inv(self) -> bool {
        forall|lang: LanguageId|
            #[trigger] self.index@.contains_key(lang) ==> {
                let st = self.index@[lang];
                &&& st.wf()
                &&& st.count() <= MAX_ENTRIES_PER_LANGUAGE
                &&& forall|p: RankKey| #[trigger] st.entries().contains_key(p) ==> 0 < st.entries()[p] <= self.clock
            }
    }

    /// The items of a language with their stamps.
    pub closed spec fn language_entries(&self, lang: LanguageId) -> Map<RankKey, u64> {
        entries_in(self.index@, lang)
    }

    /// The last stamp handed out.
    pub closed spec fn clock(&self) -> u64 {
        self.clock
    }

    /// Whether the ranker changed since it was last saved.
    pub closed spec fn pending_save(&self) -> bool {
        self.dirty
    }

    /// Every language holds at most `MAX_ENTRIES_PER_LANGUAGE` items, stamped between one
    /// and the clock.
    pub open spec fn well_stamped(&self) -> bool {
        forall|lang: LanguageId|
            {
                let e = #[trigger] self.language_entries(lang);
                &&& e.dom().finite()
                &&& e.len() <= MAX_ENTRIES_PER_LANGUAGE
                &&& forall|p: RankKey| #[trigger] e.contains_key(p) ==> 0 < e[p] <= self.clock()
            }
    }

    proof fn lemma_well_stamped(&self)
        requires
            self.inv(),
        ensures
            self.well_stamped(),
    {
        assert forall|lang: LanguageId| {
            let e = #[trigger] self.language_entries(lang);
            &&& e.dom().finite()
            &&& e.len() <= MAX_ENTRIES_PER_LANGUAGE
            &&& forall|p: RankKey| #[trigger] e.contains_key(p) ==> 0 < e[p] <= self.clock()
        } by {
            if self.index@.contains_key(lang) {
                let st = self.index@[lang];
                assert(st.entries().dom() =~= st.keys@);
            } else {
                assert(Map::<RankKey, u64>::empty().dom() =~= Set::<RankKey>::empty());
            }
        }
    }

    /// How many items `language` holds.
    pub fn language_entry_count(&self, language: LanguageId) -> (r: usize)
        ensures
            r == self.language_entries(language).len(),
    {
        proof {
            use_type_invariant(self);
        }
        match index_get(&self.index, language) {
            Some(state) => {
                proof {
                    state.lemma_entries_finite();
                }
                state.entry_count
            },
            None => 0,
        }
    }

    /// Whether the ranker has unsaved changes.
    pub fn is_dirty(&self) -> (r: bool)
        ensures
            r == self.pending_save(),
    {
        self.dirty
    }

    /// Marks the ranker as saved; nothing else changes.
    pub fn clear_dirty(&mut self)
        ensures
            !final(self).pending_save(),
            final(self).clock() == old(self).clock(),
            forall|lang: LanguageId| #[trigger] final(self).language_entries(lang) == old(self).language_entries(lang),
    {
        proof {
            use_type_invariant(&*self);
        }
        self.dirty = false;
    }

    /// The ranker itself, once loaded.
    pub fn from_deserialized(self) -> (r: Self)
        ensures
            r == self,
    {
        self
    }

    /// The score of an item: its latest stamp in `language`, zero when it was never
    /// confirmed there or no language is given.
    pub fn score(&self, language: Option<LanguageId>, label: &str, kind: Option<u32>) -> (r: u64)
        ensures
            r == match language {
                Some(lang) => score_in(self.language_entries(lang), label@, kind),
                None => 0,
            },
    {
        let lang = match language {
            Some(l) => l,
            None => return 0,
        };
        proof {
            use_type_invariant(self);
        }
        match index_get(&self.index, lang) {
            Some(state) => {
                proof {
                    assert(self.index@.contains_key(lang));
                }
                state.score(label, kind)
            },
            None => 0,
        }
    }

    /// Records a confirmed completion: the item gets the next stamp in its language,
    /// which then keeps its newest `MAX_ENTRIES_PER_LANGUAGE` items. Without a language
    /// nothing happens.
    pub fn record(&mut self, language: Option<LanguageId>, label: &str, kind: Option<u32>)
        ensures
            record_post(*old(self), *final(self), language, label@, kind),
    {
        proof {
            use_type_invariant(&*self);
            self.lemma_well_stamped();
        }
        let lang = match language {
            Some(l) => l,
            None => {
                return;
            },
        };
        let stamp = if self.clock < u64::MAX {
            self.clock + 1
        } else {
            self.clock
        };
        self.clock = stamp;
        let ghost old_index = self.index@;
        let mut index = index_new();
        std::mem::swap(&mut index, &mut self.index);
        let mut state = match index_remove(&mut index, lang) {
            Some(st) => st,
            None => LanguageRankState::new(),
        };
        proof {
            assert(state.entries() == entries_in(old_index, lang));
        }
        proof {
            state.lemma_entries_finite();
        }
        let ghost grown = state.entries().insert((kind, label@), stamp);
        state.record(label, kind, stamp);
        proof {
            assert(grown.dom().finite());
            assert forall|p: RankKey| #[trigger] state.entries().contains_key(p) implies 0 < state.entries()[p] <= stamp by {
                assert(grown.contains_key(p) && grown[p] == state.entries()[p]);
            }
        }
        index_insert(&mut index, lang, state);
        self.index = index;
        self.dirty = true;
        proof {
            use_type_invariant(&*self);
            self.lemma_well_stamped();
            assert forall|other: LanguageId| other != lang implies #[trigger] self.language_entries(other)
                == old(self).language_entries(other) by {
                assert(self.index@.contains_key(other) == old_index.contains_key(other));
                if old_index.contains_key(other) {
                    assert(self.index@[other] == old_index[other]);
                }
            }
        }
    }
}

/// What `record` guarantees: without a language nothing changes; with one, the clock
/// advances (unless it is at its limit), the item gets the new stamp, the language keeps
/// what `capped` allows of its grown items, and other languages are untouched.
pub open spec fn record_post(
    before: CompletionRanker,
    after: CompletionRanker,
    language: Option<LanguageId>,
    label: Seq<char>,
    kind: Option<u32>,
) -> bool {
    &&& before.well_stamped()
    &&& after.well_stamped()
    &&& match language {
        None => {
            &&& after.clock() == before.clock()
            &&& after.pending_save() == before.pending_save()
            &&& forall|l: LanguageId| #[trigger] after.language_entries(l) == before.language_entries(l)
        },
        Some(lang) => {
            &&& after.clock() == if before.clock() < u64::MAX {
                (before.clock() + 1) as u64
            } else {
                before.clock()
            }
            &&& after.pending_save()
            &&& capped(
                before.language_entries(lang).insert((kind, label), after.clock()),
                after.language_entries(lang),
            )
            &&& forall|l: LanguageId| l != lang ==> #[trigger] after.language_entries(l) == before.language_entries(l)
        },
    }
}

impl Default for CompletionRanker {
    /// A ranker with no items, clock at zero, nothing to save.
    fn default() -> (r: Self)
        ensures
            r.clock() == 0,
            !r.pending_save(),
            forall|lang: LanguageId| #[trigger] r.language_entries(lang) == Map::<RankKey, u64>::empty(),
    {
        CompletionRanker { index: index_new(), dirty: false, clock: 0 }
    }
}

/// The frequency map of saved items is finite.
pub proof fn lemma_frequency_map_finite(items: Seq<FrequencyEntry>)
    ensures
        frequency_map(items).dom().finite(),
    decreases items.len(),
{
    if items.len() > 0 {
        lemma_frequency_map_finite(items.drop_last());
    }
}

/// The saved entry of `lang` that loading keeps: the last one whose items are not all empty.
pub open spec fn last_nonempty(langs: Seq<LanguageRankerEntry>, lang: LanguageId) -> Option<int>
    decreases langs.len(),
{
    if langs.len() == 0 {
        None
    } else if langs.last().language == lang && frequency_map(langs.last().frequency.items@).len() > 0 {
        Some(langs.len() - 1)
    } else {
        last_nonempty(langs.drop_last(), lang)
    }
}

/// What `snapshot_data` guarantees: each language appears at most once, in
/// `language_order`, with items that describe exactly its entries; every language with
/// items appears.
pub open spec fn snapshot_post(r: CompletionRanker, data: CompletionRankerData) -> bool {
    &&& forall|j: int|
        0 <= j < data.languages@.len() ==> describes(
            (#[trigger] data.languages@[j]).frequency.items@,
            r.language_entries(data.languages@[j].language),
        )
    &&& forall|i: int, j: int|
        0 <= i < j < data.languages@.len() ==> language_pos((#[trigger] data.languages@[i]).language) < language_pos(
            (#[trigger] data.languages@[j]).language,
        )
    &&& forall|lang: LanguageId|
        #[trigger] r.language_entries(lang).len() > 0 ==> exists|j: int|
            0 <= j < data.languages@.len() && data.languages@[j].language == lang
}

/// What `from_data` guarantees: each language holds what `capped` keeps of the last saved
/// entry with items for it (nothing if there is none), the clock is the largest stamp,
/// and nothing is left to save.
pub open spec fn from_data_post(data: CompletionRankerData, r: CompletionRanker) -> bool {
    &&& r.well_stamped()
    &&& !r.pending_save()
    &&& forall|lang: LanguageId|
        match #[trigger] last_nonempty(data.languages@, lang) {
            Some(j) => capped(frequency_map(data.languages@[j].frequency.items@), r.language_entries(lang)),
            None => r.language_entries(lang) == Map::<RankKey, u64>::empty(),
        }
    &&& r.clock() == 0 || exists|lang: LanguageId, p: RankKey|
        #[trigger] r.language_entries(lang).contains_key(p) && r.language_entries(lang)[p] == r.clock()
}

impl CompletionRanker {
    /// What the ranker saves: for each language with items, in identifier order, its
    /// items sorted by kind and label.
    pub fn snapshot_data(&self) -> (data: CompletionRankerData)
        ensures
            snapshot_post(*self, data),
    {
        proof {
            use_type_invariant(self);
        }
        let order: [LanguageId; 5] = [LanguageId::C, LanguageId::Cpp, LanguageId::Java, LanguageId::Python, LanguageId::Rust];
        let mut languages: Vec<LanguageRankerEntry> = Vec::new();
        let mut i: usize = 0;
        while i < 5
            invariant
                i <= 5,
                order@ == language_order(),
                forall|lang: LanguageId| #[trigger] self.index@.contains_key(lang) ==> self.index@[lang].wf(),
                forall|j: int|
                    0 <= j < languages@.len() ==> describes(
                        (#[trigger] languages@[j]).frequency.items@,
                        self.language_entries(languages@[j].language),
                    ) && language_pos(languages@[j].language) < i,
                forall|a: int, b: int|
                    0 <= a < b < languages@.len() ==> language_pos((#[trigger] languages@[a]).language) < language_pos(
                        (#[trigger] languages@[b]).language,
                    ),
                forall|lang: LanguageId|
                    #[trigger] self.language_entries(lang).len() > 0 && language_pos(lang) < i ==> exists|j: int|
                        0 <= j < languages@.len() && languages@[j].language == lang,
            decreases 5 - i,
        {
            let lang = order[i];
            assert(language_pos(lang) == i);
            let ghost prev = languages@;
            match index_get(&self.index, lang) {
                Some(state) => {
                    let items = state.snapshot_items();
                    languages.push(LanguageRankerEntry { language: lang, frequency: LanguageFrequency { items } });
                    proof {
                        assert(languages@[prev.len() as int].language == lang);
                        assert forall|l: LanguageId|
                            #[trigger] self.language_entries(l).len() > 0 && language_pos(l) < i + 1 implies exists|j: int|
                                0 <= j < languages@.len() && languages@[j].language == l by {
                            if l != lang {
                                let j = choose|j: int| 0 <= j < prev.len() && prev[j].language == l;
                                assert(languages@[j] == prev[j]);
                            }
                        }
                    }
                },
                None => {
                    proof {
                        assert(self.language_entries(lang) =~= Map::<RankKey, u64>::empty());
                        assert forall|l: LanguageId|
                            #[trigger] self.language_entries(l).len() > 0 && language_pos(l) < i + 1 implies exists|j: int|
                                0 <= j < languages@.len() && languages@[j].language == l by {
                            if l == lang {
                                assert(self.language_entries(l).len() == 0);
                            }
                        }
                    }
                },
            }
            i += 1;
        }
        proof {
            assert forall|lang: LanguageId| #[trigger] self.language_entries(lang).len() > 0 implies exists|j: int|
                0 <= j < languages@.len() && languages@[j].language == lang by {
                assert(language_pos(lang) < 5);
            }
        }
        CompletionRankerData { languages }
    }

    /// A ranker loaded from saved data: each language's items as its last saved entry
    /// with items gives them, within capacity; the clock resumes from the largest stamp.
    pub fn from_data(data: CompletionRankerData) -> (r: Self)
        ensures
            from_data_post(data, r),
    {
        let mut index = index_new();
        let mut j: usize = 0;
        while j < data.languages.len()
            invariant
                j <= data.languages@.len(),
                forall|lang: LanguageId|
                    #[trigger] index@.contains_key(lang) ==> {
                        let st = index@[lang];
                        &&& st.wf()
                        &&& st.count() <= MAX_ENTRIES_PER_LANGUAGE
                        &&& forall|p: RankKey| #[trigger] st.entries().contains_key(p) ==> 0 < st.entries()[p]
                    },
                forall|lang: LanguageId|
                    match #[trigger] last_nonempty(data.languages@.take(j as int), lang) {
                        Some(k) => 0 <= k < j && index@.contains_key(lang) && capped(
                            frequency_map(data.languages@[k].frequency.items@),
                            index@[lang].entries(),
                        ),
                        None => !index@.contains_key(lang),
                    },
            decreases data.languages@.len() - j,
        {
            let entry = &data.languages[j];
            let state = LanguageRankState::from_frequency(&entry.frequency);
            let ghost fm = frequency_map(entry.frequency.items@);
            proof {
                lemma_frequency_map_finite(entry.frequency.items@);
                state.lemma_entries_finite();
                assert(data.languages@.take(j + 1).drop_last() =~= data.languages@.take(j as int));
                assert(data.languages@.take(j + 1).last() == data.languages@[j as int]);
                assert forall|p: RankKey| #[trigger] state.entries().contains_key(p) implies 0 < state.entries()[p] by {
                    lemma_frequency_map_positive(entry.frequency.items@, p);
                    if fm.len() <= MAX_ENTRIES_PER_LANGUAGE {
                    } else {
                        assert(fm.contains_key(p));
                    }
                }
                if fm.len() > 0 {
                    if fm.len() <= MAX_ENTRIES_PER_LANGUAGE {
                    } else {
                    }
                    assert(state.count() > 0);
                } else {
                    assert(state.entries().len() == 0);
                }
            }
            let ghost prev_index = index@;
            if state.entry_count > 0 {
                index_insert(&mut index, entry.language, state);
            }
            proof {
                assert forall|lang: LanguageId|
                    match #[trigger] last_nonempty(data.languages@.take(j + 1), lang) {
                        Some(k) => 0 <= k < j + 1 && index@.contains_key(lang) && capped(
                            frequency_map(data.languages@[k].frequency.items@),
                            index@[lang].entries(),
                        ),
                        None => !index@.contains_key(lang),
                    } by {
                    let t = data.languages@.take(j + 1);
                    lemma_last_nonempty_range(data.languages@.take(j as int), lang);
                    if lang == entry.language && fm.len() > 0 {
                        assert(last_nonempty(t, lang) == Some(j as int));
                    } else {
                        assert(last_nonempty(t, lang) == last_nonempty(data.languages@.take(j as int), lang));
                        if lang != entry.language {
                            assert(index@.contains_key(lang) == prev_index.contains_key(lang));
                            if prev_index.contains_key(lang) {
                                assert(index@[lang] == prev_index[lang]);
                            }
                        } else {
                            assert(index@ == prev_index);
                        }
                    }
                }
            }
            j += 1;
        }
        proof {
            assert(data.languages@.take(j as int) =~= data.languages@);
        }
        let order: [LanguageId; 5] = [LanguageId::C, LanguageId::Cpp, LanguageId::Java, LanguageId::Python, LanguageId::Rust];
        let mut clock: u64 = 0;
        let mut i: usize = 0;
        while i < 5
            invariant
                i <= 5,
                order@ == language_order(),
                forall|lang: LanguageId|
                    #[trigger] index@.contains_key(lang) ==> {
                        let st = index@[lang];
                        &&& st.wf()
                        &&& st.count() <= MAX_ENTRIES_PER_LANGUAGE
                        &&& forall|p: RankKey| #[trigger] st.entries().contains_key(p) ==> 0 < st.entries()[p]
                    },
                forall|lang: LanguageId, p: RankKey|
                    language_pos(lang) < i && #[trigger] entries_in(index@, lang).contains_key(p) ==> entries_in(index@, lang)[p]
                        <= clock,
                clock == 0 || exists|lang: LanguageId, p: RankKey|
                    #[trigger] entries_in(index@, lang).contains_key(p) && entries_in(index@, lang)[p] == clock,
            decreases 5 - i,
        {
            let lang = order[i];
            assert(language_pos(lang) == i);
            match index_get(&index, lang) {
                Some(st) => {
                    let m = st.max_stamp();
                    proof {
                        assert(entries_in(index@, lang) == st.entries());
                    }
                    if m > clock {
                        clock = m;
                        proof {
                            let p = choose|p: RankKey| #[trigger] st.entries().contains_key(p) && st.entries()[p] == m;
                            assert(entries_in(index@, lang).contains_key(p) && entries_in(index@, lang)[p] == clock);
                        }
                    }
                },
                None => {},
            }
            i += 1;
        }
        proof {
            assert forall|lang: LanguageId, p: RankKey| #[trigger] entries_in(index@, lang).contains_key(p) implies entries_in(
                index@,
                lang,
            )[p] <= clock by {
                assert(language_pos(lang) < 5);
            }
            assert forall|lang: LanguageId| #[trigger] index@.contains_key(lang) implies forall|p: RankKey|
                #[trigger] index@[lang].entries().contains_key(p) ==> index@[lang].entries()[p] <= clock by {
                assert(entries_in(index@, lang) == index@[lang].entries());
            }
        }
        let r = CompletionRanker { index, dirty: false, clock };
        proof {
            r.lemma_well_stamped();
            assert forall|lang: LanguageId|
                match #[trigger] last_nonempty(data.languages@, lang) {
                    Some(k) => capped(frequency_map(data.languages@[k].frequency.items@), r.language_entries(lang)),
                    None => r.language_entries(lang) == Map::<RankKey, u64>::empty(),
                } by {
                assert(r.language_entries(lang) == entries_in(index@, lang));
            }
            if clock != 0 {
                let (lang, p) = choose|lang: LanguageId, p: RankKey|
                    #[trigger] entries_in(index@, lang).contains_key(p) && entries_in(index@, lang)[p] == clock;
                assert(r.language_entries(lang).contains_key(p));
            }
        }
        r
    }
}

/// The entry `last_nonempty` picks lies within the saved entries.
pub proof fn lemma_last_nonempty_range(langs: Seq<LanguageRankerEntry>, lang: LanguageId)
    ensures
        match last_nonempty(langs, lang) {
            Some(k) => 0 <= k < langs.len() && langs[k].language == lang,
            None => true,
        },
    decreases langs.len(),
{
    if langs.len() > 0 {
        lemma_last_nonempty_range(langs.drop_last(), lang);
    }
}

/// Every saved item in a frequency map has a positive score.
pub proof fn lemma_frequency_map_positive(items: Seq<FrequencyEntry>, p: RankKey)
    ensures
        frequency_map(items).contains_key(p) ==> frequency_map(items)[p] > 0,
    decreases items.len(),
{
    if items.len() > 0 {
        lemma_frequency_map_positive(items.drop_last(), p);
    }
}

/// A recorded item gets the newest stamp of its language: while the clock is below its
/// limit, the item scores the new clock value, which is positive, and every other item
/// of the language scores less.
pub proof fn law_recorded_item_is_newest(
    before: CompletionRanker,
    after: CompletionRanker,
    lang: LanguageId,
    label: Seq<char>,
    kind: Option<u32>,
)
    requires
        record_post(before, after, Some(lang), label, kind),
        before.clock() < u64::MAX,
    ensures
        after.clock() > 0,
        score_in(after.language_entries(lang), label, kind) == after.clock(),
        forall|p: RankKey|
            #[trigger] after.language_entries(lang).contains_key(p) && p != (kind, label) ==> after.language_entries(
                lang,
            )[p] < after.clock(),
{
    broadcast use vstd::set::group_set_axioms;

    let key = (kind, label);
    let c = after.clock();
    let old_e = before.language_entries(lang);
    let grown = old_e.insert(key, c);
    let kept = after.language_entries(lang);
    assert(old_e.dom().finite());
    assert(grown.dom().finite());
    assert forall|p: RankKey| #[trigger] grown.contains_key(p) && p != key implies grown[p] < c by {
        assert(old_e.contains_key(p));
    }
    if grown.len() > MAX_ENTRIES_PER_LANGUAGE {
        if !kept.contains_key(key) {
            let p = kept.dom().choose();
            assert(kept.dom().len() != 0);
            assert(kept.contains_key(p));
            assert(p != key);
            assert(grown.contains_key(key));
            assert(kept.submap_of(grown));
            assert(grown.contains_key(p));
            assert(grown[p] < c);
            assert(grown[key] == c);
            assert(rank_before((grown[p], p.0, p.1), (grown[key], key.0, key.1)));
            assert(false);
        }
        assert(kept.submap_of(grown));
        assert(kept.dom().contains(key));
        assert(grown.dom().contains(key));
        assert(kept[key] == grown[key]);
    }
    assert forall|p: RankKey| #[trigger] kept.contains_key(p) && p != key implies kept[p] < c by {
        assert(grown.contains_key(p) && kept[p] == grown[p]);
    }
}

/// Recording an item adds no other: every item of the language afterwards, other than
/// the recorded one, was there before with the same stamp.
pub proof fn law_record_adds_only_that_item(
    before: CompletionRanker,
    after: CompletionRanker,
    lang: LanguageId,
    label: Seq<char>,
    kind: Option<u32>,
)
    requires
        record_post(before, after, Some(lang), label, kind),
    ensures
        forall|p: RankKey|
            #[trigger] after.language_entries(lang).contains_key(p) && p != (kind, label) ==> before.language_entries(
                lang,
            ).contains_key(p) && after.language_entries(lang)[p] == before.language_entries(lang)[p],
{
    let grown = before.language_entries(lang).insert((kind, label), after.clock());
    let kept = after.language_entries(lang);
    assert forall|p: RankKey| #[trigger] kept.contains_key(p) && p != (kind, label) implies before.language_entries(
        lang,
    ).contains_key(p) && kept[p] == before.language_entries(lang)[p] by {
        assert(grown.contains_key(p) && kept[p] == grown[p]);
    }
}

/// Languages are independent: recording in one leaves every score of another unchanged.
pub proof fn law_record_leaves_other_languages(
    before: CompletionRanker,
    after: CompletionRanker,
    lang: LanguageId,
    label: Seq<char>,
    kind: Option<u32>,
    other: LanguageId,
    other_label: Seq<char>,
    other_kind: Option<u32>,
)
    requires
        record_post(before, after, Some(lang), label, kind),
        other != lang,
    ensures
        score_in(after.language_entries(other), other_label, other_kind) == score_in(
            before.language_entries(other),
            other_label,
            other_kind,
        ),
{
    assert(after.language_entries(other) == before.language_entries(other));
}

/// A language never holds more than `MAX_ENTRIES_PER_LANGUAGE` items, and a full language
/// that takes a new item drops exactly one: the one ranked last (the oldest).
pub proof fn law_full_language_drops_oldest(
    before: CompletionRanker,
    after: CompletionRanker,
    lang: LanguageId,
    label: Seq<char>,
    kind: Option<u32>,
)
    requires
        record_post(before, after, Some(lang), label, kind),
        before.language_entries(lang).len() == MAX_ENTRIES_PER_LANGUAGE,
        !before.language_entries(lang).contains_key((kind, label)),
    ensures
        after.language_entries(lang).len() == MAX_ENTRIES_PER_LANGUAGE,
        forall|q: RankKey, p: RankKey|
            #![trigger before.language_entries(lang).contains_key(q), before.language_entries(lang).contains_key(p)]
            before.language_entries(lang).contains_key(q) && !after.language_entries(lang).contains_key(q)
                && before.language_entries(lang).contains_key(p) && p != q ==> rank_before(
                (before.language_entries(lang)[p], p.0, p.1),
                (before.language_entries(lang)[q], q.0, q.1),
            ),
{
    broadcast use vstd::set::group_set_axioms;

    let key = (kind, label);
    let old_e = before.language_entries(lang);
    let grown = old_e.insert(key, after.clock());
    let kept = after.language_entries(lang);
    assert(old_e.dom().finite());
    assert(grown.dom() =~= old_e.dom().insert(key));
    assert(grown.len() == MAX_ENTRIES_PER_LANGUAGE + 1);
    assert forall|q: RankKey, p: RankKey|
        #![trigger old_e.contains_key(q), old_e.contains_key(p)]
        old_e.contains_key(q) && !kept.contains_key(q) && old_e.contains_key(p) && p != q implies rank_before(
            (old_e[p], p.0, p.1),
            (old_e[q], q.0, q.1),
        ) by {
        if !kept.contains_key(p) {
            let rest = grown.dom().remove(q).remove(p);
            assert(kept.dom().subset_of(rest));
            vstd::set_lib::lemma_len_subset(kept.dom(), rest);
            assert(false);
        }
        assert(grown.contains_key(p) && grown.contains_key(q));
        assert(rank_before((grown[p], p.0, p.1), (grown[q], q.0, q.1)));
    }
}

/// The entry `last_nonempty` picks when only one saved entry names the language.
proof fn lemma_last_nonempty_unique(langs: Seq<LanguageRankerEntry>, lang: LanguageId, j: int)
    requires
        0 <= j < langs.len(),
        langs[j].language == lang,
        frequency_map(langs[j].frequency.items@).len() > 0,
        forall|i: int| 0 <= i < langs.len() && i != j ==> (#[trigger] langs[i]).language != lang,
    ensures
        last_nonempty(langs, lang) == Some(j),
    decreases langs.len(),
{
    if j < langs.len() - 1 {
        lemma_last_nonempty_unique(langs.drop_last(), lang, j);
    }
}

/// No saved entry with items for the language: loading gives it none.
proof fn lemma_last_nonempty_none(langs: Seq<LanguageRankerEntry>, lang: LanguageId)
    requires
        forall|i: int|
            0 <= i < langs.len() && (#[trigger] langs[i]).language == lang ==> frequency_map(langs[i].frequency.items@).len()
                == 0,
    ensures
        last_nonempty(langs, lang) is None,
    decreases langs.len(),
{
    if langs.len() > 0 {
        lemma_last_nonempty_none(langs.drop_last(), lang);
    }
}

/// Saving a ranker and loading what was saved gives back every language's items with
/// their stamps.
pub proof fn law_snapshot_roundtrip(r: CompletionRanker, data: CompletionRankerData, loaded: CompletionRanker)
    requires
        r.well_stamped(),
        snapshot_post(r, data),
        from_data_post(data, loaded),
    ensures
        forall|lang: LanguageId| #[trigger] loaded.language_entries(lang) == r.language_entries(lang),
{
    assert forall|lang: LanguageId| #[trigger] loaded.language_entries(lang) == r.language_entries(lang) by {
        let e = r.language_entries(lang);
        assert(e.dom().finite());
        assert forall|p: RankKey| #[trigger] e.contains_key(p) implies e[p] > 0 by {}
        assert forall|i: int| 0 <= i < data.languages@.len() && (#[trigger] data.languages@[i]).language == lang implies frequency_map(
            data.languages@[i].frequency.items@,
        ) == e by {
            lemma_frequency_map_of_described(data.languages@[i].frequency.items@, e);
        }
        if e.len() > 0 {
            let j = choose|j: int| 0 <= j < data.languages@.len() && data.languages@[j].language == lang;
            assert forall|i: int| 0 <= i < data.languages@.len() && i != j implies (
            #[trigger] data.languages@[i]).language != lang by {
                if i < j {
                    assert(language_pos(data.languages@[i].language) < language_pos(data.languages@[j].language));
                } else {
                    assert(language_pos(data.languages@[j].language) < language_pos(data.languages@[i].language));
                }
            }
            lemma_last_nonempty_unique(data.languages@, lang, j);
            assert(last_nonempty(data.languages@, lang) == Some(j));
        } else {
            lemma_last_nonempty_none(data.languages@, lang);
            assert(e =~= Map::<RankKey, u64>::empty()) by {
                assert forall|p: RankKey| !e.contains_key(p) by {
                    if e.contains_key(p) {
                        vstd::set::axiom_set_contains_len(e.dom(), p);
                    }
                }
            }
            assert(last_nonempty(data.languages@, lang) is None);
        }
    }
}

} // verus!
