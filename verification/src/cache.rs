//! The image cache: a bounded map with least-recently-used eviction, and the
//! model that the router reasons about it with.

use vstd::prelude::*;

verus! {

/// `LruCache` of the lru crate: a map that holds a bounded number of entries
/// and drops the least recently used one to make room. Nothing of its inside
/// is known here; what it holds goes by [`cache_entries`].
#[verifier::external_type_specification]
#[verifier::external_body]
#[verifier::reject_recursive_types(K)]
#[verifier::reject_recursive_types(V)]
#[verifier::reject_recursive_types(S)]
pub struct ExLruCache<K, V, S>(lru::LruCache<K, V, S>);

/// The hasher that an `LruCache` uses where none is chosen.
#[verifier::external_type_specification]
#[verifier::external_body]
pub struct ExDefaultHasher(lru::DefaultHasher);

/// The entries of a cache, the most recently used first. A key is the kind of
/// target, its index and the text of the bitmap; a value is offset, width and
/// height of the image and its bytes.
pub uninterp spec fn cache_entries(
    c: lru::LruCache<(u8, u8, String), (u16, u16, u16, Vec<u8>)>,
) -> Seq<((u8, u8, Seq<char>), (u16, u16, u16, Seq<u8>))>;

/// The number of entries that a cache was made to hold.
pub uninterp spec fn cache_capacity(
    c: lru::LruCache<(u8, u8, String), (u16, u16, u16, Vec<u8>)>,
) -> nat;

/// Whether some entry of `e` has the key `k`.
pub open spec fn lru_contains<K, V>(e: Seq<(K, V)>, k: K) -> bool {
    exists|i: int| 0 <= i < e.len() && (#[trigger] e[i]).0 == k
}

/// Where the entry with key `k` stands in `e`.
pub open spec fn lru_position<K, V>(e: Seq<(K, V)>, k: K) -> int {
    choose|i: int| 0 <= i < e.len() && (#[trigger] e[i]).0 == k
}

/// The value that `e` holds for `k`.
pub open spec fn lru_get<K, V>(e: Seq<(K, V)>, k: K) -> Option<V> {
    if lru_contains(e, k) {
        Some(e[lru_position(e, k)].1)
    } else {
        None
    }
}

/// The entries after a lookup of `k`: a hit moves the entry to the front.
pub open spec fn lru_touch<K, V>(e: Seq<(K, V)>, k: K) -> Seq<(K, V)> {
    if lru_contains(e, k) {
        seq![e[lru_position(e, k)]] + e.remove(lru_position(e, k))
    } else {
        e
    }
}

/// The entries after `k` was bound to `v` in a cache that holds `cap`
/// entries: the binding stands in front; an older binding of `k` is gone, and
/// where there was none and the cache was full, its last entry is.
pub open spec fn lru_put<K, V>(e: Seq<(K, V)>, cap: nat, k: K, v: V) -> Seq<(K, V)> {
    if lru_contains(e, k) {
        seq![(k, v)] + e.remove(lru_position(e, k))
    } else if e.len() >= cap {
        seq![(k, v)] + e.drop_last()
    } else {
        seq![(k, v)] + e
    }
}

/// What holds of the entries of every cache: no key twice, and no more
/// entries than the cache was made for.
pub open spec fn lru_wf<K, V>(e: Seq<(K, V)>, cap: nat) -> bool {
    &&& cap > 0
    &&& e.len() <= cap
    &&& forall|i: int, j: int| 0 <= i < j < e.len() ==> (#[trigger] e[i]).0 != (#[trigger] e[j]).0
}

/// A binding that was just made is found, with its value.
pub proof fn lemma_put_then_get<K, V>(e: Seq<(K, V)>, cap: nat, k: K, v: V)
    requires
        lru_wf(e, cap),
    ensures
        lru_wf(lru_put(e, cap, k, v), cap),
        lru_get(lru_put(e, cap, k, v), k) == Some(v),
{
    let p = lru_put(e, cap, k, v);
    assert(p[0] == (k, v));
    assert(lru_contains(p, k));
    lemma_put_others(e, cap, k, v);
    let i = lru_position(p, k);
    if i != 0 {
        assert(p[0].0 != p[i].0);
    }
}

/// How the entries behind the new one relate to the old entries, and that the
/// result is again well-formed.
proof fn lemma_put_others<K, V>(e: Seq<(K, V)>, cap: nat, k: K, v: V)
    requires
        lru_wf(e, cap),
    ensures
        lru_wf(lru_put(e, cap, k, v), cap),
        forall|i: int|
            1 <= i < lru_put(e, cap, k, v).len() ==> (#[trigger] lru_put(e, cap, k, v)[i]).0 != k
                && exists|j: int| 0 <= j < e.len() && #[trigger] e[j] == lru_put(e, cap, k, v)[i],
{
    let p = lru_put(e, cap, k, v);
    if lru_contains(e, k) {
        let at = lru_position(e, k);
        let r = e.remove(at);
        assert forall|i: int| 0 <= i < r.len() implies (#[trigger] r[i]).0 != k && r[i] == e[if i
            < at {
            i
        } else {
            i + 1
        }] by {
            let i2 = if i < at { i } else { i + 1 };
            assert(r[i] == e[i2]);
            if i2 < at {
                assert(e[i2].0 != e[at].0);
            } else {
                assert(e[at].0 != e[i2].0);
            }
        }
        assert forall|i: int| 1 <= i < p.len() implies (#[trigger] p[i]).0 != k && exists|j: int|
            0 <= j < e.len() && #[trigger] e[j] == p[i] by {
            assert(p[i] == r[i - 1]);
            let j = if i - 1 < at { i - 1 } else { i };
            assert(e[j] == p[i]);
        }
        assert forall|i: int, j: int| 0 <= i < j < p.len() implies (#[trigger] p[i]).0 != (
        #[trigger] p[j]).0 by {
            if i == 0 {
                assert(p[0] == (k, v));
                assert(p[j].0 != k);
            } else {
                assert(p[i] == r[i - 1]);
                assert(p[j] == r[j - 1]);
                let i2 = if i - 1 < at { i - 1 } else { i };
                let j2 = if j - 1 < at { j - 1 } else { j };
                assert(r[i - 1] == e[i2]);
                assert(r[j - 1] == e[j2]);
                assert(e[i2].0 != e[j2].0);
            }
        }
    } else {
        let r = if e.len() >= cap { e.drop_last() } else { e };
        assert forall|i: int| 1 <= i < p.len() implies (#[trigger] p[i]).0 != k && exists|j: int|
            0 <= j < e.len() && #[trigger] e[j] == p[i] by {
            assert(p[i] == r[i - 1]);
            assert(r[i - 1] == e[i - 1]);
            assert(e[i - 1].0 != k);
        }
        assert forall|i: int, j: int| 0 <= i < j < p.len() implies (#[trigger] p[i]).0 != (
        #[trigger] p[j]).0 by {
            if i == 0 {
                assert(p[0] == (k, v));
                assert(p[j].0 != k);
            } else {
                assert(p[i] == e[i - 1]);
                assert(p[j] == e[j - 1]);
                assert(e[i - 1].0 != e[j - 1].0);
            }
        }
    }
}

/// Binding one key never makes another key resolve to something new: what a
/// different key gives afterwards is what it gave before, or nothing where
/// its entry had to make room.
pub proof fn lemma_put_keeps_others<K, V>(e: Seq<(K, V)>, cap: nat, k: K, v: V, other: K)
    requires
        lru_wf(e, cap),
        other != k,
    ensures
        lru_get(lru_put(e, cap, k, v), other) matches Some(x) ==> lru_get(e, other) == Some(x),
{
    let p = lru_put(e, cap, k, v);
    lemma_put_others(e, cap, k, v);
    if lru_contains(p, other) {
        let i = lru_position(p, other);
        assert(p[0] == (k, v));
        assert(i != 0);
        let j = choose|j: int| 0 <= j < e.len() && #[trigger] e[j] == p[i];
        assert(e[j].0 == other);
        let q = lru_position(e, other);
        if q < j {
            assert(e[q].0 != e[j].0);
        } else if j < q {
            assert(e[j].0 != e[q].0);
        }
    }
}

/// A lookup changes the order of the entries and nothing else: every key
/// gives afterwards what it gave before.
pub proof fn lemma_touch_keeps_all<K, V>(e: Seq<(K, V)>, cap: nat, k: K, other: K)
    requires
        lru_wf(e, cap),
    ensures
        lru_wf(lru_touch(e, k), cap),
        lru_get(lru_touch(e, k), other) == lru_get(e, other),
{
    if lru_contains(e, k) {
        let at = lru_position(e, k);
        let v = e[at].1;
        assert(e[at] == (k, v));
        assert(lru_touch(e, k) =~= lru_put(e, cap, k, v));
        lemma_put_others(e, cap, k, v);
        lemma_put_then_get(e, cap, k, v);
        let t = lru_touch(e, k);
        if other != k {
            lemma_put_keeps_others(e, cap, k, v, other);
            if lru_contains(e, other) {
                let q = lru_position(e, other);
                let r = e.remove(at);
                let q2 = if q < at { q } else { q - 1 };
                if q < at {
                    assert(e[q].0 != e[at].0);
                } else {
                    assert(q != at);
                }
                assert(r[q2] == e[q]);
                assert(t[q2 + 1] == e[q]);
                assert(lru_contains(t, other));
            }
        }
    }
}

/// `LruCache::new`: an empty cache that holds at most `cap` entries.
#[verifier::external_body]
pub(crate) fn cache_new(cap: usize) -> (c: lru::LruCache<
    (u8, u8, String),
    (u16, u16, u16, Vec<u8>),
>)
    requires
        cap > 0,
    ensures
        cache_entries(c) == Seq::<((u8, u8, Seq<char>), (u16, u16, u16, Seq<u8>))>::empty(),
        cache_capacity(c) == cap,
{
    lru::LruCache::new(std::num::NonZeroUsize::new(cap).unwrap())
}

/// `LruCache::get`, with the value cloned: the value bound to `key` if there
/// is one, and that entry moved to the front.
#[verifier::external_body]
pub(crate) fn cache_get(
    c: &mut lru::LruCache<(u8, u8, String), (u16, u16, u16, Vec<u8>)>,
    key: &(u8, u8, String),
) -> (r: Option<(u16, u16, u16, Vec<u8>)>)
    ensures
        r.is_some() == lru_contains(cache_entries(*old(c)), key@),
        r matches Some(v) ==> lru_get(cache_entries(*old(c)), key@) == Some(v@),
        cache_entries(*final(c)) == lru_touch(cache_entries(*old(c)), key@),
        cache_capacity(*final(c)) == cache_capacity(*old(c)),
{
    c.get(key).cloned()
}

/// `LruCache::put`: binds `key` to `value` at the front; where the key is new
/// and the cache is full, the least recently used entry leaves.
#[verifier::external_body]
pub(crate) fn cache_put(
    c: &mut lru::LruCache<(u8, u8, String), (u16, u16, u16, Vec<u8>)>,
    key: (u8, u8, String),
    value: (u16, u16, u16, Vec<u8>),
)
    ensures
        cache_entries(*final(c)) == lru_put(
            cache_entries(*old(c)),
            cache_capacity(*old(c)),
            key@,
            value@,
        ),
        cache_capacity(*final(c)) == cache_capacity(*old(c)),
{
    c.put(key, value);
}

} // verus!
