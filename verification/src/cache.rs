//! The item store: a bounded least-recently-used map from keys to values,
//! backed by `lru::LruCache`.
//!
//! A cache is modelled by its entries, most recently used first, each a key and
//! its value, together with the capacity it was made with.

use vstd::prelude::*;
use lru::LruCache;
use std::num::NonZeroUsize;

verus! {

/// The entries of a cache, most recently used first.
pub type Entries = Seq<(Seq<char>, Seq<char>)>;

/// `lru::LruCache`, seen only through `lru_entries` and `lru_capacity`.
#[verifier::external_type_specification]
#[verifier::external_body]
#[verifier::reject_recursive_types(K)]
#[verifier::reject_recursive_types(V)]
#[verifier::reject_recursive_types(S)]
pub struct ExLruCache<K, V, S>(LruCache<K, V, S>);

/// The hasher that `lru::LruCache` uses by default.
#[verifier::external_type_specification]
#[verifier::external_body]
pub struct ExLruDefaultHasher(lru::DefaultHasher);

/// What an `LruCache` holds: its entries, most recently used first.
pub uninterp spec fn lru_entries(cache: LruCache<String, String>) -> Seq<(Seq<char>, Seq<char>)>;

/// The capacity that an `LruCache` was made with.
pub uninterp spec fn lru_capacity(cache: LruCache<String, String>) -> nat;

/// Some entry has key `k`.
pub open spec fn has_key(e: Entries, k: Seq<char>) -> bool {
    exists|i: int| 0 <= i < e.len() && (#[trigger] e[i]).0 == k
}

/// The position of the entry with key `k` (meaningful when there is one).
pub open spec fn key_position(e: Entries, k: Seq<char>) -> int {
    choose|i: int| 0 <= i < e.len() && (#[trigger] e[i]).0 == k
}

/// The value stored under `k`, if any.
pub open spec fn lookup(e: Entries, k: Seq<char>) -> Option<Seq<char>> {
    if has_key(e, k) {
        Some(e[key_position(e, k)].1)
    } else {
        None
    }
}

/// No two entries share a key.
pub open spec fn keys_distinct(e: Entries) -> bool {
    forall|i: int, j: int|
        0 <= i < e.len() && 0 <= j < e.len() && i != j ==> (#[trigger] e[i]).0 != (#[trigger] e[j]).0
}

/// The shape every cache keeps: a positive capacity that bounds the number of
/// entries, and distinct keys.
pub open spec fn entries_wf(e: Entries, cap: nat) -> bool {
    &&& cap > 0
    &&& e.len() <= cap
    &&& keys_distinct(e)
}

/// The entries after `put(k, v)`: an entry with key `k` is updated and becomes
/// the most recent; a new key becomes the most recent entry, and when the cache
/// is full the least recently used entry is dropped to make room.
pub open spec fn after_put(e: Entries, cap: nat, k: Seq<char>, v: Seq<char>) -> Entries {
    if has_key(e, k) {
        seq![(k, v)] + e.remove(key_position(e, k))
    } else if e.len() >= cap {
        seq![(k, v)] + e.drop_last()
    } else {
        seq![(k, v)] + e
    }
}

/// The entries after a read of `k`: the entry with key `k`, if any, becomes the
/// most recent; nothing else changes.
pub open spec fn after_touch(e: Entries, k: Seq<char>) -> Entries {
    if has_key(e, k) {
        seq![e[key_position(e, k)]] + e.remove(key_position(e, k))
    } else {
        e
    }
}

/// `LruCache::new`: an empty cache that holds at most `cap` entries. Its table is
/// allocated for `cap` entries at once; `cap` is bounded so that the table's
/// size computation cannot overflow, which would panic. Whether the allocation
/// itself succeeds depends on the machine and is not stated.
#[verifier::external_body]
fn lru_new(cap: usize) -> (c: LruCache<String, String>)
    requires
        0 < cap <= usize::MAX / 128,
    ensures
        lru_entries(c) == Seq::<(Seq<char>, Seq<char>)>::empty(),
        lru_capacity(c) == cap,
{
    LruCache::new(NonZeroUsize::new(cap).unwrap())
}

/// `LruCache::contains`: whether some entry has key `k`; the recency order is
/// left as it is.
#[verifier::external_body]
fn lru_contains(c: &LruCache<String, String>, k: &String) -> (r: bool)
    ensures
        r == has_key(lru_entries(*c), k@),
{
    c.contains(k)
}

/// `LruCache::put`: stores `v` under `k` as the most recent entry, evicting the
/// least recently used entry when `k` is new and the cache is full; returns the
/// value that `k` held before, if any.
#[verifier::external_body]
fn lru_put(c: &mut LruCache<String, String>, k: String, v: String) -> (r: Option<String>)
    requires
        entries_wf(lru_entries(*old(c)), lru_capacity(*old(c))),
    ensures
        lru_capacity(*final(c)) == lru_capacity(*old(c)),
        lru_entries(*final(c)) == after_put(lru_entries(*old(c)), lru_capacity(*old(c)), k@, v@),
        match r {
            Some(o) => lookup(lru_entries(*old(c)), k@) == Some(o@),
            None => !has_key(lru_entries(*old(c)), k@),
        },
{
    c.put(k, v)
}

/// `LruCache::get`: the value stored under `k`, if any (handed out as a copy);
/// a hit makes that entry the most recent.
#[verifier::external_body]
fn lru_get(c: &mut LruCache<String, String>, k: &String) -> (r: Option<String>)
    requires
        entries_wf(lru_entries(*old(c)), lru_capacity(*old(c))),
    ensures
        lru_capacity(*final(c)) == lru_capacity(*old(c)),
        lru_entries(*final(c)) == after_touch(lru_entries(*old(c)), k@),
        match r {
            Some(v) => lookup(lru_entries(*old(c)), k@) == Some(v@),
            None => !has_key(lru_entries(*old(c)), k@),
        },
{
    c.get(k).cloned()
}

/// With distinct keys, the entry with key `k` is at `key_position` and nowhere else.
pub proof fn lemma_position_unique(e: Entries, k: Seq<char>, i: int)
    requires
        keys_distinct(e),
        0 <= i < e.len(),
        e[i].0 == k,
    ensures
        has_key(e, k),
        key_position(e, k) == i,
        lookup(e, k) == Some(e[i].1),
{
    assert(has_key(e, k));
}

/// A put keeps the shape of the cache.
pub proof fn law_put_keeps_shape(e: Entries, cap: nat, k: Seq<char>, v: Seq<char>)
    requires
        entries_wf(e, cap),
    ensures
        entries_wf(after_put(e, cap, k, v), cap),
{
    let r = after_put(e, cap, k, v);
    if has_key(e, k) {
        let p = key_position(e, k);
        let rest = e.remove(p);
        assert forall|i: int, j: int|
            0 <= i < r.len() && 0 <= j < r.len() && i != j implies (#[trigger] r[i]).0 != (#[trigger] r[j]).0 by {
            if i == 0 {
                assert(r[j] == rest[j - 1]);
                if j - 1 < p { assert(rest[j - 1] == e[j - 1]); } else { assert(rest[j - 1] == e[j]); }
            } else if j == 0 {
                assert(r[i] == rest[i - 1]);
                if i - 1 < p { assert(rest[i - 1] == e[i - 1]); } else { assert(rest[i - 1] == e[i]); }
            } else {
                assert(r[i] == rest[i - 1] && r[j] == rest[j - 1]);
                let ei = if i - 1 < p { i - 1 } else { i };
                let ej = if j - 1 < p { j - 1 } else { j };
                assert(rest[i - 1] == e[ei]);
                assert(rest[j - 1] == e[ej]);
            }
        }
    } else {
        let rest = if e.len() >= cap { e.drop_last() } else { e };
        assert(r == seq![(k, v)] + rest);
        assert forall|i: int, j: int|
            0 <= i < r.len() && 0 <= j < r.len() && i != j implies (#[trigger] r[i]).0 != (#[trigger] r[j]).0 by {
            if i == 0 {
                assert(r[j] == rest[j - 1]);
                assert(rest[j - 1] == e[j - 1]);
            } else if j == 0 {
                assert(r[i] == rest[i - 1]);
                assert(rest[i - 1] == e[i - 1]);
            } else {
                assert(r[i] == e[i - 1] && r[j] == e[j - 1]);
            }
        }
    }
}

/// A read keeps the shape of the cache.
pub proof fn law_read_keeps_shape(e: Entries, cap: nat, k: Seq<char>)
    requires
        entries_wf(e, cap),
    ensures
        entries_wf(after_touch(e, k), cap),
        after_touch(e, k).len() == e.len(),
{
    if has_key(e, k) {
        let p = key_position(e, k);
        let v = e[p].1;
        assert(e[p].0 == k);
        law_put_keeps_shape(e, cap, k, v);
        assert(after_touch(e, k) == after_put(e, cap, k, v));
    }
}

/// Removing the entry at `p` changes no lookup of another key.
pub proof fn lemma_lookup_remove(e: Entries, p: int, x: Seq<char>)
    requires
        keys_distinct(e),
        0 <= p < e.len(),
        x != e[p].0,
    ensures
        keys_distinct(e.remove(p)),
        lookup(e.remove(p), x) == lookup(e, x),
{
    let r = e.remove(p);
    assert forall|i: int, j: int|
        0 <= i < r.len() && 0 <= j < r.len() && i != j implies (#[trigger] r[i]).0 != (#[trigger] r[j]).0 by {
        let ei = if i < p { i } else { i + 1 };
        let ej = if j < p { j } else { j + 1 };
        assert(r[i] == e[ei]);
        assert(r[j] == e[ej]);
    }
    if has_key(e, x) {
        let i = key_position(e, x);
        let ri = if i < p { i } else { i - 1 };
        assert(r[ri] == e[i]);
        lemma_position_unique(r, x, ri);
    } else {
        if has_key(r, x) {
            let j = key_position(r, x);
            let ej = if j < p { j } else { j + 1 };
            assert(r[j] == e[ej]);
        }
    }
}

/// Putting an entry in front changes no lookup of another key.
pub proof fn lemma_lookup_prepend(e: Entries, k: Seq<char>, v: Seq<char>, x: Seq<char>)
    requires
        keys_distinct(seq![(k, v)] + e),
        x != k,
    ensures
        keys_distinct(e),
        lookup(seq![(k, v)] + e, x) == lookup(e, x),
{
    let r = seq![(k, v)] + e;
    assert forall|i: int, j: int|
        0 <= i < e.len() && 0 <= j < e.len() && i != j implies (#[trigger] e[i]).0 != (#[trigger] e[j]).0 by {
        assert(r[i + 1] == e[i] && r[j + 1] == e[j]);
    }
    if has_key(e, x) {
        let i = key_position(e, x);
        assert(r[i + 1] == e[i]);
        lemma_position_unique(r, x, i + 1);
    } else {
        if has_key(r, x) {
            let j = key_position(r, x);
            assert(j != 0);
            assert(r[j] == e[j - 1]);
        }
    }
}

/// After `put(k, v)`, `k` holds `v`; every other key holds what it held before,
/// except that a new key put into a full cache evicts the least recently used
/// entry, the last one.
pub proof fn law_put_lookup(e: Entries, cap: nat, k: Seq<char>, v: Seq<char>, x: Seq<char>)
    requires
        entries_wf(e, cap),
    ensures
        lookup(after_put(e, cap, k, v), k) == Some(v),
        x != k && (has_key(e, k) || e.len() < cap || x != e.last().0) ==> lookup(
            after_put(e, cap, k, v),
            x,
        ) == lookup(e, x),
        !has_key(e, k) && e.len() >= cap ==> e.last().0 != k && lookup(
            after_put(e, cap, k, v),
            e.last().0,
        ) is None,
{
    let r = after_put(e, cap, k, v);
    law_put_keeps_shape(e, cap, k, v);
    assert(r[0] == (k, v));
    lemma_position_unique(r, k, 0);
    if has_key(e, k) {
        let p = key_position(e, k);
        if x != k {
            lemma_lookup_remove(e, p, x);
            assert(r == seq![(k, v)] + e.remove(p));
            lemma_lookup_prepend(e.remove(p), k, v, x);
        }
    } else if e.len() >= cap {
        let last = e.len() - 1;
        assert(e.drop_last() == e.remove(last));
        assert(r == seq![(k, v)] + e.remove(last));
        assert(e[last].0 != k);
        if x != k {
            lemma_lookup_prepend(e.remove(last), k, v, x);
            if x != e.last().0 {
                lemma_lookup_remove(e, last, x);
            }
        }
        lemma_lookup_prepend(e.remove(last), k, v, e.last().0);
        if has_key(e.remove(last), e[last].0) {
            let j = key_position(e.remove(last), e[last].0);
            assert(e.remove(last)[j] == e[j]);
        }
    } else {
        if x != k {
            assert(r == seq![(k, v)] + e);
            lemma_lookup_prepend(e, k, v, x);
        }
    }
}

/// A read changes no lookup: it only moves the entry read to the front.
pub proof fn law_read_keeps_items(e: Entries, cap: nat, k: Seq<char>, x: Seq<char>)
    requires
        entries_wf(e, cap),
    ensures
        lookup(after_touch(e, k), x) == lookup(e, x),
{
    if has_key(e, k) {
        let p = key_position(e, k);
        let v = e[p].1;
        assert(e[p].0 == k);
        lemma_position_unique(e, k, p);
        assert(after_touch(e, k) == after_put(e, cap, k, v));
        law_put_lookup(e, cap, k, v, x);
    }
}

/// A bounded least-recently-used cache of string items, keyed by strings.
pub struct ItemCache {
    inner: LruCache<String, String>,
}

impl View for ItemCache {
    type V = Seq<(Seq<char>, Seq<char>)>;

    closed spec fn view(&self) -> Seq<(Seq<char>, Seq<char>)> {
        lru_entries(self.inner)
    }
}

/// The capacity of the cache that the service keeps its items and keys in.
pub const CACHE_CAPACITY: usize = 10000;

impl ItemCache {
    /// Every cache keeps a positive capacity, at most that many entries and
    /// distinct keys.
    pub open spec fn wf(&self) -> bool {
        entries_wf(self@, self.capacity())
    }

    /// The number of entries the cache holds at most.
    pub closed spec fn capacity(&self) -> nat {
        lru_capacity(self.inner)
    }

    /// An empty cache of `cap` entries at most (room for them is set aside at once).
    pub fn with_capacity(cap: usize) -> (c: ItemCache)
        requires
            0 < cap <= usize::MAX / 128,
        ensures
            c.wf(),
            c@ == Seq::<(Seq<char>, Seq<char>)>::empty(),
            c.capacity() == cap,
    {
        ItemCache { inner: lru_new(cap) }
    }

    /// The empty cache that the service starts with.
    pub fn new() -> (c: ItemCache)
        ensures
            c.wf(),
            c@ == Seq::<(Seq<char>, Seq<char>)>::empty(),
            c.capacity() == CACHE_CAPACITY,
    {
        Self::with_capacity(CACHE_CAPACITY)
    }

    /// Whether some entry has key `key`; the recency order is left as it is.
    pub fn contains(&self, key: &String) -> (r: bool)
        ensures
            r == has_key(self@, key@),
    {
        lru_contains(&self.inner, key)
    }

    /// Stores `value` under `key` as the most recent entry (see `after_put`) and
    /// returns the value `key` held before, if any.
    pub fn put(&mut self, key: String, value: String) -> (r: Option<String>)
        requires
            old(self).wf(),
        ensures
            final(self).capacity() == old(self).capacity(),
            final(self)@ == after_put(old(self)@, old(self).capacity(), key@, value@),
            final(self).wf(),
            match r {
                Some(o) => lookup(old(self)@, key@) == Some(o@),
                None => !has_key(old(self)@, key@),
            },
    {
        proof {
            law_put_keeps_shape(lru_entries(self.inner), lru_capacity(self.inner), key@, value@);
        }
        lru_put(&mut self.inner, key, value)
    }

    /// The value stored under `key`, if any; a hit makes that entry the most
    /// recent (see `after_touch`).
    pub fn get(&mut self, key: &String) -> (r: Option<String>)
        requires
            old(self).wf(),
        ensures
            final(self).capacity() == old(self).capacity(),
            final(self)@ == after_touch(old(self)@, key@),
            final(self).wf(),
            match r {
                Some(v) => lookup(old(self)@, key@) == Some(v@),
                None => lookup(old(self)@, key@) is None,
            },
    {
        proof {
            law_read_keeps_shape(lru_entries(self.inner), lru_capacity(self.inner), key@);
        }
        lru_get(&mut self.inner, key)
    }
}

} // verus!
