//! The bounded in-memory item cache, kept in recency order: the entry touched
//! longest ago (by `get` or `put`) is the one evicted when room is needed.
use vstd::prelude::*;

use lru::LruCache;
use std::collections::hash_map::RandomState;

use crate::types::HnItem;

verus! {

#[verifier::external_type_specification]
#[verifier::external_body]
#[verifier::reject_recursive_types(K)]
#[verifier::reject_recursive_types(V)]
#[verifier::reject_recursive_types(S)]
pub struct ExLruCache<K, V, S>(LruCache<K, V, S>);

/// The entries of an `lru::LruCache`, least recently used first.
pub uninterp spec fn lru_entries(c: LruCache<u64, HnItem, RandomState>) -> Seq<(u64, HnItem)>;

/// The capacity an `lru::LruCache` was made with.
pub uninterp spec fn lru_capacity(c: LruCache<u64, HnItem, RandomState>) -> nat;

/// Whether `id` is the key of some entry.
pub open spec fn has_key(s: Seq<(u64, HnItem)>, id: u64) -> bool {
    exists|i: int| 0 <= i < s.len() && (#[trigger] s[i]).0 == id
}

pub open spec fn keys_unique(s: Seq<(u64, HnItem)>) -> bool {
    forall|i: int, j: int| 0 <= i < s.len() && 0 <= j < s.len() && i != j ==> (#[trigger] s[i]).0 != (#[trigger] s[j]).0
}

/// Position of the entry with key `id`.
pub open spec fn key_index(s: Seq<(u64, HnItem)>, id: u64) -> int {
    choose|i: int| 0 <= i < s.len() && (#[trigger] s[i]).0 == id
}

/// The entries after `get(id)`: a present entry moves to the most recent end.
pub open spec fn touched(s: Seq<(u64, HnItem)>, id: u64) -> Seq<(u64, HnItem)> {
    if has_key(s, id) {
        s.remove(key_index(s, id)).push(s[key_index(s, id)])
    } else {
        s
    }
}

/// The entries after `put(id, item)` on a cache of capacity `cap`: a present
/// key takes the new value and becomes most recent; otherwise, when full, the
/// least recent entry leaves before the new one is added.
pub open spec fn put_entries(s: Seq<(u64, HnItem)>, cap: nat, id: u64, item: HnItem) -> Seq<(u64, HnItem)> {
    if has_key(s, id) {
        s.remove(key_index(s, id)).push((id, item))
    } else if s.len() >= cap {
        s.drop_first().push((id, item))
    } else {
        s.push((id, item))
    }
}

/// Relies on `lru::LruCache::with_hasher`: an empty cache that holds at most `cap`
/// entries.
#[verifier::external_body]
fn lru_new(cap: usize) -> (r: LruCache<u64, HnItem, RandomState>)
    requires
        cap > 0,
    ensures
        lru_entries(r) == Seq::<(u64, HnItem)>::empty(),
        lru_capacity(r) == cap,
{
    LruCache::with_hasher(std::num::NonZeroUsize::new(cap).unwrap(), RandomState::new())
}

/// Relies on `lru::LruCache::get`: the value of a present key, which becomes
/// the most recently used entry; an absent key changes nothing.
#[verifier::external_body]
fn lru_get(c: &mut LruCache<u64, HnItem, RandomState>, id: u64) -> (r: Option<HnItem>)
    ensures
        lru_capacity(*final(c)) == lru_capacity(*old(c)),
        lru_entries(*final(c)) == touched(lru_entries(*old(c)), id),
        has_key(lru_entries(*old(c)), id) ==> r == Some(
            lru_entries(*old(c))[key_index(lru_entries(*old(c)), id)].1,
        ),
        !has_key(lru_entries(*old(c)), id) ==> r is None,
{
    c.get(&id).cloned()
}

/// Relies on `lru::LruCache::put`: stores the entry as the most recently
/// used one, evicting the least recently used entry when the cache is full
/// and the key is new.
#[verifier::external_body]
fn lru_put(c: &mut LruCache<u64, HnItem, RandomState>, id: u64, item: HnItem)
    ensures
        lru_capacity(*final(c)) == lru_capacity(*old(c)),
        lru_entries(*final(c)) == put_entries(lru_entries(*old(c)), lru_capacity(*old(c)), id, item),
{
    c.put(id, item);
}

/// Recency-ordered map from item id to item, with a fixed capacity.
pub struct ItemCache {
    cache: LruCache<u64, HnItem, RandomState>,
}

impl ItemCache {
    pub closed spec fn entries(&self) -> Seq<(u64, HnItem)> {
        lru_entries(self.cache)
    }

    pub closed spec fn capacity(&self) -> nat {
        lru_capacity(self.cache)
    }

    pub open spec fn wf(&self) -> bool {
        &&& self.capacity() > 0
        &&& self.entries().len() <= self.capacity()
        &&& keys_unique(self.entries())
    }

    /// An empty cache holding at most `capacity` items.
    pub fn new(capacity: usize) -> (r: ItemCache)
        requires
            capacity > 0,
        ensures
            r.wf(),
            r.entries() == Seq::<(u64, HnItem)>::empty(),
            r.capacity() == capacity,
    {
        ItemCache { cache: lru_new(capacity) }
    }

    /// The cached item for `id`, which becomes the most recently used entry.
    pub fn get(&mut self, id: u64) -> (r: Option<HnItem>)
        requires
            old(self).wf(),
        ensures
            final(self).wf(),
            final(self).capacity() == old(self).capacity(),
            final(self).entries() == touched(old(self).entries(), id),
            has_key(old(self).entries(), id) ==> r == Some(
                old(self).entries()[key_index(old(self).entries(), id)].1,
            ),
            !has_key(old(self).entries(), id) ==> r is None,
    {
        let r = lru_get(&mut self.cache, id);
        proof {
            lemma_touched_wf(old(self).entries(), id);
        }
        r
    }

    /// Stores `item` under `id` as the most recently used entry, evicting
    /// the least recently used one when full.
    pub fn put(&mut self, id: u64, item: HnItem)
        requires
            old(self).wf(),
        ensures
            final(self).wf(),
            final(self).capacity() == old(self).capacity(),
            final(self).entries() == put_entries(old(self).entries(), old(self).capacity(), id, item),
    {
        lru_put(&mut self.cache, id, item);
        proof {
            lemma_put_wf(old(self).entries(), old(self).capacity(), id, item);
        }
    }
}

proof fn lemma_touched_wf(s: Seq<(u64, HnItem)>, id: u64)
    requires
        keys_unique(s),
    ensures
        keys_unique(touched(s, id)),
        touched(s, id).len() == s.len(),
{
    if has_key(s, id) {
        let k = key_index(s, id);
        let t = s.remove(k).push(s[k]);
        assert forall|i: int, j: int| 0 <= i < t.len() && 0 <= j < t.len() && i != j implies (
        #[trigger] t[i]).0 != (#[trigger] t[j]).0 by {
            let si = if i == t.len() - 1 { k } else if i < k { i } else { i + 1 };
            let sj = if j == t.len() - 1 { k } else if j < k { j } else { j + 1 };
            assert(t[i] == s[si]);
            assert(t[j] == s[sj]);
        }
    }
}

proof fn lemma_put_wf(s: Seq<(u64, HnItem)>, cap: nat, id: u64, item: HnItem)
    requires
        keys_unique(s),
        cap > 0,
        s.len() <= cap,
    ensures
        keys_unique(put_entries(s, cap, id, item)),
        put_entries(s, cap, id, item).len() <= cap,
{
    let t = put_entries(s, cap, id, item);
    if has_key(s, id) {
        let k = key_index(s, id);
        assert forall|i: int, j: int| 0 <= i < t.len() && 0 <= j < t.len() && i != j implies (
        #[trigger] t[i]).0 != (#[trigger] t[j]).0 by {
            let si = if i == t.len() - 1 { k } else if i < k { i } else { i + 1 };
            let sj = if j == t.len() - 1 { k } else if j < k { j } else { j + 1 };
            assert(t[i].0 == s[si].0);
            assert(t[j].0 == s[sj].0);
        }
    } else if s.len() >= cap {
        assert forall|i: int, j: int| 0 <= i < t.len() && 0 <= j < t.len() && i != j implies (
        #[trigger] t[i]).0 != (#[trigger] t[j]).0 by {
            if i < t.len() - 1 {
                assert(t[i] == s[i + 1]);
            }
            if j < t.len() - 1 {
                assert(t[j] == s[j + 1]);
            }
        }
    } else {
        assert forall|i: int, j: int| 0 <= i < t.len() && 0 <= j < t.len() && i != j implies (
        #[trigger] t[i]).0 != (#[trigger] t[j]).0 by {
            if i < t.len() - 1 {
                assert(t[i] == s[i]);
            }
            if j < t.len() - 1 {
                assert(t[j] == s[j]);
            }
        }
    }
}

/// When a full cache takes a new key, the entry touched longest ago is the
/// one evicted, every other entry stays, and the new key is the most recent.
pub proof fn lemma_put_evicts_least_recent(s: Seq<(u64, HnItem)>, cap: nat, id: u64, item: HnItem)
    requires
        keys_unique(s),
        cap > 0,
        s.len() == cap,
        !has_key(s, id),
    ensures
        !has_key(put_entries(s, cap, id, item), s[0].0),
        forall|i: int| 1 <= i < s.len() ==> has_key(put_entries(s, cap, id, item), #[trigger] s[i].0),
        put_entries(s, cap, id, item).last() == (id, item),
        put_entries(s, cap, id, item).len() == cap,
{
    let t = put_entries(s, cap, id, item);
    assert(t == s.drop_first().push((id, item)));
    if has_key(t, s[0].0) {
        let j = choose|j: int| 0 <= j < t.len() && (#[trigger] t[j]).0 == s[0].0;
        if j < t.len() - 1 {
            assert(t[j] == s[j + 1]);
        } else {
            assert(t[j].0 == id);
            assert(has_key(s, id));
        }
    }
    assert forall|i: int| 1 <= i < s.len() implies has_key(t, #[trigger] s[i].0) by {
        assert(t[i - 1] == s[i]);
    }
}

/// A `get` makes its key the most recent entry, so it is not the next to be
/// evicted while another entry remains.
pub proof fn lemma_get_protects_from_eviction(s: Seq<(u64, HnItem)>, id: u64)
    requires
        keys_unique(s),
        has_key(s, id),
        s.len() > 1,
    ensures
        touched(s, id).last().0 == id,
        touched(s, id)[0].0 != id,
{
    let k = key_index(s, id);
    let t = touched(s, id);
    assert(t == s.remove(k).push(s[k]));
    if k == 0 {
        assert(t[0] == s[1]);
    } else {
        assert(t[0] == s[0]);
    }
}

} // verus!
