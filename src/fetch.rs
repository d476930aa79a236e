//! The fetch client's decisions: request coalescing, batch reassembly,
//! URL building, the top-id cache, and the steps of comment-tree building.
use vstd::prelude::*;

use std::collections::HashMap;

use crate::disk_cache::{age_spec, age_secs, decimal, freshness_spec, push_decimal, DiskCachePolicy, Freshness};
use crate::text::{chars_of, string_of};
use crate::tree::{forest_view, lemma_forest_view_index, node_view, NodeView};
use crate::types::{
    comment_from_item_spec, story_result, Comment, CommentNode, HnItem, ItemError, Story, StoryView,
};

verus! {

broadcast use vstd::std_specs::hash::group_hash_axioms;

/// The part a caller plays for an id being fetched.
#[derive(Debug, Clone, Copy, PartialEq, Eq)]
pub enum Role {
    /// First caller: performs the network fetch and publishes the result.
    Leader,
    /// Later caller: waits for the leader's result.
    Follower,
}

/// Ids with a network fetch in flight, each with its number of waiting
/// followers.
pub struct InFlightRegistry {
    waiting: HashMap<u64, u64>,
}

pub open spec fn join_spec(m: Map<u64, u64>, id: u64) -> (Map<u64, u64>, Role) {
    if m.contains_key(id) {
        (m.insert(id, if m[id] == u64::MAX { m[id] } else { (m[id] + 1) as u64 }), Role::Follower)
    } else {
        (m.insert(id, 0), Role::Leader)
    }
}

/// Roles handed out to `n` callers asking for `id` in turn, and the
/// registry afterwards.
pub open spec fn join_many(m: Map<u64, u64>, id: u64, n: nat) -> (Map<u64, u64>, Seq<Role>)
    decreases n,
{
    if n == 0 {
        (m, Seq::empty())
    } else {
        let (m1, roles) = join_many(m, id, (n - 1) as nat);
        let (m2, r) = join_spec(m1, id);
        (m2, roles.push(r))
    }
}

impl InFlightRegistry {
    pub closed spec fn view(&self) -> Map<u64, u64> {
        self.waiting@
    }

    pub fn new() -> (r: InFlightRegistry)
        ensures
            r.view() == Map::<u64, u64>::empty(),
    {
        InFlightRegistry { waiting: HashMap::new() }
    }

    /// Registers a caller for `id`: the first becomes the leader, later ones
    /// followers of the same fetch.
    pub fn join(&mut self, id: u64) -> (r: Role)
        ensures
            (final(self).view(), r) == join_spec(old(self).view(), id),
    {
        match self.waiting.get(&id) {
            Some(n) => {
                let n = *n;
                self.waiting.insert(id, if n == u64::MAX { n } else { n + 1 });
                Role::Follower
            },
            None => {
                self.waiting.insert(id, 0);
                Role::Leader
            },
        }
    }

    /// Deregisters `id` once its fetch ends, successfully or not, and returns
    /// how many followers await the published result.
    pub fn finish(&mut self, id: u64) -> (r: u64)
        ensures
            final(self).view() == old(self).view().remove(id),
            r == (if old(self).view().contains_key(id) {
                old(self).view()[id]
            } else {
                0
            }),
    {
        match self.waiting.remove(&id) {
            Some(n) => n,
            None => 0,
        }
    }

    pub fn is_in_flight(&self, id: u64) -> (r: bool)
        ensures
            r == self.view().contains_key(id),
    {
        self.waiting.contains_key(&id)
    }
}

/// Of `n` callers that ask for an id with no fetch in flight, exactly the
/// first leads (one network fetch) and the other `n - 1` wait for its result.
pub proof fn lemma_single_leader(m: Map<u64, u64>, id: u64, n: nat)
    requires
        !m.contains_key(id),
        n < u64::MAX,
    ensures
        join_many(m, id, n).1.len() == n,
        n > 0 ==> join_many(m, id, n).1[0] == Role::Leader,
        forall|i: int| 1 <= i < n ==> join_many(m, id, n).1[i] == Role::Follower,
        n > 0 ==> join_many(m, id, n).0.contains_key(id) && join_many(m, id, n).0[id] == n - 1,
    decreases n,
{
    if n > 0 {
        lemma_single_leader(m, id, (n - 1) as nat);
        let (m1, roles) = join_many(m, id, (n - 1) as nat);
        if n == 1 {
            assert(m1 == m);
        } else {
            assert(m1.contains_key(id));
        }
        let all = join_many(m, id, n).1;
        assert forall|i: int| 1 <= i < n implies all[i] == Role::Follower by {
            if i < n - 1 {
                assert(all[i] == roles[i]);
            }
        }
    }
}

pub open spec fn index_covered<T>(s: Seq<(usize, T)>, k: int) -> bool {
    exists|j: int| 0 <= j < s.len() && (#[trigger] s[j]).0 == k
}

/// Reassembles results that arrived in any order into the order of the
/// request: `results[j] == (k, x)` puts `x` at position `k`.
pub fn reorder_by_index<T>(results: Vec<(usize, T)>, n: usize) -> (r: Vec<T>)
    requires
        results@.len() == n,
        forall|j: int| 0 <= j < n ==> (#[trigger] results@[j]).0 < n,
        forall|j: int, k: int|
            0 <= j < n && 0 <= k < n && j != k ==> (#[trigger] results@[j]).0 != (#[trigger] results@[k]).0,
        forall|k: int| 0 <= k < n ==> #[trigger] index_covered(results@, k),
    ensures
        r@.len() == n,
        forall|j: int| 0 <= j < n ==> r@[(#[trigger] results@[j]).0 as int] == results@[j].1,
{
    let ghost res0 = results@;
    let mut slots: Vec<Option<T>> = Vec::new();
    let mut k: usize = 0;
    while k < n
        invariant
            k <= n,
            slots@.len() == k,
            forall|i: int| 0 <= i < k ==> slots@[i] is None,
        decreases n - k,
    {
        slots.push(None);
        k = k + 1;
    }
    let mut pending = results;
    while pending.len() > 0
        invariant
            slots@.len() == n,
            res0 == results@,
            res0.len() == n,
            pending@.len() <= n,
            pending@ == res0.subrange(0, pending@.len() as int),
            forall|j: int| 0 <= j < n ==> (#[trigger] res0[j]).0 < n,
            forall|j: int, k: int|
                0 <= j < n && 0 <= k < n && j != k ==> (#[trigger] res0[j]).0 != (#[trigger] res0[k]).0,
            forall|j: int|
                pending@.len() <= j < n ==> slots@[(#[trigger] res0[j]).0 as int] == Some(res0[j].1),
            forall|i: int|
                0 <= i < n && (#[trigger] slots@[i] is Some) ==> exists|j: int|
                    pending@.len() <= j < n && (#[trigger] res0[j]).0 == i,
        decreases pending@.len(),
    {
        let ghost len0 = pending@.len();
        let ghost before = pending@;
        let (idx, item) = pending.pop().unwrap();
        proof {
            assert(before[len0 - 1] == res0[len0 - 1]);
            assert(res0[len0 - 1] == (idx, item));
            assert(pending@ =~= res0.subrange(0, pending@.len() as int));
        }
        slots.set(idx, Some(item));
        proof {
            assert forall|i: int| 0 <= i < n && (#[trigger] slots@[i] is Some) implies exists|j: int|
                pending@.len() <= j < n && (#[trigger] res0[j]).0 == i by {
                if i == idx as int {
                    assert(res0[len0 - 1].0 == i);
                }
            }
        }
    }
    assert forall|i: int| 0 <= i < n implies (#[trigger] slots@[i]) is Some by {
        assert(index_covered(res0, i));
        let j = choose|j: int| 0 <= j < n && (#[trigger] res0[j]).0 == i;
        assert(slots@[res0[j].0 as int] == Some(res0[j].1));
    }
    let mut rev: Vec<T> = Vec::new();
    while slots.len() > 0
        invariant
            slots@.len() + rev@.len() == n,
            res0 == results@,
            res0.len() == n,
            forall|i: int| 0 <= i < slots@.len() ==> (#[trigger] slots@[i]) is Some,
            forall|j: int|
                0 <= j < n && (res0[j].0 as int) < slots@.len() ==> slots@[(#[trigger] res0[j]).0 as int]
                    == Some(res0[j].1),
            forall|j: int|
                0 <= j < n && (res0[j].0 as int) >= slots@.len() ==> rev@[n - 1 - (#[trigger] res0[j]).0]
                    == res0[j].1,
            forall|j: int| 0 <= j < n ==> (#[trigger] res0[j]).0 < n,
        decreases slots@.len(),
    {
        let s = slots.pop().unwrap();
        match s {
            Some(x) => {
                rev.push(x);
            },
            None => {},
        }
    }
    let mut out: Vec<T> = Vec::new();
    while rev.len() > 0
        invariant
            rev@.len() + out@.len() == n,
            res0 == results@,
            res0.len() == n,
            forall|j: int|
                0 <= j < n && (res0[j].0 as int) < out@.len() ==> out@[(#[trigger] res0[j]).0 as int]
                    == res0[j].1,
            forall|j: int|
                0 <= j < n && (res0[j].0 as int) >= out@.len() ==> rev@[n - 1 - (#[trigger] res0[j]).0]
                    == res0[j].1,
            forall|j: int| 0 <= j < n ==> (#[trigger] res0[j]).0 < n,
        decreases rev@.len(),
    {
        let x = rev.pop().unwrap();
        out.push(x);
    }
    out
}

/// Base URL without trailing slashes.
pub open spec fn trim_slashes(s: Seq<char>) -> Seq<char>
    decreases s.len(),
{
    if s.len() > 0 && s.last() == '/' {
        trim_slashes(s.drop_last())
    } else {
        s
    }
}

pub fn normalize_base_url(base: &str) -> (r: String)
    ensures
        r@ == trim_slashes(base@),
{
    let mut chars = chars_of(base);
    while chars.len() > 0 && chars[chars.len() - 1] == '/'
        invariant
            trim_slashes(chars@) == trim_slashes(base@),
        decreases chars@.len(),
    {
        chars.pop();
    }
    string_of(&chars)
}

pub open spec fn top_stories_path() -> Seq<char> {
    seq!['/', 't', 'o', 'p', 's', 't', 'o', 'r', 'i', 'e', 's', '.', 'j', 's', 'o', 'n']
}

/// `{base}/topstories.json`.
pub fn top_stories_url(base: &str) -> (r: String)
    ensures
        r@ == base@ + top_stories_path(),
{
    let mut out = chars_of(base);
    let path = vec!['/', 't', 'o', 'p', 's', 't', 'o', 'r', 'i', 'e', 's', '.', 'j', 's', 'o', 'n'];
    let mut i: usize = 0;
    while i < path.len()
        invariant
            path@ == top_stories_path(),
            i <= path@.len(),
            out@ == base@ + path@.subrange(0, i as int),
        decreases path@.len() - i,
    {
        out.push(path[i]);
        assert(base@ + path@.subrange(0, i as int) + seq![path@[i as int]] =~= base@ + path@.subrange(0, i + 1));
        i = i + 1;
    }
    assert(path@.subrange(0, path@.len() as int) =~= path@);
    string_of(&out)
}

/// `{base}/item/{id}.json`.
pub fn item_url(base: &str, id: u64) -> (r: String)
    ensures
        r@ == base@ + seq!['/', 'i', 't', 'e', 'm', '/'] + decimal(id as nat) + seq![
            '.',
            'j',
            's',
            'o',
            'n',
        ],
{
    let mut out = chars_of(base);
    out.push('/');
    out.push('i');
    out.push('t');
    out.push('e');
    out.push('m');
    out.push('/');
    push_decimal(id as u128, &mut out);
    out.push('.');
    out.push('j');
    out.push('s');
    out.push('o');
    out.push('n');
    assert(out@ =~= base@ + seq!['/', 'i', 't', 'e', 'm', '/'] + decimal(id as nat) + seq![
        '.',
        'j',
        's',
        'o',
        'n',
    ]);
    string_of(&out)
}

/// The top-level id list, cached for a short time.
pub struct TopIdsCache {
    ttl_secs: u64,
    entry: Option<(i64, Vec<u64>)>,
}

impl TopIdsCache {
    pub closed spec fn ttl(&self) -> u64 {
        self.ttl_secs
    }

    pub closed spec fn stored(&self) -> Option<(i64, Seq<u64>)> {
        match self.entry {
            Some(e) => Some((e.0, e.1@)),
            None => None,
        }
    }

    pub fn new(ttl_secs: u64) -> (r: TopIdsCache)
        ensures
            r.ttl() == ttl_secs,
            r.stored() is None,
    {
        TopIdsCache { ttl_secs, entry: None }
    }

    /// The cached list when it was stored no more than `ttl_secs` ago.
    pub fn get(&self, now: i64) -> (r: Option<Vec<u64>>)
        ensures
            match self.stored() {
                Some((at, ids)) => if age_spec(at, now) <= self.ttl() {
                    r matches Some(v) && v@ == ids
                } else {
                    r is None
                },
                None => r is None,
            },
    {
        match &self.entry {
            Some((at, ids)) => {
                if age_secs(*at, now) <= self.ttl_secs {
                    let v = ids.clone();
                    assert(v@ =~= ids@);
                    Some(v)
                } else {
                    None
                }
            },
            None => None,
        }
    }

    /// Records a freshly fetched list.
    pub fn store(&mut self, now: i64, ids: Vec<u64>)
        ensures
            final(self).ttl() == old(self).ttl(),
            final(self).stored() == Some((now, ids@)),
    {
        self.entry = Some((now, ids));
    }
}

pub open spec fn story_views(s: Seq<Story>) -> Seq<StoryView> {
    s.map_values(|x: Story| x@)
}

/// Index of the first item that is not a valid story, if any.
pub open spec fn first_bad_story(items: Seq<HnItem>, i: int) -> bool {
    0 <= i < items.len() && story_result(items[i]) is Err && forall|j: int|
        0 <= j < i ==> story_result(#[trigger] items[j]) is Ok
}

/// Projects every item into a story, in order; the first item that fails
/// decides the error.
pub fn stories_from_items(items: Vec<HnItem>) -> (r: Result<Vec<Story>, ItemError>)
    ensures
        r matches Ok(v) ==> v@.len() == items@.len() && forall|i: int|
            0 <= i < items@.len() ==> story_result(#[trigger] items@[i]) == Ok::<StoryView, ItemError>(
                v@[i]@,
            ),
        r matches Err(e) ==> exists|i: int|
            first_bad_story(items@, i) && story_result(items@[i]) == Err::<StoryView, ItemError>(e),
        (forall|i: int| 0 <= i < items@.len() ==> story_result(#[trigger] items@[i]) is Ok) ==> r is Ok,
{
    let ghost all = items@;
    let mut rest = items;
    let mut out: Vec<Story> = Vec::new();
    while rest.len() > 0
        invariant
            all == items@,
            out@.len() + rest@.len() == all.len(),
            rest@ == all.subrange(out@.len() as int, all.len() as int),
            forall|i: int|
                0 <= i < out@.len() ==> story_result(#[trigger] all[i]) == Ok::<StoryView, ItemError>(
                    out@[i]@,
                ),
        decreases rest@.len(),
    {
        let ghost k = out@.len();
        let item = rest.remove(0);
        assert(item == all[k as int]);
        match Story::try_from_item(item) {
            Ok(s) => {
                out.push(s);
                assert(rest@ =~= all.subrange(out@.len() as int, all.len() as int));
            },
            Err(e) => {
                assert(first_bad_story(all, k as int));
                return Err(e);
            },
        }
    }
    Ok(out)
}

pub open spec fn leaf_view(item: HnItem, depth: usize) -> NodeView {
    NodeView { comment: comment_from_item_spec(item, depth), children: Seq::empty() }
}

/// One childless node per item, in order, each comment at `depth`.
pub fn nodes_from_items(items: Vec<HnItem>, depth: usize) -> (r: Vec<CommentNode>)
    ensures
        forest_view(r@) == items@.map_values(|it: HnItem| leaf_view(it, depth)),
{
    let ghost all = items@;
    let mut rest = items;
    let mut out: Vec<CommentNode> = Vec::new();
    while rest.len() > 0
        invariant
            all == items@,
            out@.len() + rest@.len() == all.len(),
            rest@ == all.subrange(out@.len() as int, all.len() as int),
            forest_view(out@) == all.subrange(0, out@.len() as int).map_values(
                |it: HnItem| leaf_view(it, depth),
            ),
        decreases rest@.len(),
    {
        let ghost k = out@.len();
        let ghost before = out@;
        let item = rest.remove(0);
        assert(item == all[k as int]);
        let node = CommentNode::leaf(Comment::from_item(item, depth));
        out.push(node);
        proof {
            assert(out@.subrange(0, out@.len() - 1) =~= before);
            assert(forest_view(node.children@) =~= Seq::<NodeView>::empty());
            assert(forest_view(out@) =~= all.subrange(0, out@.len() as int).map_values(
                |it: HnItem| leaf_view(it, depth),
            ));
        }
        assert(rest@ =~= all.subrange(out@.len() as int, all.len() as int));
    }
    assert(all.subrange(0, all.len() as int) =~= all);
    out
}

/// The nodes whose children a prefetch must fetch: their positions, in
/// order, with their child ids.
pub fn child_batches(nodes: &Vec<CommentNode>) -> (r: Vec<(usize, Vec<u64>)>)
    ensures
        forall|j: int|
            0 <= j < r@.len() ==> (#[trigger] r@[j]).0 < nodes@.len() && r@[j].1@ == nodes@[r@[j].0 as int].comment.kids@
                && r@[j].1@.len() > 0,
        forall|j: int, k: int| 0 <= j < k < r@.len() ==> (#[trigger] r@[j]).0 < (#[trigger] r@[k]).0,
        forall|i: int|
            0 <= i < nodes@.len() && (#[trigger] nodes@[i]).comment.kids@.len() > 0 ==> exists|j: int|
                0 <= j < r@.len() && (#[trigger] r@[j]).0 == i,
{
    let mut out: Vec<(usize, Vec<u64>)> = Vec::new();
    let mut i: usize = 0;
    while i < nodes.len()
        invariant
            i <= nodes@.len(),
            forall|j: int|
                0 <= j < out@.len() ==> (#[trigger] out@[j]).0 < i && out@[j].1@ == nodes@[out@[j].0 as int].comment.kids@
                    && out@[j].1@.len() > 0,
            forall|j: int, k: int| 0 <= j < k < out@.len() ==> (#[trigger] out@[j]).0 < (#[trigger] out@[k]).0,
            forall|m: int|
                0 <= m < i && (#[trigger] nodes@[m]).comment.kids@.len() > 0 ==> exists|j: int|
                    0 <= j < out@.len() && (#[trigger] out@[j]).0 == m,
        decreases nodes@.len() - i,
    {
        if nodes[i].comment.kids.len() > 0 {
            let kids = nodes[i].comment.kids.clone();
            assert(kids@ =~= nodes@[i as int].comment.kids@);
            let ghost before = out@;
            out.push((i, kids));
            proof {
                assert forall|m: int|
                    0 <= m < i + 1 && (#[trigger] nodes@[m]).comment.kids@.len() > 0 implies exists|j: int|
                        0 <= j < out@.len() && (#[trigger] out@[j]).0 == m by {
                    if m == i {
                        assert(out@[out@.len() - 1].0 == m);
                    } else {
                        let j = choose|j: int| 0 <= j < before.len() && (#[trigger] before[j]).0 == m;
                        assert(out@[j] == before[j]);
                    }
                }
            }
        }
        i = i + 1;
    }
    out
}

/// Installs prefetched children: for each `(k, children)`, node `k` gets
/// them and is marked children-loaded.
pub fn attach_prefetched(nodes: &mut Vec<CommentNode>, results: Vec<(usize, Vec<CommentNode>)>)
    requires
        forall|j: int| 0 <= j < results@.len() ==> (#[trigger] results@[j]).0 < old(nodes)@.len(),
        forall|j: int, k: int|
            0 <= j < results@.len() && 0 <= k < results@.len() && j != k ==> (#[trigger] results@[j]).0
                != (#[trigger] results@[k]).0,
    ensures
        forest_view(final(nodes)@).len() == forest_view(old(nodes)@).len(),
        forall|j: int|
            0 <= j < results@.len() ==> forest_view(final(nodes)@)[(#[trigger] results@[j]).0 as int]
                == (NodeView {
                comment: crate::types::CommentView {
                    children_loaded: true,
                    ..forest_view(old(nodes)@)[results@[j].0 as int].comment
                },
                children: forest_view(results@[j].1@),
            }),
        forall|i: int|
            0 <= i < old(nodes)@.len() && (forall|j: int| 0 <= j < results@.len() ==> (#[trigger] results@[j]).0 != i)
                ==> forest_view(final(nodes)@)[i] == forest_view(old(nodes)@)[i],
{
    let ghost res0 = results@;
    let ghost f0 = forest_view(nodes@);
    proof {
        lemma_forest_view_index(nodes@);
    }
    let mut pending = results;
    while pending.len() > 0
        invariant
            nodes@.len() == old(nodes)@.len(),
            res0 == results@,
            pending@.len() <= res0.len(),
            f0 == forest_view(old(nodes)@),
            f0.len() == nodes@.len(),
            pending@ == res0.subrange(0, pending@.len() as int),
            forall|j: int| 0 <= j < res0.len() ==> (#[trigger] res0[j]).0 < nodes@.len(),
            forall|j: int, k: int|
                0 <= j < res0.len() && 0 <= k < res0.len() && j != k ==> (#[trigger] res0[j]).0 != (#[trigger] res0[k]).0,
            forall|j: int|
                pending@.len() <= j < res0.len() ==> node_view(nodes@[(#[trigger] res0[j]).0 as int]) == (NodeView {
                    comment: crate::types::CommentView { children_loaded: true, ..f0[res0[j].0 as int].comment },
                    children: forest_view(res0[j].1@),
                }),
            forall|i: int|
                0 <= i < nodes@.len() && (forall|j: int|
                    pending@.len() <= j < res0.len() ==> (#[trigger] res0[j]).0 != i) ==> node_view(
                    #[trigger] nodes@[i],
                ) == f0[i],
        decreases pending@.len(),
    {
        let ghost len0 = pending@.len();
        let ghost before = pending@;
        let (idx, children) = pending.pop().unwrap();
        proof {
            assert(before[len0 - 1] == res0[len0 - 1]);
            assert(pending@ =~= res0.subrange(0, pending@.len() as int));
            assert(res0[len0 - 1].0 == idx);
            assert(res0[len0 - 1].1 == children);
        }
        install_prefetched(&mut nodes[idx], children);
    }
    proof {
        lemma_forest_view_index(nodes@);
    }
}

fn install_prefetched(node: &mut CommentNode, children: Vec<CommentNode>)
    ensures
        final(node).children == children,
        final(node).comment == (Comment { children_loaded: true, ..old(node).comment }),
{
    node.children = children;
    node.comment.children_loaded = true;
}


/// Where `fetch_item` takes an item from.
#[derive(Debug, Clone, Copy, PartialEq, Eq, Structural)]
pub enum ItemSource {
    /// The in-memory cache had it.
    Memory,
    /// A fresh disk-cache entry: copy it into memory and return it.
    Disk,
    /// A stale but usable disk-cache entry: copy it into memory, return it,
    /// and refresh both tiers in the background.
    DiskRevalidate { stale_secs: u64 },
    /// Nothing usable is cached: fetch it (once per id, see `InFlightRegistry`).
    Network,
}

pub open spec fn item_source_spec(memory_hit: bool, disk_fetched_at: Option<i64>, now: i64, policy: DiskCachePolicy) -> ItemSource {
    if memory_hit {
        ItemSource::Memory
    } else {
        match disk_fetched_at {
            None => ItemSource::Network,
            Some(at) => match freshness_spec(age_spec(at, now), policy.ttl_secs, policy.max_stale_secs) {
                Freshness::Fresh => ItemSource::Disk,
                Freshness::Stale { stale_secs } => ItemSource::DiskRevalidate { stale_secs },
                Freshness::Expired { .. } => ItemSource::Network,
            },
        }
    }
}

/// Resolution order of an item lookup: memory, then a fresh disk entry,
/// then a stale but usable one (with revalidation), else the network.
/// `disk_fetched_at` is the fetch time of the disk entry, if there is one.
pub fn plan_item_source(memory_hit: bool, disk_fetched_at: Option<i64>, now: i64, policy: &DiskCachePolicy) -> (r: ItemSource)
    ensures
        r == item_source_spec(memory_hit, disk_fetched_at, now, *policy),
{
    if memory_hit {
        return ItemSource::Memory;
    }
    match disk_fetched_at {
        None => ItemSource::Network,
        Some(at) => match policy.classify(at, now) {
            Freshness::Fresh => ItemSource::Disk,
            Freshness::Stale { stale_secs } => ItemSource::DiskRevalidate { stale_secs },
            Freshness::Expired { .. } => ItemSource::Network,
        },
    }
}

/// On a memory miss, a disk entry no older than the freshness window is
/// served as is; one past it but within the stale window is served while a
/// revalidation is scheduled; an older one, or none, goes to the network.
pub proof fn lemma_disk_entry_use(policy: DiskCachePolicy, fetched_at: i64, now: i64)
    requires
        policy.wf(),
    ensures
        ({
            let age = age_spec(fetched_at, now);
            let r = item_source_spec(false, Some(fetched_at), now, policy);
            &&& age <= policy.ttl_secs ==> r == ItemSource::Disk
            &&& policy.ttl_secs < age <= policy.max_stale_secs ==> r == (ItemSource::DiskRevalidate {
                stale_secs: age as u64,
            })
            &&& age > policy.max_stale_secs ==> r == ItemSource::Network
        }),
{
}

} // verus!
