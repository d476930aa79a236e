//! The comment tree: lookup and mutation by id (depth-first, first match),
//! and flattening into the visible comment list.
use vstd::prelude::*;

use crate::types::{Comment, CommentNode, CommentView};

verus! {

broadcast use vstd::seq::group_seq_axioms, vstd::std_specs::vec::group_vec_axioms;

/// Mathematical value of a comment node.
pub struct NodeView {
    pub comment: CommentView,
    pub children: Seq<NodeView>,
}

/// The value of a forest of comment nodes.
pub open spec fn forest_view(s: Seq<CommentNode>) -> Seq<NodeView>
    decreases s,
{
    if s.len() == 0 {
        Seq::empty()
    } else {
        let last = s[s.len() - 1];
        forest_view(s.subrange(0, s.len() - 1)).push(
            NodeView { comment: last.comment@, children: forest_view(last.children@) },
        )
    }
}

pub open spec fn node_view(n: CommentNode) -> NodeView {
    NodeView { comment: n.comment@, children: forest_view(n.children@) }
}

pub proof fn lemma_forest_view_index(s: Seq<CommentNode>)
    ensures
        forest_view(s).len() == s.len(),
        forall|i: int| 0 <= i < s.len() ==> #[trigger] forest_view(s)[i] == node_view(s[i]),
    decreases s.len(),
{
    if s.len() > 0 {
        lemma_forest_view_index(s.subrange(0, s.len() - 1));
    }
}

pub proof fn lemma_forest_view_update(s: Seq<CommentNode>, i: int, n: CommentNode)
    requires
        0 <= i < s.len(),
    ensures
        forest_view(s.update(i, n)) == forest_view(s).update(i, node_view(n)),
{
    lemma_forest_view_index(s);
    lemma_forest_view_index(s.update(i, n));
    assert(forest_view(s.update(i, n)) =~= forest_view(s).update(i, node_view(n)));
}

/// Whether some node of the forest carries `id`.
pub open spec fn contains_id(f: Seq<NodeView>, id: u64) -> bool
    decreases f,
{
    if f.len() == 0 {
        false
    } else {
        f[0].comment.id == id || contains_id(f[0].children, id) || contains_id(f.drop_first(), id)
    }
}

/// The first node (depth-first) that carries `id`.
pub open spec fn find_node(f: Seq<NodeView>, id: u64) -> Option<NodeView>
    decreases f,
{
    if f.len() == 0 {
        None
    } else if f[0].comment.id == id {
        Some(f[0])
    } else if contains_id(f[0].children, id) {
        find_node(f[0].children, id)
    } else {
        find_node(f.drop_first(), id)
    }
}

/// A change made to one node.
pub enum NodeEdit {
    SetCollapsed(bool),
    SetChildrenLoading(bool),
    AttachChildren(Seq<NodeView>),
}

pub open spec fn apply_edit(n: NodeView, e: NodeEdit) -> NodeView {
    match e {
        NodeEdit::SetCollapsed(c) => NodeView { comment: CommentView { collapsed: c, ..n.comment }, ..n },
        NodeEdit::SetChildrenLoading(b) => NodeView {
            comment: CommentView { children_loading: b, ..n.comment },
            ..n
        },
        NodeEdit::AttachChildren(ch) => NodeView {
            comment: CommentView { children_loaded: true, children_loading: false, ..n.comment },
            children: ch,
        },
    }
}

/// The forest with the edit made to the first node (depth-first) carrying `id`.
pub open spec fn edit_forest(f: Seq<NodeView>, id: u64, e: NodeEdit) -> Seq<NodeView>
    decreases f,
{
    if f.len() == 0 {
        f
    } else if f[0].comment.id == id {
        f.update(0, apply_edit(f[0], e))
    } else if contains_id(f[0].children, id) {
        f.update(0, NodeView { comment: f[0].comment, children: edit_forest(f[0].children, id, e) })
    } else {
        seq![f[0]] + edit_forest(f.drop_first(), id, e)
    }
}

/// The visible comment list: each node's comment, then, unless it is
/// collapsed, its children's lines, depth-first.
pub open spec fn flatten(f: Seq<NodeView>) -> Seq<CommentView>
    decreases f,
{
    if f.len() == 0 {
        Seq::empty()
    } else {
        seq![f[0].comment] + (if f[0].comment.collapsed {
            Seq::empty()
        } else {
            flatten(f[0].children)
        }) + flatten(f.drop_first())
    }
}

pub open spec fn comment_views(s: Seq<Comment>) -> Seq<CommentView> {
    s.map_values(|c: Comment| c@)
}

pub proof fn lemma_edit_absent(f: Seq<NodeView>, id: u64, e: NodeEdit)
    requires
        !contains_id(f, id),
    ensures
        edit_forest(f, id, e) == f,
    decreases f,
{
    if f.len() > 0 {
        lemma_edit_absent(f.drop_first(), id, e);
        assert(seq![f[0]] + f.drop_first() =~= f);
    }
}

/// Where no node before index `i` (nor below it) carries `id`, the edit
/// happens in the suffix starting at `i`.
pub proof fn lemma_edit_skip(f: Seq<NodeView>, id: u64, e: NodeEdit, i: int)
    requires
        0 <= i <= f.len(),
        forall|j: int|
            0 <= j < i ==> (#[trigger] f[j]).comment.id != id && !contains_id(f[j].children, id),
    ensures
        edit_forest(f, id, e) == f.subrange(0, i) + edit_forest(f.subrange(i, f.len() as int), id, e),
        contains_id(f, id) == contains_id(f.subrange(i, f.len() as int), id),
        find_node(f, id) == find_node(f.subrange(i, f.len() as int), id),
    decreases i,
{
    if i == 0 {
        assert(f.subrange(0, 0) + f.subrange(0, f.len() as int) =~= f.subrange(0, f.len() as int));
        assert(f.subrange(0, f.len() as int) =~= f);
    } else {
        let t = f.drop_first();
        assert forall|j: int| 0 <= j < i - 1 implies (#[trigger] t[j]).comment.id != id
            && !contains_id(t[j].children, id) by {
            assert(t[j] == f[j + 1]);
        }
        lemma_edit_skip(t, id, e, i - 1);
        assert(t.subrange(i - 1, t.len() as int) =~= f.subrange(i, f.len() as int));
        assert(seq![f[0]] + (t.subrange(0, i - 1) + edit_forest(f.subrange(i, f.len() as int), id, e))
            =~= f.subrange(0, i) + edit_forest(f.subrange(i, f.len() as int), id, e));
    }
}

pub proof fn lemma_edit_here(f: Seq<NodeView>, id: u64, e: NodeEdit, i: int)
    requires
        0 <= i < f.len(),
        forall|j: int|
            0 <= j < i ==> (#[trigger] f[j]).comment.id != id && !contains_id(f[j].children, id),
    ensures
        f[i].comment.id == id ==> edit_forest(f, id, e) == f.update(i, apply_edit(f[i], e)),
        f[i].comment.id == id ==> find_node(f, id) == Some(f[i]),
        f[i].comment.id != id && contains_id(f[i].children, id) ==> edit_forest(f, id, e)
            == f.update(
            i,
            NodeView { comment: f[i].comment, children: edit_forest(f[i].children, id, e) },
        ),
        f[i].comment.id != id && contains_id(f[i].children, id) ==> find_node(f, id)
            == find_node(f[i].children, id),
        f[i].comment.id == id || contains_id(f[i].children, id) ==> contains_id(f, id),
{
    lemma_edit_skip(f, id, e, i);
    let s = f.subrange(i, f.len() as int);
    assert(s[0] == f[i]);
    if f[i].comment.id == id {
        assert(f.subrange(0, i) + s.update(0, apply_edit(f[i], e)) =~= f.update(i, apply_edit(f[i], e)));
    } else if contains_id(f[i].children, id) {
        let n = NodeView { comment: f[i].comment, children: edit_forest(f[i].children, id, e) };
        assert(f.subrange(0, i) + s.update(0, n) =~= f.update(i, n));
    }
}

/// Sets the collapsed flag of the first node carrying `target`; `None` when
/// no node carries it.
pub fn set_collapse_in_tree(tree: &mut Vec<CommentNode>, target: u64, collapsed: bool) -> (r: Option<()>)
    ensures
        r is Some == contains_id(forest_view(old(tree)@), target),
        forest_view(final(tree)@) == edit_forest(
            forest_view(old(tree)@),
            target,
            NodeEdit::SetCollapsed(collapsed),
        ),
{
    edit_in_tree(tree, target, EditOp::Collapse(collapsed))
}

/// Sets the children-loading flag of the first node carrying `target`.
pub fn set_children_loading_in_tree(tree: &mut Vec<CommentNode>, target: u64, loading: bool) -> (r: Option<()>)
    ensures
        r is Some == contains_id(forest_view(old(tree)@), target),
        forest_view(final(tree)@) == edit_forest(
            forest_view(old(tree)@),
            target,
            NodeEdit::SetChildrenLoading(loading),
        ),
{
    edit_in_tree(tree, target, EditOp::Loading(loading))
}

#[derive(Clone, Copy)]
enum EditOp {
    Collapse(bool),
    Loading(bool),
}

spec fn edit_of(op: EditOp) -> NodeEdit {
    match op {
        EditOp::Collapse(c) => NodeEdit::SetCollapsed(c),
        EditOp::Loading(b) => NodeEdit::SetChildrenLoading(b),
    }
}

fn edit_in_tree(tree: &mut Vec<CommentNode>, target: u64, op: EditOp) -> (r: Option<()>)
    ensures
        r is Some == contains_id(forest_view(old(tree)@), target),
        forest_view(final(tree)@) == edit_forest(forest_view(old(tree)@), target, edit_of(op)),
    decreases old(tree)@,
{
    let ghost f0 = forest_view(tree@);
    proof {
        lemma_forest_view_index(tree@);
    }
    let n = tree.len();
    let mut i: usize = 0;
    while i < n
        invariant
            n == tree.len(),
            n == old(tree)@.len(),
            0 <= i <= n,
            f0 == forest_view(old(tree)@),
            forest_view(tree@) == f0,
            forall|j: int| i <= j < n ==> tree@[j] == old(tree)@[j],
            forall|j: int|
                0 <= j < i ==> (#[trigger] f0[j]).comment.id != target && !contains_id(
                    f0[j].children,
                    target,
                ),
        decreases n - i,
    {
        proof {
            lemma_forest_view_index(tree@);
        }
        if tree[i].comment.id == target {
            let ghost before = tree@;
            match op {
                EditOp::Collapse(c) => {
                    tree[i].comment.collapsed = c;
                },
                EditOp::Loading(b) => {
                    tree[i].comment.children_loading = b;
                },
            }
            proof {
                lemma_edit_here(f0, target, edit_of(op), i as int);
                lemma_forest_view_update(before, i as int, tree@[i as int]);
                assert(node_view(tree@[i as int]) == apply_edit(f0[i as int], edit_of(op)));
            }
            return Some(());
        }
        let ghost before = tree@;
        assert(decreases_to!(old(tree)@ => old(tree)@[i as int].children@));
        let found = edit_in_tree(&mut tree[i].children, target, op);
        proof {
            lemma_forest_view_update(before, i as int, tree@[i as int]);
        }
        if found.is_some() {
            proof {
                lemma_edit_here(f0, target, edit_of(op), i as int);
            }
            return Some(());
        }
        proof {
            lemma_edit_absent(forest_view(before[i as int].children@), target, edit_of(op));
            assert(node_view(tree@[i as int]) == node_view(before[i as int]));
            assert(forest_view(tree@) =~= f0);
        }
        i = i + 1;
    }
    proof {
        lemma_edit_skip(f0, target, edit_of(op), n as int);
        lemma_edit_absent(f0, target, edit_of(op));
    }
    None
}


/// Depth, child ids and the two loading flags of the first node carrying
/// `target`; `None` when no node carries it.
pub fn comment_info_in_tree(tree: &Vec<CommentNode>, target: u64) -> (r: Option<(usize, Vec<u64>, bool, bool)>)
    ensures
        r is Some == contains_id(forest_view(tree@), target),
        r matches Some(info) ==> {
            let c = find_node(forest_view(tree@), target).unwrap().comment;
            &&& info.0 == c.depth
            &&& info.1@ == c.kids
            &&& info.2 == c.children_loaded
            &&& info.3 == c.children_loading
        },
    decreases tree@,
{
    let ghost f0 = forest_view(tree@);
    proof {
        lemma_forest_view_index(tree@);
    }
    let n = tree.len();
    let mut i: usize = 0;
    while i < n
        invariant
            n == tree.len(),
            0 <= i <= n,
            f0 == forest_view(tree@),
            f0.len() == n,
            forall|j: int| 0 <= j < n ==> #[trigger] f0[j] == node_view(tree@[j]),
            forall|j: int|
                0 <= j < i ==> (#[trigger] f0[j]).comment.id != target && !contains_id(
                    f0[j].children,
                    target,
                ),
        decreases n - i,
    {
        let node = &tree[i];
        if node.comment.id == target {
            proof {
                lemma_edit_here(f0, target, NodeEdit::SetCollapsed(false), i as int);
            }
            let kids = node.comment.kids.clone();
            assert(kids@ =~= node.comment.kids@);
            return Some((node.comment.depth, kids, node.comment.children_loaded, node.comment.children_loading));
        }
        assert(decreases_to!(tree@ => tree@[i as int].children@));
        let found = comment_info_in_tree(&node.children, target);
        if found.is_some() {
            proof {
                lemma_edit_here(f0, target, NodeEdit::SetCollapsed(false), i as int);
            }
            return found;
        }
        i = i + 1;
    }
    proof {
        lemma_edit_skip(f0, target, NodeEdit::SetCollapsed(false), n as int);
    }
    None
}

/// Installs `children` under the first node carrying `target`, marking its
/// children loaded and no longer loading; `None` (nothing attached) when no
/// node carries it.
pub fn attach_children_in_tree(tree: &mut Vec<CommentNode>, target: u64, children: Vec<CommentNode>) -> (r: Option<()>)
    ensures
        r is Some == contains_id(forest_view(old(tree)@), target),
        forest_view(final(tree)@) == edit_forest(
            forest_view(old(tree)@),
            target,
            NodeEdit::AttachChildren(forest_view(children@)),
        ),
{
    match attach_inner(tree, target, children) {
        Ok(()) => Some(()),
        Err(_) => None,
    }
}

fn install_children(node: &mut CommentNode, children: Vec<CommentNode>)
    ensures
        final(node).children == children,
        final(node).comment == (Comment {
            children_loaded: true,
            children_loading: false,
            ..old(node).comment
        }),
{
    node.children = children;
    node.comment.children_loaded = true;
    node.comment.children_loading = false;
}

fn attach_inner(tree: &mut Vec<CommentNode>, target: u64, new_children: Vec<CommentNode>) -> (r: Result<(), Vec<CommentNode>>)
    ensures
        r is Ok == contains_id(forest_view(old(tree)@), target),
        r matches Err(back) ==> back@ == new_children@,
        forest_view(final(tree)@) == edit_forest(
            forest_view(old(tree)@),
            target,
            NodeEdit::AttachChildren(forest_view(new_children@)),
        ),
    decreases old(tree)@,
{
    let ghost f0 = forest_view(tree@);
    let ghost e = NodeEdit::AttachChildren(forest_view(new_children@));
    proof {
        lemma_forest_view_index(tree@);
    }
    let ghost ch0 = new_children@;
    let mut children = new_children;
    let n = tree.len();
    let mut i: usize = 0;
    while i < n
        invariant
            n == tree.len(),
            n == old(tree)@.len(),
            0 <= i <= n,
            f0 == forest_view(old(tree)@),
            forest_view(tree@) == f0,
            children@ == ch0,
            ch0 == new_children@,
            e == NodeEdit::AttachChildren(forest_view(ch0)),
            forall|j: int| i <= j < n ==> tree@[j] == old(tree)@[j],
            forall|j: int|
                0 <= j < i ==> (#[trigger] f0[j]).comment.id != target && !contains_id(
                    f0[j].children,
                    target,
                ),
        decreases n - i,
    {
        proof {
            lemma_forest_view_index(tree@);
        }
        if tree[i].comment.id == target {
            let ghost before = tree@;
            install_children(&mut tree[i], children);
            proof {
                lemma_edit_here(f0, target, e, i as int);
                lemma_forest_view_update(before, i as int, tree@[i as int]);
                assert(node_view(tree@[i as int]) == apply_edit(f0[i as int], e));
                assert(forest_view(tree@) == edit_forest(f0, target, e));
            }
            return Ok(());
        }
        let ghost before = tree@;
        assert(decreases_to!(old(tree)@ => old(tree)@[i as int].children@));
        let res = attach_inner(&mut tree[i].children, target, children);
        proof {
            lemma_forest_view_update(before, i as int, tree@[i as int]);
            assert(tree@[i as int].comment == before[i as int].comment);
            assert(node_view(before[i as int]) == f0[i as int]);
        }
        match res {
            Ok(()) => {
                proof {
                    lemma_edit_here(f0, target, e, i as int);
                    assert(forest_view(tree@[i as int].children@) == edit_forest(f0[i as int].children, target, e));
                    assert(node_view(tree@[i as int]) == NodeView { comment: f0[i as int].comment, children: edit_forest(f0[i as int].children, target, e) });
                }
                return Ok(());
            },
            Err(back) => {
                children = back;
            },
        }
        proof {
            lemma_edit_absent(forest_view(before[i as int].children@), target, e);
            assert(node_view(tree@[i as int]) == node_view(before[i as int]));
            assert(forest_view(tree@) =~= f0);
        }
        i = i + 1;
    }
    proof {
        lemma_edit_skip(f0, target, e, n as int);
        lemma_edit_absent(f0, target, e);
    }
    Err(children)
}

pub proof fn lemma_flatten_append(a: Seq<NodeView>, b: Seq<NodeView>)
    ensures
        flatten(a + b) == flatten(a) + flatten(b),
    decreases a.len(),
{
    if a.len() == 0 {
        assert(a + b =~= b);
    } else {
        lemma_flatten_append(a.drop_first(), b);
        assert((a + b).drop_first() =~= a.drop_first() + b);
        assert((a + b)[0] == a[0]);
    }
}

pub proof fn lemma_flatten_one(n: NodeView)
    ensures
        flatten(seq![n]) == seq![n.comment] + (if n.comment.collapsed {
            Seq::<CommentView>::empty()
        } else {
            flatten(n.children)
        }),
{
    assert(seq![n].drop_first() =~= Seq::<NodeView>::empty());
    assert(flatten(Seq::<NodeView>::empty()) == Seq::<CommentView>::empty());
}

fn flatten_into(nodes: &Vec<CommentNode>, out: &mut Vec<Comment>)
    ensures
        comment_views(final(out)@) == comment_views(old(out)@) + flatten(forest_view(nodes@)),
    decreases nodes@,
{
    let ghost f0 = forest_view(nodes@);
    let ghost out0 = comment_views(out@);
    proof {
        lemma_forest_view_index(nodes@);
    }
    let n = nodes.len();
    let mut i: usize = 0;
    while i < n
        invariant
            n == nodes.len(),
            0 <= i <= n,
            f0 == forest_view(nodes@),
            f0.len() == n,
            forall|j: int| 0 <= j < n ==> #[trigger] f0[j] == node_view(nodes@[j]),
            out0 == comment_views(old(out)@),
            comment_views(out@) == out0 + flatten(f0.subrange(0, i as int)),
        decreases n - i,
    {
        let node = &nodes[i];
        let ghost before = comment_views(out@);
        out.push(node.comment.duplicate());
        assert(comment_views(out@) =~= before.push(node.comment@));
        if !node.comment.collapsed {
            assert(decreases_to!(nodes@ => nodes@[i as int].children@));
            flatten_into(&node.children, out);
        }
        proof {
            lemma_flatten_append(f0.subrange(0, i as int), seq![f0[i as int]]);
            assert(f0.subrange(0, i as int) + seq![f0[i as int]] =~= f0.subrange(0, i + 1));
            lemma_flatten_one(f0[i as int]);
            assert(comment_views(out@) =~= out0 + flatten(f0.subrange(0, i + 1)));
        }
        i = i + 1;
    }
    assert(f0.subrange(0, n as int) =~= f0);
}

/// The visible comment list of a tree: depth-first, skipping the
/// descendants of collapsed nodes.
pub fn flatten_comment_tree(tree: &Vec<CommentNode>) -> (r: Vec<Comment>)
    ensures
        comment_views(r@) == flatten(forest_view(tree@)),
{
    let mut out: Vec<Comment> = Vec::new();
    assert(comment_views(out@) =~= Seq::<CommentView>::empty());
    flatten_into(tree, &mut out);
    assert(Seq::<CommentView>::empty() + flatten(forest_view(tree@)) =~= flatten(forest_view(tree@)));
    out
}

/// Whether the node carrying `id` is on screen: found, with no collapsed
/// ancestor.
pub open spec fn shown(f: Seq<NodeView>, id: u64) -> bool
    decreases f,
{
    if f.len() == 0 {
        false
    } else if f[0].comment.id == id {
        true
    } else if contains_id(f[0].children, id) {
        !f[0].comment.collapsed && shown(f[0].children, id)
    } else {
        shown(f.drop_first(), id)
    }
}

pub proof fn lemma_flatten_cons(n: NodeView, rest: Seq<NodeView>)
    ensures
        flatten(seq![n] + rest) == seq![n.comment] + (if n.comment.collapsed {
            Seq::<CommentView>::empty()
        } else {
            flatten(n.children)
        }) + flatten(rest),
{
    assert((seq![n] + rest).drop_first() =~= rest);
    assert((seq![n] + rest)[0] == n);
}

/// The lines of `f` split around the node carrying `id`: `before`, that
/// node's line, its descendants' lines only when it is expanded, then `after`.
pub open spec fn split_around(f: Seq<NodeView>, id: u64, before: Seq<CommentView>, after: Seq<CommentView>) -> bool {
    let a = find_node(f, id).unwrap();
    &&& flatten(edit_forest(f, id, NodeEdit::SetCollapsed(true))) == before + seq![
        CommentView { collapsed: true, ..a.comment },
    ] + after
    &&& flatten(edit_forest(f, id, NodeEdit::SetCollapsed(false))) == before + seq![
        CommentView { collapsed: false, ..a.comment },
    ] + flatten(a.children) + after
}

proof fn lemma_split_here(f: Seq<NodeView>, id: u64)
    requires
        f.len() > 0,
        f[0].comment.id == id,
    ensures
        split_around(f, id, Seq::empty(), flatten(f.drop_first())),
{
    let rest = f.drop_first();
    let n1 = apply_edit(f[0], NodeEdit::SetCollapsed(true));
    let n0 = apply_edit(f[0], NodeEdit::SetCollapsed(false));
    assert(edit_forest(f, id, NodeEdit::SetCollapsed(true)) =~= seq![n1] + rest);
    assert(edit_forest(f, id, NodeEdit::SetCollapsed(false)) =~= seq![n0] + rest);
    lemma_flatten_cons(n1, rest);
    lemma_flatten_cons(n0, rest);
    assert(seq![n1.comment] + Seq::<CommentView>::empty() + flatten(rest) =~= Seq::<CommentView>::empty()
        + seq![n1.comment] + flatten(rest));
    assert(seq![n0.comment] + flatten(f[0].children) + flatten(rest) =~= Seq::<CommentView>::empty()
        + seq![n0.comment] + flatten(f[0].children) + flatten(rest));
}

proof fn lemma_split_below(f: Seq<NodeView>, id: u64, p: Seq<CommentView>, q: Seq<CommentView>)
    requires
        f.len() > 0,
        f[0].comment.id != id,
        contains_id(f[0].children, id),
        !f[0].comment.collapsed,
        split_around(f[0].children, id, p, q),
    ensures
        split_around(f, id, seq![f[0].comment] + p, q + flatten(f.drop_first())),
{
    let rest = f.drop_first();
    let a = find_node(f, id).unwrap();
    let n1 = NodeView {
        comment: f[0].comment,
        children: edit_forest(f[0].children, id, NodeEdit::SetCollapsed(true)),
    };
    let n0 = NodeView {
        comment: f[0].comment,
        children: edit_forest(f[0].children, id, NodeEdit::SetCollapsed(false)),
    };
    assert(edit_forest(f, id, NodeEdit::SetCollapsed(true)) =~= seq![n1] + rest);
    assert(edit_forest(f, id, NodeEdit::SetCollapsed(false)) =~= seq![n0] + rest);
    lemma_flatten_cons(n1, rest);
    lemma_flatten_cons(n0, rest);
    let c1 = CommentView { collapsed: true, ..a.comment };
    let c0 = CommentView { collapsed: false, ..a.comment };
    assert(seq![f[0].comment] + (p + seq![c1] + q) + flatten(rest) =~= seq![f[0].comment] + p
        + seq![c1] + (q + flatten(rest)));
    assert(seq![f[0].comment] + (p + seq![c0] + flatten(a.children) + q) + flatten(rest) =~= seq![
        f[0].comment,
    ] + p + seq![c0] + flatten(a.children) + (q + flatten(rest)));
}

proof fn lemma_split_after(f: Seq<NodeView>, id: u64, p: Seq<CommentView>, q: Seq<CommentView>)
    requires
        f.len() > 0,
        f[0].comment.id != id,
        !contains_id(f[0].children, id),
        split_around(f.drop_first(), id, p, q),
    ensures
        split_around(
            f,
            id,
            seq![f[0].comment] + (if f[0].comment.collapsed {
                Seq::<CommentView>::empty()
            } else {
                flatten(f[0].children)
            }) + p,
            q,
        ),
{
    let rest = f.drop_first();
    let a = find_node(f, id).unwrap();
    lemma_flatten_cons(f[0], edit_forest(rest, id, NodeEdit::SetCollapsed(true)));
    lemma_flatten_cons(f[0], edit_forest(rest, id, NodeEdit::SetCollapsed(false)));
    let head = seq![f[0].comment] + (if f[0].comment.collapsed {
        Seq::<CommentView>::empty()
    } else {
        flatten(f[0].children)
    });
    let c1 = CommentView { collapsed: true, ..a.comment };
    let c0 = CommentView { collapsed: false, ..a.comment };
    assert(head + (p + seq![c1] + q) =~= head + p + seq![c1] + q);
    assert(head + (p + seq![c0] + flatten(a.children) + q) =~= head + p + seq![c0] + flatten(
        a.children,
    ) + q);
}

/// Collapsing a shown node keeps its line and drops exactly its
/// descendants' lines; expanding it puts them back, depth-first, between the
/// same lines before and after.
pub proof fn lemma_collapse_hides_descendants(f: Seq<NodeView>, id: u64) -> (r: (Seq<CommentView>, Seq<CommentView>))
    requires
        shown(f, id),
    ensures
        split_around(f, id, r.0, r.1),
    decreases f,
{
    if f[0].comment.id == id {
        lemma_split_here(f, id);
        (Seq::empty(), flatten(f.drop_first()))
    } else if contains_id(f[0].children, id) {
        let (p, q) = lemma_collapse_hides_descendants(f[0].children, id);
        lemma_split_below(f, id, p, q);
        (seq![f[0].comment] + p, q + flatten(f.drop_first()))
    } else {
        let (p, q) = lemma_collapse_hides_descendants(f.drop_first(), id);
        lemma_split_after(f, id, p, q);
        (seq![f[0].comment] + (if f[0].comment.collapsed {
            Seq::<CommentView>::empty()
        } else {
            flatten(f[0].children)
        }) + p, q)
    }
}


/// The forest with every node above depth `levels` that has child ids
/// expanded.
pub open spec fn expand_forest(f: Seq<NodeView>, levels: usize) -> Seq<NodeView>
    decreases f,
{
    if f.len() == 0 {
        f
    } else {
        let n = f[0];
        let c = if n.comment.depth < levels && n.comment.kids.len() > 0 {
            CommentView { collapsed: false, ..n.comment }
        } else {
            n.comment
        };
        seq![NodeView { comment: c, children: expand_forest(n.children, levels) }] + expand_forest(
            f.drop_first(),
            levels,
        )
    }
}

pub open spec fn expand_node(n: NodeView, levels: usize) -> NodeView {
    NodeView {
        comment: if n.comment.depth < levels && n.comment.kids.len() > 0 {
            CommentView { collapsed: false, ..n.comment }
        } else {
            n.comment
        },
        children: expand_forest(n.children, levels),
    }
}

pub proof fn lemma_expand_index(f: Seq<NodeView>, levels: usize)
    ensures
        expand_forest(f, levels).len() == f.len(),
        forall|i: int| 0 <= i < f.len() ==> #[trigger] expand_forest(f, levels)[i] == expand_node(f[i], levels),
    decreases f.len(),
{
    if f.len() > 0 {
        lemma_expand_index(f.drop_first(), levels);
        assert forall|i: int| 0 <= i < f.len() implies #[trigger] expand_forest(f, levels)[i] == expand_node(
            f[i],
            levels,
        ) by {
            if i > 0 {
                assert(f.drop_first()[i - 1] == f[i]);
            }
        }
    }
}

/// Expands every node above depth `levels` that has child ids.
pub fn apply_default_expansion(tree: &mut Vec<CommentNode>, levels: usize)
    ensures
        forest_view(final(tree)@) == expand_forest(forest_view(old(tree)@), levels),
    decreases old(tree)@,
{
    let ghost f0 = forest_view(tree@);
    proof {
        lemma_forest_view_index(tree@);
        lemma_expand_index(f0, levels);
    }
    let n = tree.len();
    let mut i: usize = 0;
    while i < n
        invariant
            n == tree.len(),
            n == old(tree)@.len(),
            0 <= i <= n,
            f0 == forest_view(old(tree)@),
            f0.len() == n,
            expand_forest(f0, levels).len() == n,
            forall|j: int| 0 <= j < n ==> #[trigger] expand_forest(f0, levels)[j] == expand_node(f0[j], levels),
            forall|j: int| i <= j < n ==> tree@[j] == old(tree)@[j],
            forall|j: int| 0 <= j < n ==> #[trigger] f0[j] == node_view(old(tree)@[j]),
            forall|j: int| 0 <= j < i ==> #[trigger] node_view(tree@[j]) == expand_node(f0[j], levels),
        decreases n - i,
    {
        assert(decreases_to!(old(tree)@ => old(tree)@[i as int]));
        expand_subtree(&mut tree[i], levels);
        i = i + 1;
    }
    proof {
        lemma_forest_view_index(tree@);
        assert(forest_view(tree@) =~= expand_forest(f0, levels));
    }
}

fn expand_subtree(node: &mut CommentNode, levels: usize)
    ensures
        node_view(*final(node)) == expand_node(node_view(*old(node)), levels),
    decreases *old(node),
{
    if node.comment.depth < levels && node.comment.kids.len() > 0 {
        node.comment.collapsed = false;
    }
    assert(decreases_to!(*old(node) => old(node).children));
    apply_default_expansion(&mut node.children, levels);
}

} // verus!
