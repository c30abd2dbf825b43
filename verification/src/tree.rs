use crate::entry::EntryKind;
use vstd::prelude::*;
use vstd::seq_lib::lemma_seq_concat_contains_all_elements;

verus! {

/// A snapshot of one filesystem subtree: the entry's final path segment,
/// its kind, its numeric owner and group ids, its mode bits, and the
/// subtrees of its children. A caller builds it from the real filesystem;
/// the library walks and renders it.
pub struct FsTree {
    pub name: String,
    pub kind: EntryKind,
    pub uid: u32,
    pub gid: u32,
    pub mode: u32,
    pub children: Vec<FsTree>,
}

/// One visited entry of a walk: the entry's data together with its depth
/// below the walk's root (the root itself is depth 0).
pub struct Visit {
    pub name: String,
    pub kind: EntryKind,
    pub uid: u32,
    pub gid: u32,
    pub mode: u32,
    pub depth: usize,
}

/// The visit a walk records for node `t` at depth `depth`.
pub open spec fn visit_of(t: FsTree, depth: int) -> Visit {
    Visit {
        name: t.name,
        kind: t.kind,
        uid: t.uid,
        gid: t.gid,
        mode: t.mode,
        depth: depth as usize,
    }
}

/// The depth-first walk of one subtree rooted at depth `depth`: the root's
/// own entry first, then the walks of its children in order. In recursive
/// mode the walk always descends; otherwise it descends from the walk's
/// root only, so nothing below depth 1 is visited.
pub open spec fn walk_node_spec(t: FsTree, depth: int, recursive: bool) -> Seq<Visit>
    decreases t, 1int,
{
    seq![visit_of(t, depth)] + if recursive || depth == 0 {
        walk_forest_spec(t.children@, depth + 1, recursive)
    } else {
        Seq::empty()
    }
}

/// The walks of the trees of a forest, one after the other.
pub open spec fn walk_forest_spec(ts: Seq<FsTree>, depth: int, recursive: bool) -> Seq<Visit>
    decreases ts, 0int,
{
    if ts.len() == 0 {
        Seq::empty()
    } else {
        walk_node_spec(ts[0], depth, recursive) + walk_forest_spec(
            ts.drop_first(),
            depth,
            recursive,
        )
    }
}

/// The number of levels of a tree: 1 for a leaf.
pub open spec fn height_node(t: FsTree) -> nat
    decreases t, 1int,
{
    1 + height_forest(t.children@)
}

/// The greatest height among the trees of a forest; 0 for an empty forest.
pub open spec fn height_forest(ts: Seq<FsTree>) -> nat
    decreases ts, 0int,
{
    if ts.len() == 0 {
        0
    } else if height_node(ts[0]) >= height_forest(ts.drop_first()) {
        height_node(ts[0])
    } else {
        height_forest(ts.drop_first())
    }
}

/// The number of nodes of a tree.
pub open spec fn size_node(t: FsTree) -> nat
    decreases t, 1int,
{
    1 + size_forest(t.children@)
}

/// The total number of nodes over the trees of a forest.
pub open spec fn size_forest(ts: Seq<FsTree>) -> nat
    decreases ts, 0int,
{
    if ts.len() == 0 {
        0
    } else {
        size_node(ts[0]) + size_forest(ts.drop_first())
    }
}

/// The descendant of `t` that a child-index path reaches: the node found by
/// taking, level by level, the child with the path's next index; `None`
/// where an index is out of range. The empty path reaches `t` itself.
pub open spec fn subtree_at(t: FsTree, path: Seq<int>) -> Option<FsTree>
    decreases path.len(),
{
    if path.len() == 0 {
        Option::Some(t)
    } else if 0 <= path[0] < t.children@.len() {
        subtree_at(t.children@[path[0]], path.drop_first())
    } else {
        Option::None
    }
}

/// The visits of the immediate children of a node, all at one depth.
pub open spec fn children_visits(ts: Seq<FsTree>, depth: int) -> Seq<Visit> {
    ts.map(|i: int, c: FsTree| visit_of(c, depth))
}

/// Every tree of a forest is at most as high as the forest.
proof fn lemma_height_forest_ge(ts: Seq<FsTree>, i: int)
    requires
        0 <= i < ts.len(),
    ensures
        height_node(ts[i]) <= height_forest(ts),
    decreases ts.len(),
{
    if i > 0 {
        lemma_height_forest_ge(ts.drop_first(), i - 1);
        assert(ts.drop_first()[i - 1] == ts[i]);
    }
}

/// Extending the walked prefix of a forest by one tree appends that tree's
/// walk.
proof fn lemma_walk_forest_snoc(ts: Seq<FsTree>, i: int, depth: int, recursive: bool)
    requires
        0 <= i < ts.len(),
    ensures
        walk_forest_spec(ts.subrange(0, i + 1), depth, recursive) == walk_forest_spec(
            ts.subrange(0, i),
            depth,
            recursive,
        ) + walk_node_spec(ts[i], depth, recursive),
    decreases i,
{
    if i == 0 {
        let s = ts.subrange(0, 1);
        assert(s[0] == ts[0]);
        assert(s.drop_first() =~= Seq::<FsTree>::empty());
        assert(ts.subrange(0, 0) =~= Seq::<FsTree>::empty());
        assert(walk_forest_spec(ts.subrange(0, 1), depth, recursive) =~= walk_forest_spec(
            ts.subrange(0, 0),
            depth,
            recursive,
        ) + walk_node_spec(ts[0], depth, recursive));
    } else {
        lemma_walk_forest_snoc(ts.drop_first(), i - 1, depth, recursive);
        let a = ts.subrange(0, i + 1);
        let b = ts.subrange(0, i);
        assert(a[0] == ts[0]);
        assert(b[0] == ts[0]);
        assert(a.drop_first() =~= ts.drop_first().subrange(0, i));
        assert(b.drop_first() =~= ts.drop_first().subrange(0, i - 1));
        assert(ts.drop_first()[i - 1] == ts[i]);
        assert(walk_forest_spec(a, depth, recursive) =~= walk_forest_spec(
            b,
            depth,
            recursive,
        ) + walk_node_spec(ts[i], depth, recursive));
    }
}

/// Appends the walk of `t`, rooted at depth `depth`, to `out`.
fn walk_into(t: &FsTree, depth: usize, recursive: bool, out: &mut Vec<Visit>)
    requires
        depth + height_node(*t) <= usize::MAX,
    ensures
        final (out)@ == old(out)@ + walk_node_spec(*t, depth as int, recursive),
    decreases *t,
{
    let v = Visit {
        name: t.name.clone(),
        kind: t.kind,
        uid: t.uid,
        gid: t.gid,
        mode: t.mode,
        depth,
    };
    out.push(v);
    proof {
        assert(out@ =~= old(out)@ + seq![visit_of(*t, depth as int)]);
    }
    if recursive || depth == 0 {
        let ghost pre = out@;
        let mut i: usize = 0;
        proof {
            assert(out@ =~= pre + walk_forest_spec(
                t.children@.subrange(0, 0),
                depth + 1,
                recursive,
            ));
        }
        while i < t.children.len()
            invariant
                i <= t.children.len(),
                depth + height_node(*t) <= usize::MAX,
                out@ == pre + walk_forest_spec(
                    t.children@.subrange(0, i as int),
                    depth + 1,
                    recursive,
                ),
            decreases t.children.len() - i,
        {
            proof {
                lemma_height_forest_ge(t.children@, i as int);
                assert(decreases_to!(*t => t.children));
                assert(decreases_to!(t.children => t.children@));
                assert(decreases_to!(t.children@ => t.children@[i as int]));
            }
            walk_into(&t.children[i], depth + 1, recursive, out);
            proof {
                lemma_walk_forest_snoc(t.children@, i as int, depth + 1, recursive);
            }
            i = i + 1;
        }
        proof {
            assert(t.children@.subrange(0, t.children@.len() as int) =~= t.children@);
            assert(out@ =~= old(out)@ + walk_node_spec(*t, depth as int, recursive));
        }
    } else {
        proof {
            assert(out@ =~= old(out)@ + walk_node_spec(*t, depth as int, recursive));
        }
    }
}

/// Walks a snapshot tree depth-first: in recursive mode every descendant at
/// every depth, otherwise only the root and its immediate children.
pub fn walk_tree(root: &FsTree, recursive: bool) -> (out: Vec<Visit>)
    requires
        height_node(*root) <= usize::MAX,
    ensures
        out@ == walk_node_spec(*root, 0, recursive),
{
    let mut out: Vec<Visit> = Vec::new();
    walk_into(root, 0, recursive, &mut out);
    proof {
        assert(out@ =~= walk_node_spec(*root, 0, recursive));
    }
    out
}

/// A forest walked non-recursively from depth 1 yields exactly one visit
/// per tree, at depth 1.
proof fn lemma_forest_nonrecursive(ts: Seq<FsTree>)
    ensures
        walk_forest_spec(ts, 1, false) == children_visits(ts, 1),
    decreases ts.len(),
{
    if ts.len() == 0 {
        assert(walk_forest_spec(ts, 1, false) =~= children_visits(ts, 1));
    } else {
        lemma_forest_nonrecursive(ts.drop_first());
        assert(walk_node_spec(ts[0], 1, false) =~= seq![visit_of(ts[0], 1)]);
        assert forall|j: int| 0 <= j < ts.len() implies walk_forest_spec(ts, 1, false)[j]
            == children_visits(ts, 1)[j] by {
            if j > 0 {
                assert(children_visits(ts.drop_first(), 1)[j - 1] == visit_of(ts[j], 1));
            }
        }
        assert(walk_forest_spec(ts, 1, false) =~= children_visits(ts, 1));
    }
}

/// A non-recursive walk lists exactly the immediate children of its root:
/// the root itself at depth 0, then each of its children at depth 1, in
/// order, and no deeper descendant.
pub proof fn lemma_nonrecursive_walk_immediate(t: FsTree)
    ensures
        walk_node_spec(t, 0, false) == seq![visit_of(t, 0)] + children_visits(t.children@, 1),
{
    lemma_forest_nonrecursive(t.children@);
}

/// A walk of a forest is as long as the forest's node count.
proof fn lemma_walk_forest_len(ts: Seq<FsTree>, depth: int)
    ensures
        walk_forest_spec(ts, depth, true).len() == size_forest(ts),
    decreases ts, 0int,
{
    if ts.len() != 0 {
        lemma_walk_node_len(ts[0], depth);
        lemma_walk_forest_len(ts.drop_first(), depth);
    }
}

/// A recursive walk of a tree is as long as the tree's node count.
proof fn lemma_walk_node_len(t: FsTree, depth: int)
    ensures
        walk_node_spec(t, depth, true).len() == size_node(t),
    decreases t, 1int,
{
    lemma_walk_forest_len(t.children@, depth + 1);
}

/// A recursive walk of a forest contains every visit of the walk of any of
/// its trees.
proof fn lemma_walk_forest_covers(ts: Seq<FsTree>, j: int, depth: int, v: Visit)
    requires
        0 <= j < ts.len(),
        walk_node_spec(ts[j], depth, true).contains(v),
    ensures
        walk_forest_spec(ts, depth, true).contains(v),
    decreases j,
{
    broadcast use lemma_seq_concat_contains_all_elements;

    if j > 0 {
        assert(ts.drop_first()[j - 1] == ts[j]);
        lemma_walk_forest_covers(ts.drop_first(), j - 1, depth, v);
    }
}

/// A recursive walk rooted at `depth` contains the visit of every
/// descendant that a valid path reaches, at the depth the path's length
/// gives.
proof fn lemma_walk_contains_path(t: FsTree, depth: int, path: Seq<int>)
    requires
        subtree_at(t, path) is Some,
    ensures
        walk_node_spec(t, depth, true).contains(
            visit_of(subtree_at(t, path).unwrap(), depth + path.len()),
        ),
    decreases path.len(),
{
    broadcast use lemma_seq_concat_contains_all_elements;

    if path.len() == 0 {
        let w = walk_node_spec(t, depth, true);
        assert(w[0] == visit_of(t, depth));
        assert(w.contains(visit_of(t, depth)));
    } else {
        let c = t.children@[path[0]];
        lemma_walk_contains_path(c, depth + 1, path.drop_first());
        let v = visit_of(subtree_at(t, path).unwrap(), depth + path.len());
        assert(subtree_at(c, path.drop_first()) == subtree_at(t, path));
        assert(walk_node_spec(c, depth + 1, true).contains(v));
        lemma_walk_forest_covers(t.children@, path[0], depth + 1, v);
    }
}

/// A recursive walk lists every descendant at every depth, each exactly
/// once: the walk holds one visit per node of the tree, and the node any
/// valid child-index path reaches appears in it, at the depth that is the
/// path's length.
pub proof fn lemma_recursive_walk_complete(t: FsTree)
    ensures
        walk_node_spec(t, 0, true).len() == size_node(t),
        forall|path: Seq<int>|
            (#[trigger] subtree_at(t, path)) is Some ==> walk_node_spec(t, 0, true).contains(
                visit_of(subtree_at(t, path).unwrap(), path.len() as int),
            ),
{
    lemma_walk_node_len(t, 0);
    assert forall|path: Seq<int>| (#[trigger] subtree_at(t, path)) is Some implies walk_node_spec(
        t,
        0,
        true,
    ).contains(visit_of(subtree_at(t, path).unwrap(), path.len() as int)) by {
        lemma_walk_contains_path(t, 0, path);
    }
}

} // verus!
