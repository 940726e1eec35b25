//! Path-addressed operations on sequences of node values, which the move
//! engine and the edit processor are specified by.
use vstd::prelude::*;

use vstd::multiset::Multiset;

use crate::node::{Building, NodeModel};

verus! {

broadcast use vstd::seq::group_seq_axioms;

/// The node that `path` addresses among `children`; the empty path addresses
/// none of them.
pub open spec fn node_at(children: Seq<NodeModel>, path: Seq<usize>) -> Option<NodeModel>
    decreases path.len(),
{
    if path.len() == 0 || path[0] >= children.len() {
        None
    } else if path.len() == 1 {
        Some(children[path[0] as int])
    } else {
        match children[path[0] as int] {
            NodeModel::Group { children: c, .. } => node_at(c, path.drop_first()),
            NodeModel::Building(_) => None,
        }
    }
}

/// Whether `path` names a place to insert a node: all its indices but the last
/// lead through groups, and the last is at most the length of the group reached.
pub open spec fn can_insert(children: Seq<NodeModel>, path: Seq<usize>) -> bool
    decreases path.len(),
{
    if path.len() == 0 {
        false
    } else if path.len() == 1 {
        path[0] <= children.len()
    } else {
        path[0] < children.len() && match children[path[0] as int] {
            NodeModel::Group { children: c, .. } => can_insert(c, path.drop_first()),
            NodeModel::Building(_) => false,
        }
    }
}

/// `children` with the node at `path` taken out.
pub open spec fn remove_at(children: Seq<NodeModel>, path: Seq<usize>) -> Seq<NodeModel>
    decreases path.len(),
{
    if path.len() == 0 || path[0] >= children.len() {
        children
    } else if path.len() == 1 {
        children.remove(path[0] as int)
    } else {
        match children[path[0] as int] {
            NodeModel::Group { name, children: c } => children.update(
                path[0] as int,
                NodeModel::Group { name, children: remove_at(c, path.drop_first()) },
            ),
            NodeModel::Building(_) => children,
        }
    }
}

/// `children` with `n` put in at the place `path`.
pub open spec fn insert_at(children: Seq<NodeModel>, path: Seq<usize>, n: NodeModel) -> Seq<
    NodeModel,
>
    decreases path.len(),
{
    if path.len() == 0 || path[0] > children.len() {
        children
    } else if path.len() == 1 {
        children.insert(path[0] as int, n)
    } else if path[0] == children.len() {
        children
    } else {
        match children[path[0] as int] {
            NodeModel::Group { name, children: c } => children.update(
                path[0] as int,
                NodeModel::Group { name, children: insert_at(c, path.drop_first(), n) },
            ),
            NodeModel::Building(_) => children,
        }
    }
}

/// Whether `a` is a leading part of `b`.
pub open spec fn is_prefix(a: Seq<usize>, b: Seq<usize>) -> bool {
    a.len() <= b.len() && b.subrange(0, a.len() as int) == a
}

/// Whether the place `dest` lies strictly inside the subtree at `src`.
pub open spec fn inside(src: Seq<usize>, dest: Seq<usize>) -> bool {
    src.len() < dest.len() && is_prefix(src, dest)
}

/// The place `dest` once the node at `src` has been taken out: an index at the
/// depth of `src`'s last index, under the same parent and after it, moves down by one.
pub open spec fn shifted(src: Seq<usize>, dest: Seq<usize>) -> Seq<usize> {
    let d = src.len() - 1;
    if 1 <= src.len() && d < dest.len() && is_prefix(src.subrange(0, d), dest) && src[d] < dest[d] {
        dest.update(d, (dest[d] - 1) as usize)
    } else {
        dest
    }
}

/// The children after moving the node at `src` to the place `dest`, or `None`
/// where the move is invalid or changes nothing: `src` addresses no node, `dest`
/// no place, `dest` lies inside the moved subtree, or the node would land where
/// it was.
pub open spec fn move_result(children: Seq<NodeModel>, src: Seq<usize>, dest: Seq<usize>) -> Option<
    Seq<NodeModel>,
> {
    if node_at(children, src) is Some && can_insert(children, dest) && !inside(src, dest) && shifted(
        src,
        dest,
    ) != src {
        Some(insert_at(remove_at(children, src), shifted(src, dest), node_at(children, src)->0))
    } else {
        None
    }
}

/// Taking out the node at `src` keeps every place outside its subtree valid,
/// once shifted.
pub proof fn lemma_can_insert_after_remove(children: Seq<NodeModel>, src: Seq<usize>, dest: Seq<usize>)
    requires
        node_at(children, src) is Some,
        can_insert(children, dest),
        !inside(src, dest),
    ensures
        can_insert(remove_at(children, src), shifted(src, dest)),
    decreases src.len(),
{
    let r = remove_at(children, src);
    let t = shifted(src, dest);
    let s0 = src[0];
    if src.len() == 1 {
        assert(src.subrange(0, 0) =~= Seq::<usize>::empty());
        assert(dest.subrange(0, 0) =~= Seq::<usize>::empty());
        if dest.len() > 1 {
            if dest[0] == s0 {
                assert(dest.subrange(0, 1) =~= src);
            }
            assert(t.drop_first() =~= dest.drop_first());
            if s0 < dest[0] {
                assert(r[t[0] as int] == children[dest[0] as int]);
            } else {
                assert(r[t[0] as int] == children[dest[0] as int]);
            }
        }
    } else {
        let d = src.len() - 1;
        let src1 = src.drop_first();
        if let NodeModel::Group { name, children: c } = children[s0 as int] {
            if dest.len() > 1 && dest[0] == s0 {
                let dest1 = dest.drop_first();
                if inside(src1, dest1) {
                    assert(dest.subrange(0, src.len() as int) =~= seq![s0] + dest1.subrange(
                        0,
                        src1.len() as int,
                    ));
                    assert(src =~= seq![s0] + src1);
                }
                lemma_can_insert_after_remove(c, src1, dest1);
                let pre = src.subrange(0, d);
                let pre_rest = src1.subrange(0, d - 1);
                assert(pre =~= seq![s0] + pre_rest);
                if d < dest.len() {
                    assert(dest.subrange(0, d) =~= seq![s0] + dest1.subrange(0, d - 1));
                    if is_prefix(pre, dest) {
                        assert forall|i: int| 0 <= i < d - 1 implies dest1.subrange(0, d - 1)[i]
                            == pre_rest[i] by {
                            assert(dest.subrange(0, d)[i + 1] == pre[i + 1]);
                        }
                        assert(dest1.subrange(0, d - 1) =~= pre_rest);
                    }
                    if is_prefix(pre_rest, dest1) {
                        assert(dest.subrange(0, d) =~= pre);
                    }
                }
                assert(t.drop_first() =~= shifted(src1, dest1));
                assert(t[0] == s0);
            } else if dest.len() > 1 {
                if d < dest.len() {
                    assert(src.subrange(0, d)[0] == s0);
                    assert(dest.subrange(0, d)[0] == dest[0]);
                }
                assert(t == dest);
            } else {
                assert(t == dest);
            }
        }
    }
}

/// The buildings at the leaves of `n`, with repetition.
pub open spec fn leaves(n: NodeModel) -> Multiset<Building>
    decreases n,
{
    match n {
        NodeModel::Group { children, .. } => leaves_of(children),
        NodeModel::Building(b) => Multiset::singleton(b),
    }
}

/// The buildings at the leaves of all of `s`, with repetition.
pub open spec fn leaves_of(s: Seq<NodeModel>) -> Multiset<Building>
    decreases s,
{
    if s.len() == 0 {
        Multiset::empty()
    } else {
        leaves_of(s.drop_last()).add(leaves(s.last()))
    }
}

proof fn lemma_leaves_concat(a: Seq<NodeModel>, b: Seq<NodeModel>)
    ensures
        leaves_of(a + b) == leaves_of(a).add(leaves_of(b)),
    decreases b.len(),
{
    if b.len() == 0 {
        assert(a + b =~= a);
        assert(leaves_of(a).add(leaves_of(b)) =~= leaves_of(a));
    } else {
        assert((a + b).drop_last() =~= a + b.drop_last());
        assert((a + b).last() == b.last());
        lemma_leaves_concat(a, b.drop_last());
        assert(leaves_of(a + b) =~= leaves_of(a).add(leaves_of(b)));
    }
}

/// The leaves of a sequence split at `i`: those before, those of `s[i]`, those after.
proof fn lemma_leaves_split(s: Seq<NodeModel>, i: int)
    requires
        0 <= i < s.len(),
    ensures
        leaves_of(s) == leaves_of(s.subrange(0, i)).add(leaves(s[i])).add(
            leaves_of(s.subrange(i + 1, s.len() as int)),
        ),
{
    let one = seq![s[i]];
    assert(one.drop_last() =~= Seq::<NodeModel>::empty());
    assert(leaves_of(one.drop_last()) == Multiset::<Building>::empty());
    assert(leaves_of(one) =~= leaves(s[i]));
    assert(s =~= s.subrange(0, i) + one + s.subrange(i + 1, s.len() as int));
    lemma_leaves_concat(s.subrange(0, i) + one, s.subrange(i + 1, s.len() as int));
    lemma_leaves_concat(s.subrange(0, i), one);
}

proof fn lemma_leaves_update(s: Seq<NodeModel>, i: int, x: NodeModel)
    requires
        0 <= i < s.len(),
    ensures
        leaves_of(s.update(i, x)).add(leaves(s[i])) == leaves_of(s).add(leaves(x)),
{
    let u = s.update(i, x);
    lemma_leaves_split(s, i);
    lemma_leaves_split(u, i);
    assert(u.subrange(0, i) =~= s.subrange(0, i));
    assert(u.subrange(i + 1, u.len() as int) =~= s.subrange(i + 1, s.len() as int));
    assert(leaves_of(u).add(leaves(s[i])) =~= leaves_of(s).add(leaves(x)));
}

proof fn lemma_leaves_remove(children: Seq<NodeModel>, path: Seq<usize>)
    requires
        node_at(children, path) is Some,
    ensures
        leaves_of(remove_at(children, path)).add(leaves(node_at(children, path)->0)) == leaves_of(
            children,
        ),
    decreases path.len(),
{
    let i = path[0] as int;
    if path.len() == 1 {
        let r = children.remove(i);
        lemma_leaves_split(children, i);
        assert(r =~= children.subrange(0, i) + children.subrange(i + 1, children.len() as int));
        lemma_leaves_concat(children.subrange(0, i), children.subrange(i + 1, children.len() as int));
        assert(leaves_of(r).add(leaves(children[i])) =~= leaves_of(children));
    } else {
        if let NodeModel::Group { name, children: c } = children[i] {
            let inner = NodeModel::Group { name, children: remove_at(c, path.drop_first()) };
            lemma_leaves_remove(c, path.drop_first());
            lemma_leaves_update(children, i, inner);
            assert(leaves(inner) == leaves_of(remove_at(c, path.drop_first())));
            assert(leaves(children[i]) == leaves_of(c));
            assert(remove_at(children, path) == children.update(i, inner));
            let m = node_at(children, path)->0;
            assert(m == node_at(c, path.drop_first())->0);
            let u = leaves_of(remove_at(children, path));
            let lr = leaves_of(remove_at(c, path.drop_first()));
            assert forall|x: Building| #[trigger] u.add(leaves(m)).count(x) == leaves_of(children).count(x) by {
                assert(u.add(leaves_of(c)).count(x) == leaves_of(children).add(lr).count(x));
                assert(lr.add(leaves(m)).count(x) == leaves_of(c).count(x));
            }
            assert(u.add(leaves(m)) =~= leaves_of(children));
        }
    }
}

proof fn lemma_leaves_insert(children: Seq<NodeModel>, path: Seq<usize>, n: NodeModel)
    requires
        can_insert(children, path),
    ensures
        leaves_of(insert_at(children, path, n)) == leaves_of(children).add(leaves(n)),
    decreases path.len(),
{
    let i = path[0] as int;
    if path.len() == 1 {
        let r = children.insert(i, n);
        let one = seq![n];
        assert(one.drop_last() =~= Seq::<NodeModel>::empty());
        assert(leaves_of(one.drop_last()) == Multiset::<Building>::empty());
        assert(leaves_of(one) =~= leaves(n));
        assert(r =~= children.subrange(0, i) + one + children.subrange(i, children.len() as int));
        assert(children =~= children.subrange(0, i) + children.subrange(i, children.len() as int));
        lemma_leaves_concat(children.subrange(0, i) + one, children.subrange(i, children.len() as int));
        lemma_leaves_concat(children.subrange(0, i), one);
        lemma_leaves_concat(children.subrange(0, i), children.subrange(i, children.len() as int));
        assert(leaves_of(r) =~= leaves_of(children).add(leaves(n)));
    } else {
        if let NodeModel::Group { name, children: c } = children[i] {
            let inner = NodeModel::Group { name, children: insert_at(c, path.drop_first(), n) };
            lemma_leaves_insert(c, path.drop_first(), n);
            lemma_leaves_update(children, i, inner);
            assert(leaves(inner) == leaves_of(insert_at(c, path.drop_first(), n)));
            assert(leaves(children[i]) == leaves_of(c));
            assert(insert_at(children, path, n) == children.update(i, inner));
            let u = leaves_of(insert_at(children, path, n));
            let li = leaves_of(insert_at(c, path.drop_first(), n));
            assert forall|x: Building| #[trigger] u.count(x) == leaves_of(children).add(leaves(n)).count(x) by {
                assert(u.add(leaves_of(c)).count(x) == leaves_of(children).add(li).count(x));
                assert(li.count(x) == leaves_of(c).add(leaves(n)).count(x));
            }
            assert(u =~= leaves_of(children).add(leaves(n)));
        }
    }
}

/// Moving a node to the place where it already is changes nothing.
pub proof fn lemma_move_to_same_place_is_noop(children: Seq<NodeModel>, p: Seq<usize>)
    ensures
        move_result(children, p, p) is None,
{
}

/// A move whose destination lies inside the moved subtree is rejected.
pub proof fn lemma_move_into_self_rejected(children: Seq<NodeModel>, src: Seq<usize>, dest: Seq<usize>)
    requires
        inside(src, dest),
    ensures
        move_result(children, src, dest) is None,
{
}

/// A move keeps the buildings of the tree, with their repetitions: only their
/// positions change.
pub proof fn lemma_move_conserves_leaves(children: Seq<NodeModel>, src: Seq<usize>, dest: Seq<usize>)
    requires
        move_result(children, src, dest) is Some,
    ensures
        leaves_of(move_result(children, src, dest)->0) == leaves_of(children),
{
    let m = node_at(children, src)->0;
    let r = remove_at(children, src);
    lemma_leaves_remove(children, src);
    lemma_can_insert_after_remove(children, src, dest);
    lemma_leaves_insert(r, shifted(src, dest), m);
}

} // verus!
