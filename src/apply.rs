//! Edits addressed by path from the root, applied to the whole tree at once.
use vstd::prelude::*;

use crate::database::Database;
use crate::edit::{changed, rejected, EditError, EditModel};
use crate::graph_manipulation::{lemma_tail_step, tail};
use crate::node::{models, Group, Node, NodeModel};
use crate::node_display::{edit_node, moved, node_edit, Msg};
use crate::tree::{insert_at, is_prefix, node_at, remove_at, shifted};
use crate::path::{resolve, resolved, PathError};

verus! {

/// `n` with the node that `path` addresses from it replaced by `x`.
pub open spec fn replaced_at(n: NodeModel, path: Seq<usize>, x: NodeModel) -> NodeModel
    decreases path.len(),
{
    if path.len() == 0 {
        x
    } else {
        match n {
            NodeModel::Group { name, children } => if path[0] < children.len() {
                NodeModel::Group {
                    name,
                    children: children.update(
                        path[0] as int,
                        replaced_at(children[path[0] as int], path.drop_first(), x),
                    ),
                }
            } else {
                n
            },
            NodeModel::Building(_) => n,
        }
    }
}

/// What `msg`, addressed to the node at `path` from `root`, does to the whole
/// tree: the node's edit, with its replacement put in place in `root`.
pub open spec fn tree_edit(root: NodeModel, path: Seq<usize>, db: Database, msg: Msg) -> EditModel {
    match resolved(root, path) {
        Ok(n) => {
            let e = node_edit(n, db, msg);
            EditModel {
                replacement: match e.replacement {
                    Some(x) => Some(replaced_at(root, path, x)),
                    None => None,
                },
                diagnostic: e.diagnostic,
            }
        },
        Err(PathError::OutOfRange) => rejected(EditError::IndexOutOfRange),
        Err(PathError::NotAGroup) => rejected(EditError::StructuralMismatch),
    }
}

/// `n` with the node at `path[k..]` replaced by `x`.
fn replace_at(n: Node, path: &[usize], k: usize, x: Node) -> (r: Node)
    requires
        k <= path@.len(),
        resolved(n.model(), tail(path@, k as int)) is Ok,
    ensures
        r.model() == replaced_at(n.model(), tail(path@, k as int), x.model()),
    decreases path@.len() - k,
{
    if k == path.len() {
        return x;
    }
    proof {
        lemma_tail_step(path@, k as int);
    }
    match n {
        Node::Group(g) => {
            proof {
                Node::lemma_group_model(&g);
            }
            let i = path[k];
            let Group { name, children } = g;
            let ghost before = children@;
            let mut children = children;
            let child = children.remove(i);
            let new_child = replace_at(child, path, k + 1, x);
            children.insert(i, new_child);
            let rebuilt = Group { name, children };
            proof {
                assert(children@ =~= before.update(i as int, new_child));
                assert(models(children@) =~= models(before).update(i as int, new_child.model()));
                Node::lemma_group_model(&rebuilt);
            }
            Node::Group(rebuilt)
        },
        Node::Building(_) => n,
    }
}

/// Applies `msg` to the node at `path` from `root`, and gives the resulting
/// tree (`root` itself where nothing changed) with the edit's diagnostic.
pub fn apply_edit(root: Node, path: &[usize], db: &Database, msg: Msg) -> (r: (Node, Option<EditError>))
    requires
        db.wf(),
    ensures
        r.0.model() == match tree_edit(root.model(), path@, *db, msg).replacement {
            Some(t) => t,
            None => root.model(),
        },
        r.1 == tree_edit(root.model(), path@, *db, msg).diagnostic,
{
    let e = match resolve(&root, path) {
        Ok(target) => edit_node(target, db, msg),
        Err(PathError::OutOfRange) => {
            return (root, Some(EditError::IndexOutOfRange));
        },
        Err(PathError::NotAGroup) => {
            return (root, Some(EditError::StructuralMismatch));
        },
    };
    proof {
        assert(tail(path@, 0) =~= path@);
    }
    match e.replacement {
        Some(x) => (replace_at(root, path, 0, x), e.diagnostic),
        None => (root, e.diagnostic),
    }
}

proof fn lemma_prefix_step(a: Seq<usize>, b: Seq<usize>)
    requires
        a.len() >= 1,
        b.len() >= 1,
        a[0] == b[0],
    ensures
        is_prefix(a, b) == is_prefix(a.drop_first(), b.drop_first()),
{
    let a1 = a.drop_first();
    let b1 = b.drop_first();
    if a.len() <= b.len() {
        if is_prefix(a, b) {
            assert forall|k: int| 0 <= k < a1.len() implies b1.subrange(0, a1.len() as int)[k] == a1[k] by {
                assert(b.subrange(0, a.len() as int)[k + 1] == a[k + 1]);
            }
            assert(b1.subrange(0, a1.len() as int) =~= a1);
        }
        if is_prefix(a1, b1) {
            assert forall|k: int| 0 <= k < a.len() implies b.subrange(0, a.len() as int)[k] == a[k] by {
                if k > 0 {
                    assert(b1.subrange(0, a1.len() as int)[k - 1] == a1[k - 1]);
                }
            }
            assert(b.subrange(0, a.len() as int) =~= a);
        }
    }
}

/// A move whose paths share their first index is the move one level down,
/// inside the group at that index.
proof fn lemma_move_step(name: Seq<char>, c: Seq<NodeModel>, src: Seq<usize>, dest: Seq<usize>)
    requires
        src.len() >= 2,
        dest.len() >= 2,
        src[0] == dest[0],
        src[0] < c.len(),
        c[src[0] as int] is Group,
    ensures
        moved(NodeModel::Group { name, children: c }, src, dest) == match moved(
            c[src[0] as int],
            src.drop_first(),
            dest.drop_first(),
        ).replacement {
            Some(x) => changed(NodeModel::Group { name, children: c.update(src[0] as int, x) }),
            None => rejected(EditError::DegenerateMove),
        },
{
    let i = src[0];
    let src1 = src.drop_first();
    let dest1 = dest.drop_first();
    if let NodeModel::Group { name: n2, children: c2 } = c[i as int] {
        lemma_prefix_step(src, dest);
        let d = src.len() - 1;
        let pre = src.subrange(0, d);
        assert(pre.len() >= 1 && pre[0] == i);
        assert(pre.drop_first() =~= src1.subrange(0, d - 1));
        if d < dest.len() {
            lemma_prefix_step(pre, dest);
        }
        let t = shifted(src, dest);
        let t1 = shifted(src1, dest1);
        assert(t =~= seq![i] + t1);
        assert(src =~= seq![i] + src1);
        if t1 == src1 {
            assert(t == src);
        }
        if t == src {
            assert(t1 =~= t.drop_first());
        }
        assert(t.drop_first() =~= t1);
        let r2 = remove_at(c2, src1);
        let r = remove_at(c, src);
        assert(r == c.update(i as int, NodeModel::Group { name: n2, children: r2 }));
        let m = node_at(c, src);
        assert(m == node_at(c2, src1));
        if m is Some {
            let ins = insert_at(r, t, m->0);
            assert(ins =~= c.update(
                i as int,
                NodeModel::Group { name: n2, children: insert_at(r2, t1, m->0) },
            ));
        }
    }
}

/// Resolving a move at a group that lies above both of its paths, and putting
/// the result in place, gives the tree that resolving it at the root gives.
pub proof fn lemma_move_at_ancestor_matches_root(
    root: NodeModel,
    path: Seq<usize>,
    src: Seq<usize>,
    dest: Seq<usize>,
)
    requires
        resolved(root, path) matches Ok(n) && n is Group,
        path.len() < src.len(),
        path.len() < dest.len(),
        is_prefix(path, src),
        is_prefix(path, dest),
    ensures
        moved(root, src, dest) == match moved(
            resolved(root, path)->Ok_0,
            src.subrange(path.len() as int, src.len() as int),
            dest.subrange(path.len() as int, dest.len() as int),
        ).replacement {
            Some(x) => changed(replaced_at(root, path, x)),
            None => rejected(EditError::DegenerateMove),
        },
    decreases path.len(),
{
    if path.len() == 0 {
        assert(src.subrange(0, src.len() as int) =~= src);
        assert(dest.subrange(0, dest.len() as int) =~= dest);
    } else {
        if let NodeModel::Group { name, children: c } = root {
            let i = path[0];
            let child = c[i as int];
            let p1 = path.drop_first();
            lemma_prefix_step(path, src);
            lemma_prefix_step(path, dest);
            assert(src[0] == i) by {
                assert(src.subrange(0, path.len() as int)[0] == path[0]);
            }
            assert(dest[0] == i) by {
                assert(dest.subrange(0, path.len() as int)[0] == path[0]);
            }
            lemma_move_at_ancestor_matches_root(child, p1, src.drop_first(), dest.drop_first());
            assert(src.drop_first().subrange(p1.len() as int, src.len() - 1) =~= src.subrange(
                path.len() as int,
                src.len() as int,
            ));
            assert(dest.drop_first().subrange(p1.len() as int, dest.len() - 1) =~= dest.subrange(
                path.len() as int,
                dest.len() as int,
            ));
            lemma_move_step(name, c, src, dest);
        }
    }
}

} // verus!
