//! Executable paths: comparing them, and the shift a removal makes in them.
use vstd::prelude::*;

use crate::node::{models, Node, NodeModel};
use crate::tree::{inside, is_prefix, shifted};

verus! {

/// Whether the first `n` indices of `a` and `b` agree.
pub fn same_prefix(a: &[usize], b: &[usize], n: usize) -> (r: bool)
    requires
        n <= a@.len(),
        n <= b@.len(),
    ensures
        r == (a@.subrange(0, n as int) == b@.subrange(0, n as int)),
{
    let mut i: usize = 0;
    while i < n
        invariant
            n <= a@.len(),
            n <= b@.len(),
            i <= n,
            forall|j: int| 0 <= j < i ==> a@[j] == b@[j],
        decreases n - i,
    {
        if a[i] != b[i] {
            assert(a@.subrange(0, n as int)[i as int] != b@.subrange(0, n as int)[i as int]);
            return false;
        }
        i += 1;
    }
    assert(a@.subrange(0, n as int) =~= b@.subrange(0, n as int));
    true
}

/// Whether `a` and `b` are the same path.
pub fn same_path(a: &[usize], b: &[usize]) -> (r: bool)
    ensures
        r == (a@ == b@),
{
    if a.len() != b.len() {
        return false;
    }
    let r = same_prefix(a, b, a.len());
    assert(a@.subrange(0, a@.len() as int) =~= a@);
    assert(b@.subrange(0, b@.len() as int) =~= b@);
    r
}

/// The length of the longest run of leading indices that `a` and `b` share.
pub fn common_prefix_length(a: &[usize], b: &[usize]) -> (r: usize)
    ensures
        r <= a@.len(),
        r <= b@.len(),
        a@.subrange(0, r as int) == b@.subrange(0, r as int),
        r == a@.len() || r == b@.len() || a@[r as int] != b@[r as int],
{
    let mut i: usize = 0;
    while i < a.len() && i < b.len() && a[i] == b[i]
        invariant
            i <= a@.len(),
            i <= b@.len(),
            a@.subrange(0, i as int) == b@.subrange(0, i as int),
        decreases a@.len() - i,
    {
        assert(a@.subrange(0, i + 1) =~= a@.subrange(0, i as int).push(a@[i as int]));
        assert(b@.subrange(0, i + 1) =~= b@.subrange(0, i as int).push(b@[i as int]));
        i += 1;
    }
    i
}

/// Whether the place `dest` lies strictly inside the subtree at `src`.
pub fn is_inside(src: &[usize], dest: &[usize]) -> (r: bool)
    ensures
        r == inside(src@, dest@),
{
    if src.len() >= dest.len() {
        return false;
    }
    let r = same_prefix(src, dest, src.len());
    assert(src@.subrange(0, src@.len() as int) =~= src@);
    r
}

/// A copy of `p`.
pub fn copy_path(p: &[usize]) -> (r: Vec<usize>)
    ensures
        r@ == p@,
{
    let mut r: Vec<usize> = Vec::with_capacity(p.len());
    let mut i: usize = 0;
    while i < p.len()
        invariant
            i <= p@.len(),
            r@ == p@.subrange(0, i as int),
        decreases p@.len() - i,
    {
        r.push(p[i]);
        i += 1;
        assert(r@ =~= p@.subrange(0, i as int));
    }
    assert(p@.subrange(0, p@.len() as int) =~= p@);
    r
}

/// The place `dest` once the node at `src` has been taken out.
pub fn shift_place(src: &[usize], dest: &[usize]) -> (r: Vec<usize>)
    ensures
        r@ == shifted(src@, dest@),
{
    let mut r = copy_path(dest);
    if src.len() >= 1 {
        let d = src.len() - 1;
        if d < dest.len() && same_prefix(src, dest, d) && src[d] < dest[d] {
            assert(src@.subrange(0, d as int).len() == d);
            assert(is_prefix(src@.subrange(0, d as int), dest@));
            r.set(d, dest[d] - 1);
        } else {
            assert(!is_prefix(src@.subrange(0, d as int), dest@) || !(d < dest@.len()) || !(src@[d as int] < dest@[d as int]));
        }
    }
    r
}

/// Why a path addresses no node.
#[derive(Clone, Copy, Debug, PartialEq, Eq, Structural)]
pub enum PathError {
    /// An index is past the end of its group's children.
    OutOfRange,
    /// An index other than the last one reaches a building, which has no children.
    NotAGroup,
}

/// The node that `path` addresses from `n`; the empty path addresses `n` itself.
pub open spec fn resolved(n: NodeModel, path: Seq<usize>) -> Result<NodeModel, PathError>
    decreases path.len(),
{
    if path.len() == 0 {
        Ok(n)
    } else {
        match n {
            NodeModel::Group { children, .. } => if path[0] < children.len() {
                resolved(children[path[0] as int], path.drop_first())
            } else {
                Err(PathError::OutOfRange)
            },
            NodeModel::Building(_) => Err(PathError::NotAGroup),
        }
    }
}

/// The node that `path` addresses from `root`.
pub fn resolve<'a>(root: &'a Node, path: &[usize]) -> (r: Result<&'a Node, PathError>)
    ensures
        match r {
            Ok(n) => resolved(root.model(), path@) == Ok::<NodeModel, PathError>(n.model()),
            Err(e) => resolved(root.model(), path@) == Err::<NodeModel, PathError>(e),
        },
{
    let mut cur = root;
    let mut k: usize = 0;
    proof {
        assert(path@.subrange(0, path@.len() as int) =~= path@);
    }
    while k < path.len()
        invariant
            k <= path@.len(),
            resolved(root.model(), path@) == resolved(cur.model(), path@.subrange(k as int, path@.len() as int)),
        decreases path@.len() - k,
    {
        let ghost rest = path@.subrange(k as int, path@.len() as int);
        proof {
            assert(rest.drop_first() =~= path@.subrange(k + 1, path@.len() as int));
        }
        match cur {
            Node::Group(g) => {
                proof {
                    Node::lemma_group_model(g);
                }
                let i = path[k];
                if i >= g.children.len() {
                    return Err(PathError::OutOfRange);
                }
                proof {
                    assert(models(g.children@)[i as int] == g.children@[i as int].model());
                }
                cur = &g.children[i];
            },
            Node::Building(_) => {
                return Err(PathError::NotAGroup);
            },
        }
        k += 1;
    }
    proof {
        assert(path@.subrange(k as int, path@.len() as int) =~= Seq::<usize>::empty());
    }
    Ok(cur)
}

} // verus!
