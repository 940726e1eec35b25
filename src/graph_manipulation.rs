//! The move engine: relocating a subtree within a group.
use vstd::prelude::*;

use crate::node::{models, Group, Node};
use crate::path::{is_inside, same_path, shift_place};
use crate::tree::{can_insert, insert_at, lemma_can_insert_after_remove, move_result, node_at, remove_at};

verus! {

/// The indices of `path` from `k` on.
pub open spec fn tail(path: Seq<usize>, k: int) -> Seq<usize> {
    path.subrange(k, path.len() as int)
}

pub(crate) proof fn lemma_tail_step(path: Seq<usize>, k: int)
    requires
        0 <= k < path.len(),
    ensures
        tail(path, k).drop_first() == tail(path, k + 1),
        tail(path, k)[0] == path[k],
        tail(path, k).len() == path.len() - k,
{
    assert(tail(path, k).drop_first() =~= tail(path, k + 1));
}

proof fn lemma_models_remove(s: Seq<Node>, i: int)
    requires
        0 <= i < s.len(),
    ensures
        models(s.remove(i)) == models(s).remove(i),
{
    assert(models(s.remove(i)) =~= models(s).remove(i));
}

proof fn lemma_models_insert(s: Seq<Node>, i: int, n: Node)
    requires
        0 <= i <= s.len(),
    ensures
        models(s.insert(i, n)) == models(s).insert(i, n.model()),
{
    assert(models(s.insert(i, n)) =~= models(s).insert(i, n.model()));
}

/// Whether `path[k..]` addresses a node among `children`.
fn has_node(children: &Vec<Node>, path: &[usize], k: usize) -> (r: bool)
    requires
        k <= path@.len(),
    ensures
        r == (node_at(models(children@), tail(path@, k as int)) is Some),
    decreases path@.len() - k,
{
    if k == path.len() {
        return false;
    }
    proof {
        lemma_tail_step(path@, k as int);
    }
    let i = path[k];
    if i >= children.len() {
        return false;
    }
    if k + 1 == path.len() {
        return true;
    }
    match &children[i] {
        Node::Group(g) => {
            proof {
                Node::lemma_group_model(g);
            }
            has_node(&g.children, path, k + 1)
        },
        Node::Building(_) => false,
    }
}

/// Whether `path[k..]` names a place to insert a node among `children`.
fn has_place(children: &Vec<Node>, path: &[usize], k: usize) -> (r: bool)
    requires
        k <= path@.len(),
    ensures
        r == can_insert(models(children@), tail(path@, k as int)),
    decreases path@.len() - k,
{
    if k == path.len() {
        return false;
    }
    proof {
        lemma_tail_step(path@, k as int);
    }
    let i = path[k];
    if k + 1 == path.len() {
        return i <= children.len();
    }
    if i >= children.len() {
        return false;
    }
    match &children[i] {
        Node::Group(g) => {
            proof {
                Node::lemma_group_model(g);
            }
            has_place(&g.children, path, k + 1)
        },
        Node::Building(_) => false,
    }
}

/// Takes the node at `path[k..]` out of `children`.
fn take_node(children: Vec<Node>, path: &[usize], k: usize) -> (r: (Vec<Node>, Node))
    requires
        k <= path@.len(),
        node_at(models(children@), tail(path@, k as int)) is Some,
    ensures
        models(r.0@) == remove_at(models(children@), tail(path@, k as int)),
        r.1.model() == node_at(models(children@), tail(path@, k as int))->0,
    decreases path@.len() - k,
{
    proof {
        lemma_tail_step(path@, k as int);
    }
    let ghost before = children@;
    let i = path[k];
    let mut children = children;
    let child = children.remove(i);
    proof {
        lemma_models_remove(before, i as int);
    }
    if k + 1 == path.len() {
        return (children, child);
    }
    match child {
        Node::Group(g) => {
            proof {
                Node::lemma_group_model(&g);
            }
            let name = g.name;
            let (inner, taken) = take_node(g.children, path, k + 1);
            let rebuilt = Group { name, children: inner };
            proof {
                Node::lemma_group_model(&rebuilt);
                lemma_models_insert(children@, i as int, Node::Group(rebuilt));
                assert(models(before).remove(i as int).insert(i as int, Node::Group(rebuilt).model())
                    =~= models(before).update(i as int, Node::Group(rebuilt).model()));
            }
            children.insert(i, Node::Group(rebuilt));
            (children, taken)
        },
        Node::Building(b) => {
            proof {
                assert(false);
            }
            (children, Node::Building(b))
        },
    }
}

/// Puts `n` in at the place `path[k..]` among `children`.
fn put_node(children: Vec<Node>, path: &[usize], k: usize, n: Node) -> (r: Vec<Node>)
    requires
        k <= path@.len(),
        can_insert(models(children@), tail(path@, k as int)),
    ensures
        models(r@) == insert_at(models(children@), tail(path@, k as int), n.model()),
    decreases path@.len() - k,
{
    proof {
        lemma_tail_step(path@, k as int);
    }
    let ghost before = children@;
    let i = path[k];
    let mut children = children;
    if k + 1 == path.len() {
        proof {
            lemma_models_insert(before, i as int, n);
        }
        children.insert(i, n);
        return children;
    }
    let child = children.remove(i);
    proof {
        lemma_models_remove(before, i as int);
    }
    match child {
        Node::Group(g) => {
            proof {
                Node::lemma_group_model(&g);
            }
            let name = g.name;
            let inner = put_node(g.children, path, k + 1, n);
            let rebuilt = Group { name, children: inner };
            proof {
                Node::lemma_group_model(&rebuilt);
                lemma_models_insert(children@, i as int, Node::Group(rebuilt));
                assert(models(before).remove(i as int).insert(i as int, Node::Group(rebuilt).model())
                    =~= models(before).update(i as int, Node::Group(rebuilt).model()));
            }
            children.insert(i, Node::Group(rebuilt));
            children
        },
        Node::Building(b) => {
            proof {
                assert(false);
            }
            children.insert(i, Node::Building(b));
            children
        },
    }
}

/// Moves the node at `src` to the place `dest`, both relative to `group`.
/// Returns `None` where the move is invalid or would change nothing.
pub fn move_child(group: &Group, src: &[usize], dest: &[usize]) -> (r: Option<Group>)
    ensures
        match r {
            Some(g) => g.name@ == group.name@ && move_result(models(group.children@), src@, dest@)
                == Some(models(g.children@)),
            None => move_result(models(group.children@), src@, dest@) is None,
        },
{
    proof {
        assert(tail(src@, 0) =~= src@);
        assert(tail(dest@, 0) =~= dest@);
    }
    if !has_node(&group.children, src, 0) || !has_place(&group.children, dest, 0) || is_inside(
        src,
        dest,
    ) {
        return None;
    }
    let place = shift_place(src, dest);
    if same_path(place.as_slice(), src) {
        return None;
    }
    let copy = group.duplicate();
    let ghost c = models(group.children@);
    proof {
        Node::lemma_group_model(group);
        Node::lemma_group_model(&copy);
        assert(models(copy.children@) == c);
    }
    let (rest, moved) = take_node(copy.children, src, 0);
    proof {
        lemma_can_insert_after_remove(c, src@, dest@);
        assert(tail(place@, 0) =~= place@);
    }
    let children = put_node(rest, place.as_slice(), 0, moved);
    Some(Group { name: copy.name, children })
}

/// `group` with the node at `src` moved to the place `dest`; `group` itself
/// where the move is invalid or would change nothing.
pub fn move_subtree(group: Group, src: &[usize], dest: &[usize]) -> (r: Group)
    ensures
        r.name@ == group.name@,
        models(r.children@) == match move_result(models(group.children@), src@, dest@) {
            Some(c) => c,
            None => models(group.children@),
        },
{
    match move_child(&group, src, dest) {
        Some(g) => g,
        None => group,
    }
}

} // verus!
