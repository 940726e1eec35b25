//! The per-node edit processor: it takes a message addressed to one node and
//! answers with what the node's parent must do.
use vstd::prelude::*;

use crate::database::Database;
use crate::edit::{
    add_child, added_child, change_building_identity, change_item, change_recipe, changed, copied_child,
    copy_child, delete_child, deleted_child, rejected, rename, renamed, replace_child, replaced_child,
    unchanged, with_identity, with_item, with_recipe, Edit, EditError, EditModel,
};
use crate::graph_manipulation::move_child;
use crate::ids::{BuildingId, ItemId, RecipeId};
use crate::node::{Node, NodeModel};
use crate::path::same_prefix;
use crate::text::trimmed;
use crate::tree::{is_prefix, move_result};

verus! {

/// What the processor knows of its node.
#[derive(Debug, PartialEq, Eq)]
pub struct Props {
    /// The node to process messages for.
    pub node: Node,
    /// Path to this node in the tree.
    pub path: Vec<usize>,
}

/// Messages which can be sent to a node.
#[derive(Debug, PartialEq, Eq)]
#[allow(inconsistent_fields)]
pub enum Msg {
    /// Replace the child at the given index with the specified node.
    ReplaceChild { idx: usize, replacement: Node },
    /// Delete the child at the specified index.
    DeleteChild { idx: usize },
    /// Copy the child at the specified index.
    CopyChild { idx: usize },
    /// Add the given node as a child at the end of the list.
    AddChild { child: Node },
    /// Rename this node.
    Rename { name: String },
    /// Another node is dragged over this one.
    DragOver { insert_pos: usize },
    /// A dragged node left this one.
    DragLeave,
    /// Move a node between positions; both paths are from the root.
    MoveNode { src_path: Vec<usize>, dest_path: Vec<usize> },
    /// Change the building type of this node.
    ChangeType { id: BuildingId },
    /// Change the recipe for the building, if a manufacturer.
    ChangeRecipe { id: RecipeId },
    /// Change the item for the building, if a generator, miner, or pump.
    ChangeItem { id: ItemId },
}

/// What the node asks of its parent.
#[derive(Debug, PartialEq, Eq)]
pub enum Emit {
    /// Nothing.
    Nothing,
    /// Put `node` in place of the child at `idx`, this node.
    Replace { idx: usize, node: Node },
    /// Carry out the move, which is not within this node.
    MoveNode { src_path: Vec<usize>, dest_path: Vec<usize> },
}

/// The processor's answer to a message.
#[derive(Debug, PartialEq, Eq)]
pub struct Response {
    /// Whether the node's own state changed.
    pub rerender: bool,
    /// What the parent must do.
    pub emit: Emit,
    /// What to report, if anything.
    pub diagnostic: Option<EditError>,
}

/// The processor of one node, with the drag state that it keeps.
#[derive(Debug, Default)]
pub struct NodeDisplay {
    /// While a drag is over this node's children, the proposed insert position.
    insert_pos: Option<usize>,
}

/// The index of a node in its parent, from its path; the root has index zero.
pub open spec fn own_index(path: Seq<usize>) -> usize {
    if path.len() == 0 {
        0
    } else {
        path.last()
    }
}

/// Moving the node at `src` to the place `dest`, both relative to the group `n`.
pub open spec fn moved(n: NodeModel, src: Seq<usize>, dest: Seq<usize>) -> EditModel {
    match n {
        NodeModel::Group { name, children } => match move_result(children, src, dest) {
            Some(c) => changed(NodeModel::Group { name, children: c }),
            None => rejected(EditError::DegenerateMove),
        },
        NodeModel::Building(_) => rejected(EditError::StructuralMismatch),
    }
}

/// What `msg` does to the node `n`, with the paths of a move relative to `n`.
pub open spec fn node_edit(n: NodeModel, db: Database, msg: Msg) -> EditModel {
    match msg {
        Msg::ReplaceChild { idx, replacement } => replaced_child(n, idx, replacement.model()),
        Msg::DeleteChild { idx } => deleted_child(n, idx),
        Msg::CopyChild { idx } => copied_child(n, idx),
        Msg::AddChild { child } => added_child(n, child.model()),
        Msg::Rename { name } => renamed(n, trimmed(name@)),
        Msg::DragOver { .. } => unchanged(),
        Msg::DragLeave => unchanged(),
        Msg::MoveNode { src_path, dest_path } => moved(n, src_path@, dest_path@),
        Msg::ChangeType { id } => with_identity(n, db, id),
        Msg::ChangeRecipe { id } => with_recipe(n, db, id),
        Msg::ChangeItem { id } => with_item(n, db, id),
    }
}

/// Whether `r` asks the parent to carry out the edit `e` for the node at index `idx`.
pub open spec fn answers(r: Response, e: EditModel, idx: usize) -> bool {
    &&& r.diagnostic == e.diagnostic
    &&& match e.replacement {
        Some(m) => r.emit matches Emit::Replace { idx: i, node } && i == idx && node.model() == m,
        None => r.emit is Nothing,
    }
}

/// Whether the node at `path` is where the move from `src` to `dest` is
/// resolved: it lies above both.
pub open spec fn resolves_move(path: Seq<usize>, src: Seq<usize>, dest: Seq<usize>) -> bool {
    path.len() < src.len() && is_prefix(path, src) && is_prefix(path, dest)
}

/// Whether `r` hands the move from `src` to `dest` on to the parent unchanged.
pub open spec fn forwards(r: Response, src: Seq<usize>, dest: Seq<usize>) -> bool {
    &&& r.diagnostic is None
    &&& r.emit matches Emit::MoveNode { src_path, dest_path }
    &&& src_path@ == src
    &&& dest_path@ == dest
}

/// What the node `n` at `path` answers to the move from `src` to `dest`, both
/// from the root.
pub open spec fn move_answer(r: Response, n: NodeModel, path: Seq<usize>, src: Seq<usize>, dest: Seq<usize>) -> bool {
    if resolves_move(path, src, dest) {
        answers(
            r,
            moved(
                n,
                src.subrange(path.len() as int, src.len() as int),
                dest.subrange(path.len() as int, dest.len() as int),
            ),
            own_index(path),
        )
    } else {
        forwards(r, src, dest)
    }
}

impl NodeDisplay {
    pub closed spec fn spec_insert_pos(&self) -> Option<usize> {
        self.insert_pos
    }

    /// A processor with no drag in progress.
    pub fn create() -> (r: NodeDisplay)
        ensures
            r.spec_insert_pos() is None,
    {
        NodeDisplay { insert_pos: None }
    }

    /// The proposed insert position of a drag over this node's children.
    pub fn insert_pos(&self) -> (r: Option<usize>)
        ensures
            r == self.spec_insert_pos(),
    {
        self.insert_pos
    }

    /// Handles `msg` for the node of `props`.
    pub fn update(&mut self, props: &Props, db: &Database, msg: Msg) -> (r: Response)
        requires
            db.wf(),
            msg matches Msg::MoveNode { dest_path, .. } ==> props.path@.len() < dest_path@.len(),
        ensures
            match msg {
                Msg::DragOver { insert_pos } => r.rerender && r.emit is Nothing && r.diagnostic is None
                    && final(self).spec_insert_pos() == Some(insert_pos),
                Msg::DragLeave => r.rerender && r.emit is Nothing && r.diagnostic is None
                    && final(self).spec_insert_pos() is None,
                Msg::MoveNode { src_path, dest_path } => {
                    &&& r.rerender == old(self).spec_insert_pos() is Some
                    &&& final(self).spec_insert_pos() is None
                    &&& move_answer(r, props.node.model(), props.path@, src_path@, dest_path@)
                },
                _ => {
                    &&& !r.rerender
                    &&& final(self).spec_insert_pos() == old(self).spec_insert_pos()
                    &&& answers(r, node_edit(props.node.model(), *db, msg), own_index(props.path@))
                },
            },
    {
        let our_idx: usize = if props.path.len() == 0 {
            0
        } else {
            props.path[props.path.len() - 1]
        };
        match msg {
            Msg::DragOver { insert_pos } => {
                self.insert_pos = Some(insert_pos);
                Response { rerender: true, emit: Emit::Nothing, diagnostic: None }
            },
            Msg::DragLeave => {
                self.insert_pos = None;
                Response { rerender: true, emit: Emit::Nothing, diagnostic: None }
            },
            Msg::MoveNode { src_path, dest_path } => {
                let rerender = self.insert_pos.is_some();
                self.insert_pos = None;
                let (emit, diagnostic) = route_move(props, src_path, dest_path);
                Response { rerender, emit, diagnostic }
            },
            msg => respond(edit_node(&props.node, db, msg), our_idx),
        }
    }
}

/// Applies `msg` to the node `node`; the paths of a move are relative to it.
pub fn edit_node(node: &Node, db: &Database, msg: Msg) -> (r: Edit)
    requires
        db.wf(),
    ensures
        r.model() == node_edit(node.model(), *db, msg),
{
    match msg {
        Msg::ReplaceChild { idx, replacement } => replace_child(node, idx, replacement),
        Msg::DeleteChild { idx } => delete_child(node, idx),
        Msg::CopyChild { idx } => copy_child(node, idx),
        Msg::AddChild { child } => add_child(node, child),
        Msg::Rename { name } => rename(node, name.as_str()),
        Msg::DragOver { .. } => Edit { replacement: None, diagnostic: None },
        Msg::DragLeave => Edit { replacement: None, diagnostic: None },
        Msg::MoveNode { src_path, dest_path } => move_within(node, src_path.as_slice(), dest_path.as_slice()),
        Msg::ChangeType { id } => change_building_identity(node, db, id),
        Msg::ChangeRecipe { id } => change_recipe(node, db, id),
        Msg::ChangeItem { id } => change_item(node, db, id),
    }
}

/// Moves the node at `src` to the place `dest`, both relative to `node`.
pub fn move_within(node: &Node, src: &[usize], dest: &[usize]) -> (r: Edit)
    ensures
        r.model() == moved(node.model(), src@, dest@),
{
    match node {
        Node::Group(group) => {
            proof {
                Node::lemma_group_model(group);
            }
            match move_child(group, src, dest) {
                Some(g) => {
                    proof {
                        Node::lemma_group_model(&g);
                    }
                    Edit { replacement: Some(Node::Group(g)), diagnostic: None }
                },
                None => Edit { replacement: None, diagnostic: Some(EditError::DegenerateMove) },
            }
        },
        Node::Building(_) => Edit { replacement: None, diagnostic: Some(EditError::StructuralMismatch) },
    }
}

/// The answer that carries out `e` for the node at index `idx`.
fn respond(e: Edit, idx: usize) -> (r: Response)
    ensures
        answers(r, e.model(), idx),
        !r.rerender,
{
    let emit = match e.replacement {
        Some(node) => Emit::Replace { idx, node },
        None => Emit::Nothing,
    };
    Response { rerender: false, emit, diagnostic: e.diagnostic }
}

/// The indices of `p` from `k` on.
fn suffix(p: &[usize], k: usize) -> (r: Vec<usize>)
    requires
        k <= p@.len(),
    ensures
        r@ == p@.subrange(k as int, p@.len() as int),
{
    let mut r: Vec<usize> = Vec::new();
    let mut i: usize = k;
    while i < p.len()
        invariant
            k <= i <= p@.len(),
            r@ == p@.subrange(k as int, i as int),
        decreases p@.len() - i,
    {
        r.push(p[i]);
        i += 1;
        assert(r@ =~= p@.subrange(k as int, i as int));
    }
    r
}

/// Resolves a move at the node of `props` where that node lies above both
/// paths, and hands it on to the parent otherwise.
fn route_move(props: &Props, src_path: Vec<usize>, dest_path: Vec<usize>) -> (r: (
    Emit,
    Option<EditError>,
))
    requires
        props.path@.len() < dest_path@.len(),
    ensures
        move_answer(
            Response { rerender: false, emit: r.0, diagnostic: r.1 },
            props.node.model(),
            props.path@,
            src_path@,
            dest_path@,
        ),
{
    let path = props.path.as_slice();
    let plen = path.len();
    let here = plen < src_path.len() && same_prefix(path, src_path.as_slice(), plen) && same_prefix(
        path,
        dest_path.as_slice(),
        plen,
    );
    proof {
        assert(path@.subrange(0, plen as int) =~= path@);
    }
    if !here {
        return (Emit::MoveNode { src_path, dest_path }, None);
    }
    let our_idx: usize = if plen == 0 {
        0
    } else {
        path[plen - 1]
    };
    let src = suffix(src_path.as_slice(), plen);
    let dest = suffix(dest_path.as_slice(), plen);
    let r = respond(move_within(&props.node, src.as_slice(), dest.as_slice()), our_idx);
    (r.emit, r.diagnostic)
}

} // verus!
