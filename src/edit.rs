//! The edits that a node accepts, each computing the node's replacement value.
use vstd::prelude::*;

use crate::database::{contains_item, contains_recipe, BuildingKind, Database};
use crate::ids::{BuildingId, BuildingKindId, ItemId, RecipeId};
use crate::node::{models, Building, Node, NodeModel};
use crate::settings::{
    BuildingSettings, GeneratorSettings, ManufacturerSettings, MinerSettings, PumpSettings,
};
use crate::text::{trim_name, trimmed};

verus! {

/// Why an edit was rejected, or what went wrong while it was applied.
#[derive(Clone, Copy, Debug, PartialEq, Eq, Structural)]
pub enum EditError {
    /// The edit is for groups and the node is a building, or the other way round.
    StructuralMismatch,
    /// A child index or path segment is past the end.
    IndexOutOfRange,
    /// The selection is not allowed for the building, or the building id is unknown.
    InvalidSelection,
    /// The move would put a node inside itself, or changes nothing.
    DegenerateMove,
    /// The settings did not match the building's kind and were rebuilt.
    InvariantRepair,
}

/// What an edit produced: the node's replacement value, if it changed, and a
/// diagnostic, if there is one to report.
#[derive(Debug, PartialEq, Eq)]
pub struct Edit {
    pub replacement: Option<Node>,
    pub diagnostic: Option<EditError>,
}

/// The value of an [`Edit`].
pub struct EditModel {
    pub replacement: Option<NodeModel>,
    pub diagnostic: Option<EditError>,
}

impl Edit {
    pub open spec fn model(&self) -> EditModel {
        EditModel {
            replacement: match self.replacement {
                Some(n) => Some(n.model()),
                None => None,
            },
            diagnostic: self.diagnostic,
        }
    }
}

/// The node is replaced by `n`.
pub open spec fn changed(n: NodeModel) -> EditModel {
    EditModel { replacement: Some(n), diagnostic: None }
}

/// The node stays as it is, and `e` is reported.
pub open spec fn rejected(e: EditError) -> EditModel {
    EditModel { replacement: None, diagnostic: Some(e) }
}

/// The node stays as it is, with nothing to report.
pub open spec fn unchanged() -> EditModel {
    EditModel { replacement: None, diagnostic: None }
}

/// Replacing child `idx` of a group by `x`.
pub open spec fn replaced_child(n: NodeModel, idx: usize, x: NodeModel) -> EditModel {
    match n {
        NodeModel::Group { name, children } => if idx < children.len() {
            changed(NodeModel::Group { name, children: children.update(idx as int, x) })
        } else {
            rejected(EditError::IndexOutOfRange)
        },
        NodeModel::Building(_) => rejected(EditError::StructuralMismatch),
    }
}

/// Deleting child `idx` of a group.
pub open spec fn deleted_child(n: NodeModel, idx: usize) -> EditModel {
    match n {
        NodeModel::Group { name, children } => if idx < children.len() {
            changed(NodeModel::Group { name, children: children.remove(idx as int) })
        } else {
            rejected(EditError::IndexOutOfRange)
        },
        NodeModel::Building(_) => rejected(EditError::StructuralMismatch),
    }
}

/// Copying child `idx` of a group to just after it.
pub open spec fn copied_child(n: NodeModel, idx: usize) -> EditModel {
    match n {
        NodeModel::Group { name, children } => if idx < children.len() {
            changed(
                NodeModel::Group {
                    name,
                    children: children.insert(idx + 1, children[idx as int]),
                },
            )
        } else {
            rejected(EditError::IndexOutOfRange)
        },
        NodeModel::Building(_) => rejected(EditError::StructuralMismatch),
    }
}

/// Adding `x` as the last child of a group.
pub open spec fn added_child(n: NodeModel, x: NodeModel) -> EditModel {
    match n {
        NodeModel::Group { name, children } => changed(
            NodeModel::Group { name, children: children.push(x) },
        ),
        NodeModel::Building(_) => rejected(EditError::StructuralMismatch),
    }
}

/// Renaming a group to `new_name`, already trimmed.
pub open spec fn renamed(n: NodeModel, new_name: Seq<char>) -> EditModel {
    match n {
        NodeModel::Group { name, children } => if new_name == name {
            unchanged()
        } else {
            changed(NodeModel::Group { name: new_name, children })
        },
        NodeModel::Building(_) => rejected(EditError::StructuralMismatch),
    }
}

/// Giving a building the identity `id`, with its settings reconciled to the
/// kind of `id` where the database knows it.
pub open spec fn with_identity(n: NodeModel, db: Database, id: BuildingId) -> EditModel {
    match n {
        NodeModel::Building(b) => if b.building == Some(id) {
            unchanged()
        } else {
            match db.kind_of(id) {
                Some(k) => changed(
                    NodeModel::Building(
                        Building { building: Some(id), settings: b.settings.reconciled(k) },
                    ),
                ),
                None => EditModel {
                    replacement: Some(
                        NodeModel::Building(Building { building: Some(id), settings: b.settings }),
                    ),
                    diagnostic: Some(EditError::InvalidSelection),
                },
            }
        },
        NodeModel::Group { .. } => rejected(EditError::StructuralMismatch),
    }
}

/// The building `b` with new settings `s`, reported as a repair where the old
/// settings were not of kind `k`.
pub open spec fn resettled(b: Building, s: BuildingSettings, k: BuildingKindId) -> EditModel {
    EditModel {
        replacement: Some(NodeModel::Building(Building { building: b.building, settings: s })),
        diagnostic: if b.settings.spec_kind() == k {
            None
        } else {
            Some(EditError::InvariantRepair)
        },
    }
}

/// Selecting recipe `id` for a building that the database knows as a
/// manufacturer offering it; the clock speed is kept.
pub open spec fn with_recipe(n: NodeModel, db: Database, id: RecipeId) -> EditModel {
    match n {
        NodeModel::Building(b) => match b.building {
            Some(bid) => if db.has(bid) {
                match db.entry(bid).kind {
                    BuildingKind::Manufacturer { available_recipes } => if available_recipes@.contains(
                        id,
                    ) {
                        resettled(
                            b,
                            BuildingSettings::Manufacturer(
                                ManufacturerSettings {
                                    recipe: Some(id),
                                    clock_speed: b.settings.spec_clock_speed(),
                                },
                            ),
                            BuildingKindId::Manufacturer,
                        )
                    } else {
                        rejected(EditError::InvalidSelection)
                    },
                    _ => rejected(EditError::InvalidSelection),
                }
            } else {
                rejected(EditError::InvalidSelection)
            },
            None => rejected(EditError::InvalidSelection),
        },
        NodeModel::Group { .. } => rejected(EditError::StructuralMismatch),
    }
}

/// The settings of a miner, generator or pump selecting `item`.
pub open spec fn item_settings(kind: BuildingKindId, item: ItemId, clock_speed: u32) -> BuildingSettings {
    match kind {
        BuildingKindId::Generator => BuildingSettings::Generator(
            GeneratorSettings { fuel: Some(item), clock_speed },
        ),
        BuildingKindId::Pump => BuildingSettings::Pump(PumpSettings { resource: Some(item), clock_speed }),
        _ => BuildingSettings::Miner(MinerSettings { resource: Some(item), clock_speed }),
    }
}

/// The items that a building kind may select, with the kind, where it selects items.
pub open spec fn item_choices(kind: BuildingKind) -> Option<(BuildingKindId, Seq<ItemId>)> {
    match kind {
        BuildingKind::Miner { allowed_resources } => Some((BuildingKindId::Miner, allowed_resources@)),
        BuildingKind::Generator { allowed_fuel } => Some((BuildingKindId::Generator, allowed_fuel@)),
        BuildingKind::Pump { allowed_resources } => Some((BuildingKindId::Pump, allowed_resources@)),
        BuildingKind::Manufacturer { .. } => None,
    }
}

/// Selecting item `id` (resource or fuel) for a building that the database knows
/// as a miner, generator or pump allowing it; the clock speed is kept.
pub open spec fn with_item(n: NodeModel, db: Database, id: ItemId) -> EditModel {
    match n {
        NodeModel::Building(b) => match b.building {
            Some(bid) => if db.has(bid) {
                match item_choices(db.entry(bid).kind) {
                    Some((k, allowed)) => if allowed.contains(id) {
                        resettled(b, item_settings(k, id, b.settings.spec_clock_speed()), k)
                    } else {
                        rejected(EditError::InvalidSelection)
                    },
                    None => rejected(EditError::InvalidSelection),
                }
            } else {
                rejected(EditError::InvalidSelection)
            },
            None => rejected(EditError::InvalidSelection),
        },
        NodeModel::Group { .. } => rejected(EditError::StructuralMismatch),
    }
}

fn keep() -> (r: Edit)
    ensures
        r.model() == unchanged(),
{
    Edit { replacement: None, diagnostic: None }
}

fn reject(e: EditError) -> (r: Edit)
    ensures
        r.model() == rejected(e),
{
    Edit { replacement: None, diagnostic: Some(e) }
}

fn change(n: Node) -> (r: Edit)
    ensures
        r.model() == changed(n.model()),
{
    Edit { replacement: Some(n), diagnostic: None }
}

/// Replaces child `idx` of a group by `replacement`.
pub fn replace_child(node: &Node, idx: usize, replacement: Node) -> (r: Edit)
    ensures
        r.model() == replaced_child(node.model(), idx, replacement.model()),
{
    match node {
        Node::Group(g) => {
            proof {
                Node::lemma_group_model(g);
            }
            if idx < g.children.len() {
                let mut ng = g.duplicate();
                let ghost before = ng.children@;
                ng.children.set(idx, replacement);
                proof {
                    assert(models(ng.children@) =~= models(before).update(idx as int, replacement.model()));
                    Node::lemma_group_model(&ng);
                }
                change(Node::Group(ng))
            } else {
                reject(EditError::IndexOutOfRange)
            }
        },
        Node::Building(_) => reject(EditError::StructuralMismatch),
    }
}

/// Deletes child `idx` of a group.
pub fn delete_child(node: &Node, idx: usize) -> (r: Edit)
    ensures
        r.model() == deleted_child(node.model(), idx),
{
    match node {
        Node::Group(g) => {
            proof {
                Node::lemma_group_model(g);
            }
            if idx < g.children.len() {
                let mut ng = g.duplicate();
                let ghost before = ng.children@;
                ng.children.remove(idx);
                proof {
                    assert(models(ng.children@) =~= models(before).remove(idx as int));
                    Node::lemma_group_model(&ng);
                }
                change(Node::Group(ng))
            } else {
                reject(EditError::IndexOutOfRange)
            }
        },
        Node::Building(_) => reject(EditError::StructuralMismatch),
    }
}

/// Inserts a copy of child `idx` of a group just after it.
pub fn copy_child(node: &Node, idx: usize) -> (r: Edit)
    ensures
        r.model() == copied_child(node.model(), idx),
{
    match node {
        Node::Group(g) => {
            proof {
                Node::lemma_group_model(g);
            }
            if idx < g.children.len() {
                let mut ng = g.duplicate();
                let ghost before = ng.children@;
                let copied = ng.children[idx].duplicate();
                ng.children.insert(idx + 1, copied);
                proof {
                    assert(models(ng.children@) =~= models(before).insert(
                        idx + 1,
                        models(before)[idx as int],
                    ));
                    Node::lemma_group_model(&ng);
                }
                change(Node::Group(ng))
            } else {
                reject(EditError::IndexOutOfRange)
            }
        },
        Node::Building(_) => reject(EditError::StructuralMismatch),
    }
}

/// Appends `child` to the children of a group.
pub fn add_child(node: &Node, child: Node) -> (r: Edit)
    ensures
        r.model() == added_child(node.model(), child.model()),
{
    match node {
        Node::Group(g) => {
            proof {
                Node::lemma_group_model(g);
            }
            let mut ng = g.duplicate();
            let ghost before = ng.children@;
            ng.children.push(child);
            proof {
                assert(models(ng.children@) =~= models(before).push(child.model()));
                Node::lemma_group_model(&ng);
            }
            change(Node::Group(ng))
        },
        Node::Building(_) => reject(EditError::StructuralMismatch),
    }
}

/// Renames a group to `new_name`, taken as it is.
pub fn rename_trimmed(node: &Node, new_name: String) -> (r: Edit)
    ensures
        r.model() == renamed(node.model(), new_name@),
{
    match node {
        Node::Group(g) => {
            proof {
                Node::lemma_group_model(g);
            }
            if new_name == g.name {
                keep()
            } else {
                let mut ng = g.duplicate();
                ng.name = new_name;
                proof {
                    Node::lemma_group_model(&ng);
                }
                change(Node::Group(ng))
            }
        },
        Node::Building(_) => reject(EditError::StructuralMismatch),
    }
}

/// Renames a group to `new_name` without its surrounding whitespace.
pub fn rename(node: &Node, new_name: &str) -> (r: Edit)
    ensures
        r.model() == renamed(node.model(), trimmed(new_name@)),
{
    let t = trim_name(new_name);
    rename_trimmed(node, t)
}

/// Gives a building the identity `id`, reconciling its settings with the kind
/// of `id`.
pub fn change_building_identity(node: &Node, db: &Database, id: BuildingId) -> (r: Edit)
    requires
        db.wf(),
    ensures
        r.model() == with_identity(node.model(), *db, id),
{
    match node {
        Node::Building(b) => {
            if let Some(cur) = b.building {
                if cur.0 == id.0 {
                    return keep();
                }
            }
            match db.get(id) {
                Some(t) => {
                    let settings = b.settings.build_new_settings(t.kind.kind_id());
                    change(Node::Building(Building { building: Some(id), settings }))
                },
                None => Edit {
                    replacement: Some(Node::Building(Building { building: Some(id), settings: b.settings })),
                    diagnostic: Some(EditError::InvalidSelection),
                },
            }
        },
        Node::Group(_) => reject(EditError::StructuralMismatch),
    }
}

/// The building `b` with settings `settings`, reporting a repair where `b`'s
/// settings were not of kind `k`.
fn resettle(b: &Building, settings: BuildingSettings, k: BuildingKindId) -> (r: Edit)
    ensures
        r.model() == resettled(*b, settings, k),
{
    let diagnostic = if b.settings.kind_id() == k {
        None
    } else {
        Some(EditError::InvariantRepair)
    };
    Edit { replacement: Some(Node::Building(Building { building: b.building, settings })), diagnostic }
}

/// Selects recipe `id` for a manufacturer that offers it.
pub fn change_recipe(node: &Node, db: &Database, id: RecipeId) -> (r: Edit)
    requires
        db.wf(),
    ensures
        r.model() == with_recipe(node.model(), *db, id),
{
    let b = match node {
        Node::Building(b) => b,
        Node::Group(_) => {
            return reject(EditError::StructuralMismatch);
        },
    };
    let bid = match b.building {
        Some(bid) => bid,
        None => {
            return reject(EditError::InvalidSelection);
        },
    };
    let t = match db.get(bid) {
        Some(t) => t,
        None => {
            return reject(EditError::InvalidSelection);
        },
    };
    match &t.kind {
        BuildingKind::Manufacturer { available_recipes } => {
            if !contains_recipe(available_recipes, id) {
                return reject(EditError::InvalidSelection);
            }
            let settings = BuildingSettings::Manufacturer(
                ManufacturerSettings { recipe: Some(id), clock_speed: b.settings.clock_speed() },
            );
            resettle(b, settings, BuildingKindId::Manufacturer)
        },
        _ => reject(EditError::InvalidSelection),
    }
}

/// Selects item `id` for a miner, generator or pump that allows it.
pub fn change_item(node: &Node, db: &Database, id: ItemId) -> (r: Edit)
    requires
        db.wf(),
    ensures
        r.model() == with_item(node.model(), *db, id),
{
    let b = match node {
        Node::Building(b) => b,
        Node::Group(_) => {
            return reject(EditError::StructuralMismatch);
        },
    };
    let bid = match b.building {
        Some(bid) => bid,
        None => {
            return reject(EditError::InvalidSelection);
        },
    };
    let t = match db.get(bid) {
        Some(t) => t,
        None => {
            return reject(EditError::InvalidSelection);
        },
    };
    let clock_speed = b.settings.clock_speed();
    match &t.kind {
        BuildingKind::Miner { allowed_resources } => {
            if !contains_item(allowed_resources, id) {
                return reject(EditError::InvalidSelection);
            }
            let settings = BuildingSettings::Miner(MinerSettings { resource: Some(id), clock_speed });
            resettle(b, settings, BuildingKindId::Miner)
        },
        BuildingKind::Generator { allowed_fuel } => {
            if !contains_item(allowed_fuel, id) {
                return reject(EditError::InvalidSelection);
            }
            let settings = BuildingSettings::Generator(GeneratorSettings { fuel: Some(id), clock_speed });
            resettle(b, settings, BuildingKindId::Generator)
        },
        BuildingKind::Pump { allowed_resources } => {
            if !contains_item(allowed_resources, id) {
                return reject(EditError::InvalidSelection);
            }
            let settings = BuildingSettings::Pump(PumpSettings { resource: Some(id), clock_speed });
            resettle(b, settings, BuildingKindId::Pump)
        },
        BuildingKind::Manufacturer { .. } => reject(EditError::InvalidSelection),
    }
}

/// Whether `b`'s settings have the shape of its building's kind, where the
/// database knows that building.
pub open spec fn settings_match(b: Building, db: Database) -> bool {
    match b.building {
        Some(id) => match db.kind_of(id) {
            Some(k) => b.settings.spec_kind() == k,
            None => true,
        },
        None => true,
    }
}

/// Whether the edit `e` leaves a building whose settings match its kind.
pub open spec fn keeps_shape(e: EditModel, db: Database) -> bool {
    e.replacement matches Some(NodeModel::Building(b)) ==> settings_match(b, db)
}

/// A change of identity, recipe or item leaves the building's settings in the
/// shape of its kind; where the new identity is unknown, the settings stay as
/// they were.
pub proof fn lemma_identity_edits_keep_settings_shape(
    n: NodeModel,
    db: Database,
    building: BuildingId,
    recipe: RecipeId,
    item: ItemId,
)
    ensures
        keeps_shape(with_identity(n, db, building), db),
        keeps_shape(with_recipe(n, db, recipe), db),
        keeps_shape(with_item(n, db, item), db),
        n matches NodeModel::Building(b) ==> (db.kind_of(building) is None && b.building != Some(
            building,
        ) ==> with_identity(n, db, building).replacement == Some(
            NodeModel::Building(Building { building: Some(building), settings: b.settings }),
        )),
{
    if let NodeModel::Building(b) = n {
        if let Some(bid) = b.building {
            if db.has(bid) {
                let kind = db.entry(bid).kind;
                match kind {
                    BuildingKind::Manufacturer { .. } => {},
                    BuildingKind::Miner { .. } => {},
                    BuildingKind::Generator { .. } => {},
                    BuildingKind::Pump { .. } => {},
                }
            }
        }
    }
}

} // verus!
