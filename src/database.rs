//! The read-only lookup from building ids to building types.
use vstd::prelude::*;

use crate::ids::{BuildingId, BuildingKindId, ItemId, RecipeId};

verus! {

/// What the database knows of a building's kind, with the selections that the
/// kind allows.
#[derive(Debug, PartialEq, Eq)]
pub enum BuildingKind {
    Manufacturer { available_recipes: Vec<RecipeId> },
    Miner { allowed_resources: Vec<ItemId> },
    Generator { allowed_fuel: Vec<ItemId> },
    Pump { allowed_resources: Vec<ItemId> },
}

impl BuildingKind {
    pub open spec fn spec_kind_id(&self) -> BuildingKindId {
        match self {
            BuildingKind::Manufacturer { .. } => BuildingKindId::Manufacturer,
            BuildingKind::Miner { .. } => BuildingKindId::Miner,
            BuildingKind::Generator { .. } => BuildingKindId::Generator,
            BuildingKind::Pump { .. } => BuildingKindId::Pump,
        }
    }

    pub fn kind_id(&self) -> (r: BuildingKindId)
        ensures
            r == self.spec_kind_id(),
    {
        match self {
            BuildingKind::Manufacturer { .. } => BuildingKindId::Manufacturer,
            BuildingKind::Miner { .. } => BuildingKindId::Miner,
            BuildingKind::Generator { .. } => BuildingKindId::Generator,
            BuildingKind::Pump { .. } => BuildingKindId::Pump,
        }
    }
}

/// A building type: its id, its display name and its kind.
#[derive(Debug, PartialEq, Eq)]
pub struct BuildingType {
    pub id: BuildingId,
    pub name: String,
    pub kind: BuildingKind,
}

/// The building types, looked up by id.
#[derive(Debug)]
pub struct Database {
    buildings: Vec<BuildingType>,
}

impl Database {
    /// No two entries share an id.
    pub closed spec fn wf(&self) -> bool {
        forall|i: int, j: int|
            0 <= i < self.buildings@.len() && 0 <= j < self.buildings@.len() && #[trigger] self.buildings@[i].id
                == #[trigger] self.buildings@[j].id ==> i == j
    }

    /// Whether the database has an entry for `id`.
    pub closed spec fn has(&self, id: BuildingId) -> bool {
        exists|i: int| 0 <= i < self.buildings@.len() && #[trigger] self.buildings@[i].id == id
    }

    /// The entry for `id`, meaningful where `has(id)`.
    pub closed spec fn entry(&self, id: BuildingId) -> BuildingType {
        self.buildings@[choose|i: int| 0 <= i < self.buildings@.len() && #[trigger] self.buildings@[i].id == id]
    }

    /// The kind of the building `id`, if the database knows it.
    pub open spec fn kind_of(&self, id: BuildingId) -> Option<BuildingKindId> {
        if self.has(id) {
            Some(self.entry(id).kind.spec_kind_id())
        } else {
            None
        }
    }

    /// An empty database.
    pub fn new() -> (r: Database)
        ensures
            r.wf(),
            forall|id: BuildingId| !r.has(id),
    {
        Database { buildings: Vec::new() }
    }

    /// Adds `t`, replacing any entry with the same id.
    pub fn insert(&mut self, t: BuildingType)
        requires
            old(self).wf(),
        ensures
            final(self).wf(),
            final(self).has(t.id),
            final(self).entry(t.id) == t,
            forall|id: BuildingId|
                id != t.id ==> (#[trigger] final(self).has(id) == old(self).has(id)) && (old(self).has(id)
                    ==> final(self).entry(id) == old(self).entry(id)),
    {
        let ghost id = t.id;
        match self.position(t.id) {
            Some(i) => {
                let ghost prev = self.buildings@;
                self.buildings.set(i, t);
                assert(self.buildings@[i as int].id == id);
                assert forall|k: BuildingId| k != id && #[trigger] self.has(k) implies old(self).has(k) by {
                    let j = choose|j: int| 0 <= j < self.buildings@.len() && #[trigger] self.buildings@[j].id == k;
                    assert(prev[j].id == k);
                }
                assert forall|k: BuildingId| k != id && #[trigger] old(self).has(k) implies self.has(k) && self.entry(k) == old(self).entry(k) by {
                    let j = choose|j: int| 0 <= j < prev.len() && #[trigger] prev[j].id == k;
                    assert(self.buildings@[j].id == k);
                }
            },
            None => {
                let ghost prev = self.buildings@;
                self.buildings.push(t);
                assert(self.buildings@[prev.len() as int].id == id);
                assert forall|k: BuildingId| k != id && #[trigger] self.has(k) implies old(self).has(k) by {
                    let j = choose|j: int| 0 <= j < self.buildings@.len() && #[trigger] self.buildings@[j].id == k;
                    assert(prev[j].id == k);
                }
                assert forall|k: BuildingId| k != id && #[trigger] old(self).has(k) implies self.has(k) && self.entry(k) == old(self).entry(k) by {
                    let j = choose|j: int| 0 <= j < prev.len() && #[trigger] prev[j].id == k;
                    assert(self.buildings@[j].id == k);
                }
            },
        }
    }

    /// The index of the entry for `id`.
    fn position(&self, id: BuildingId) -> (r: Option<usize>)
        requires
            self.wf(),
        ensures
            match r {
                Some(i) => i < self.buildings@.len() && self.buildings@[i as int].id == id,
                None => !self.has(id),
            },
    {
        let mut i: usize = 0;
        while i < self.buildings.len()
            invariant
                i <= self.buildings@.len(),
                forall|j: int| 0 <= j < i ==> #[trigger] self.buildings@[j].id != id,
            decreases self.buildings@.len() - i,
        {
            if self.buildings[i].id.0 == id.0 {
                return Some(i);
            }
            i += 1;
        }
        None
    }

    /// The building type with id `id`, if there is one.
    pub fn get(&self, id: BuildingId) -> (r: Option<&BuildingType>)
        requires
            self.wf(),
        ensures
            match r {
                Some(t) => self.has(id) && *t == self.entry(id),
                None => !self.has(id),
            },
    {
        match self.position(id) {
            Some(i) => Some(&self.buildings[i]),
            None => None,
        }
    }
}

/// Whether `id` is among `ids`.
pub fn contains_recipe(ids: &Vec<RecipeId>, id: RecipeId) -> (r: bool)
    ensures
        r == ids@.contains(id),
{
    let mut i: usize = 0;
    while i < ids.len()
        invariant
            i <= ids@.len(),
            forall|j: int| 0 <= j < i ==> ids@[j] != id,
        decreases ids@.len() - i,
    {
        if ids[i].0 == id.0 {
            assert(ids@[i as int] == id);
            return true;
        }
        i += 1;
    }
    false
}

/// Whether `id` is among `ids`.
pub fn contains_item(ids: &Vec<ItemId>, id: ItemId) -> (r: bool)
    ensures
        r == ids@.contains(id),
{
    let mut i: usize = 0;
    while i < ids.len()
        invariant
            i <= ids@.len(),
            forall|j: int| 0 <= j < i ==> ids@[j] != id,
        decreases ids@.len() - i,
    {
        if ids[i].0 == id.0 {
            assert(ids@[i as int] == id);
            return true;
        }
        i += 1;
    }
    false
}

} // verus!
