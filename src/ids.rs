//! Opaque identifiers into the building database.
use vstd::prelude::*;

verus! {

/// Identifies a building type in the database.
#[derive(Clone, Copy, Debug, PartialEq, Eq, Structural, Hash)]
pub struct BuildingId(pub u32);

/// Identifies a recipe in the database.
#[derive(Clone, Copy, Debug, PartialEq, Eq, Structural, Hash)]
pub struct RecipeId(pub u32);

/// Identifies an item (resource or fuel) in the database.
#[derive(Clone, Copy, Debug, PartialEq, Eq, Structural, Hash)]
pub struct ItemId(pub u32);

/// The kind of a building, which decides the shape of its settings.
#[derive(Clone, Copy, Debug, PartialEq, Eq, Structural, Hash)]
pub enum BuildingKindId {
    Manufacturer,
    Miner,
    Generator,
    Pump,
}

} // verus!
