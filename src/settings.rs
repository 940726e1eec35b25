//! Per-kind building settings and the reconciler that reshapes them when a
//! building's kind changes.
//!
//! Clock speeds are stored in millionths of the building's base rate, so that
//! `1_000_000` means 100%.
use vstd::prelude::*;

use crate::ids::{BuildingKindId, ItemId, RecipeId};

verus! {

/// Settings of a manufacturer: the selected recipe and the clock speed.
#[derive(Clone, Copy, Debug, PartialEq, Eq, Structural)]
pub struct ManufacturerSettings {
    pub recipe: Option<RecipeId>,
    pub clock_speed: u32,
}

/// Settings of a miner: the mined resource and the clock speed.
#[derive(Clone, Copy, Debug, PartialEq, Eq, Structural)]
pub struct MinerSettings {
    pub resource: Option<ItemId>,
    pub clock_speed: u32,
}

/// Settings of a generator: the burnt fuel and the clock speed.
#[derive(Clone, Copy, Debug, PartialEq, Eq, Structural)]
pub struct GeneratorSettings {
    pub fuel: Option<ItemId>,
    pub clock_speed: u32,
}

/// Settings of a pump: the extracted resource and the clock speed.
#[derive(Clone, Copy, Debug, PartialEq, Eq, Structural)]
pub struct PumpSettings {
    pub resource: Option<ItemId>,
    pub clock_speed: u32,
}

/// Settings of a building, one variant per building kind.
#[derive(Clone, Copy, Debug, PartialEq, Eq, Structural)]
pub enum BuildingSettings {
    Manufacturer(ManufacturerSettings),
    Miner(MinerSettings),
    Generator(GeneratorSettings),
    Pump(PumpSettings),
}

/// The settings of the given kind with nothing selected and the given clock speed.
pub open spec fn default_settings(kind: BuildingKindId, clock_speed: u32) -> BuildingSettings {
    match kind {
        BuildingKindId::Manufacturer => BuildingSettings::Manufacturer(
            ManufacturerSettings { recipe: None, clock_speed },
        ),
        BuildingKindId::Miner => BuildingSettings::Miner(MinerSettings { resource: None, clock_speed }),
        BuildingKindId::Generator => BuildingSettings::Generator(
            GeneratorSettings { fuel: None, clock_speed },
        ),
        BuildingKindId::Pump => BuildingSettings::Pump(PumpSettings { resource: None, clock_speed }),
    }
}

impl BuildingSettings {
    /// The kind whose shape these settings have.
    pub open spec fn spec_kind(&self) -> BuildingKindId {
        match self {
            BuildingSettings::Manufacturer(_) => BuildingKindId::Manufacturer,
            BuildingSettings::Miner(_) => BuildingKindId::Miner,
            BuildingSettings::Generator(_) => BuildingKindId::Generator,
            BuildingSettings::Pump(_) => BuildingKindId::Pump,
        }
    }

    /// The clock speed, which every kind of settings carries.
    pub open spec fn spec_clock_speed(&self) -> u32 {
        match self {
            BuildingSettings::Manufacturer(s) => s.clock_speed,
            BuildingSettings::Miner(s) => s.clock_speed,
            BuildingSettings::Generator(s) => s.clock_speed,
            BuildingSettings::Pump(s) => s.clock_speed,
        }
    }

    /// Settings shaped for `kind`: these settings if they already are, else the
    /// defaults of `kind` with the clock speed carried over.
    pub open spec fn reconciled(self, kind: BuildingKindId) -> BuildingSettings {
        if self.spec_kind() == kind {
            self
        } else {
            default_settings(kind, self.spec_clock_speed())
        }
    }

    pub fn kind_id(&self) -> (r: BuildingKindId)
        ensures
            r == self.spec_kind(),
    {
        match self {
            BuildingSettings::Manufacturer(_) => BuildingKindId::Manufacturer,
            BuildingSettings::Miner(_) => BuildingKindId::Miner,
            BuildingSettings::Generator(_) => BuildingKindId::Generator,
            BuildingSettings::Pump(_) => BuildingKindId::Pump,
        }
    }

    pub fn clock_speed(&self) -> (r: u32)
        ensures
            r == self.spec_clock_speed(),
    {
        match self {
            BuildingSettings::Manufacturer(s) => s.clock_speed,
            BuildingSettings::Miner(s) => s.clock_speed,
            BuildingSettings::Generator(s) => s.clock_speed,
            BuildingSettings::Pump(s) => s.clock_speed,
        }
    }

    /// Builds settings for a building of `kind`, keeping these settings when
    /// they already have that shape and otherwise keeping only the clock speed.
    pub fn build_new_settings(&self, kind: BuildingKindId) -> (r: BuildingSettings)
        ensures
            r == self.reconciled(kind),
            r.spec_kind() == kind,
            r.spec_clock_speed() == self.spec_clock_speed(),
    {
        if self.kind_id() == kind {
            *self
        } else {
            new_settings(kind, self.clock_speed())
        }
    }
}

/// The settings of `kind` with nothing selected, running at `clock_speed`.
pub fn new_settings(kind: BuildingKindId, clock_speed: u32) -> (r: BuildingSettings)
    ensures
        r == default_settings(kind, clock_speed),
{
    match kind {
        BuildingKindId::Manufacturer => BuildingSettings::Manufacturer(
            ManufacturerSettings { recipe: None, clock_speed },
        ),
        BuildingKindId::Miner => BuildingSettings::Miner(MinerSettings { resource: None, clock_speed }),
        BuildingKindId::Generator => BuildingSettings::Generator(
            GeneratorSettings { fuel: None, clock_speed },
        ),
        BuildingKindId::Pump => BuildingSettings::Pump(PumpSettings { resource: None, clock_speed }),
    }
}

/// Reconciling settings to a kind gives settings of that kind at the same clock
/// speed; where the kind changes, nothing is selected.
pub proof fn lemma_reconcile_keeps_clock_speed(s: BuildingSettings, kind: BuildingKindId)
    ensures
        s.reconciled(kind).spec_kind() == kind,
        s.reconciled(kind).spec_clock_speed() == s.spec_clock_speed(),
        s.spec_kind() != kind ==> s.reconciled(kind) == default_settings(kind, s.spec_clock_speed()),
{
}

} // verus!
