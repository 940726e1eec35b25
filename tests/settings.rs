use satisfactory_accounting_app::ids::{BuildingKindId, ItemId, RecipeId};
use satisfactory_accounting_app::settings::{
    new_settings, BuildingSettings, GeneratorSettings, ManufacturerSettings, MinerSettings,
    PumpSettings,
};

#[test]
fn reconcile_across_kinds_keeps_clock_speed() {
    let s = BuildingSettings::Manufacturer(ManufacturerSettings {
        recipe: Some(RecipeId(3)),
        clock_speed: 420_000,
    });
    assert_eq!(
        s.build_new_settings(BuildingKindId::Generator),
        BuildingSettings::Generator(GeneratorSettings { fuel: None, clock_speed: 420_000 })
    );
    assert_eq!(
        s.build_new_settings(BuildingKindId::Pump),
        BuildingSettings::Pump(PumpSettings { resource: None, clock_speed: 420_000 })
    );
    assert_eq!(
        s.build_new_settings(BuildingKindId::Miner),
        BuildingSettings::Miner(MinerSettings { resource: None, clock_speed: 420_000 })
    );
}

#[test]
fn reconcile_same_kind_is_identity() {
    let s = BuildingSettings::Miner(MinerSettings { resource: Some(ItemId(8)), clock_speed: 9 });
    assert_eq!(s.build_new_settings(BuildingKindId::Miner), s);
    assert_eq!(s.kind_id(), BuildingKindId::Miner);
    assert_eq!(s.clock_speed(), 9);
}

#[test]
fn new_settings_selects_nothing() {
    assert_eq!(
        new_settings(BuildingKindId::Manufacturer, 1_000_000),
        BuildingSettings::Manufacturer(ManufacturerSettings { recipe: None, clock_speed: 1_000_000 })
    );
}
