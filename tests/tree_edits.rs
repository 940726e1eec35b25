use satisfactory_accounting_app::apply::apply_edit;
use satisfactory_accounting_app::database::{BuildingKind, BuildingType, Database};
use satisfactory_accounting_app::edit::EditError;
use satisfactory_accounting_app::ids::{BuildingId, ItemId, RecipeId};
use satisfactory_accounting_app::node::{Building, Group, Node};
use satisfactory_accounting_app::node_display::{edit_node, move_within, Msg};
use satisfactory_accounting_app::path::{resolve, PathError};
use satisfactory_accounting_app::settings::{BuildingSettings, ManufacturerSettings, MinerSettings};

fn group(name: &str, children: Vec<Node>) -> Node {
    Node::Group(Group { name: name.to_string(), children })
}

fn miner(resource: Option<u32>) -> Node {
    Node::Building(Building {
        building: Some(BuildingId(2)),
        settings: BuildingSettings::Miner(MinerSettings { resource: resource.map(ItemId), clock_speed: 9 }),
    })
}

fn db() -> Database {
    let mut db = Database::new();
    db.insert(BuildingType {
        id: BuildingId(2),
        name: "Miner".to_string(),
        kind: BuildingKind::Miner { allowed_resources: vec![ItemId(20)] },
    });
    db
}

fn tree() -> Node {
    group("Root", vec![group("A", vec![miner(None)]), group("B", vec![])])
}

#[test]
fn resolve_paths() {
    let t = tree();
    assert_eq!(resolve(&t, &[]).unwrap(), &t);
    assert_eq!(resolve(&t, &[0, 0]).unwrap(), &miner(None));
    assert_eq!(resolve(&t, &[1]).unwrap(), &group("B", vec![]));
    assert_eq!(resolve(&t, &[2]), Err(PathError::OutOfRange));
    assert_eq!(resolve(&t, &[1, 0]), Err(PathError::OutOfRange));
    assert_eq!(resolve(&t, &[0, 0, 0]), Err(PathError::NotAGroup));
}

#[test]
fn apply_edit_deep_item_change() {
    let (t, diag) = apply_edit(tree(), &[0, 0], &db(), Msg::ChangeItem { id: ItemId(20) });
    assert_eq!(diag, None);
    assert_eq!(t, group("Root", vec![group("A", vec![miner(Some(20))]), group("B", vec![])]));
}

#[test]
fn apply_edit_rejection_keeps_tree() {
    let (t, diag) = apply_edit(tree(), &[0, 0], &db(), Msg::ChangeRecipe { id: RecipeId(1) });
    assert_eq!(diag, Some(EditError::InvalidSelection));
    assert_eq!(t, tree());
    let (t, diag) = apply_edit(tree(), &[3], &db(), Msg::DeleteChild { idx: 0 });
    assert_eq!(diag, Some(EditError::IndexOutOfRange));
    assert_eq!(t, tree());
    let (t, diag) = apply_edit(tree(), &[0, 0, 1], &db(), Msg::DeleteChild { idx: 0 });
    assert_eq!(diag, Some(EditError::StructuralMismatch));
    assert_eq!(t, tree());
}

#[test]
fn apply_edit_move_and_rename() {
    let (t, diag) = apply_edit(tree(), &[], &db(), Msg::MoveNode { src_path: vec![1], dest_path: vec![0, 0] });
    assert_eq!(diag, None);
    assert_eq!(t, group("Root", vec![group("A", vec![group("B", vec![]), miner(None)])]));
    let (t, diag) = apply_edit(t, &[0, 0], &db(), Msg::Rename { name: "  C ".to_string() });
    assert_eq!(diag, None);
    assert_eq!(t, group("Root", vec![group("A", vec![group("C", vec![]), miner(None)])]));
}

#[test]
fn edit_node_and_move_within() {
    let e = edit_node(&tree(), &db(), Msg::CopyChild { idx: 1 });
    assert_eq!(
        e.replacement,
        Some(group("Root", vec![group("A", vec![miner(None)]), group("B", vec![]), group("B", vec![])]))
    );
    let e = edit_node(&tree(), &db(), Msg::DragLeave);
    assert_eq!(e.replacement, None);
    assert_eq!(e.diagnostic, None);
    let e = move_within(&miner(None), &[0], &[0]);
    assert_eq!(e.diagnostic, Some(EditError::StructuralMismatch));
    let e = move_within(&tree(), &[0], &[1]);
    assert_eq!(e.diagnostic, Some(EditError::DegenerateMove));
}

#[test]
fn change_type_through_tree() {
    let manufacturer = Node::Building(Building {
        building: None,
        settings: BuildingSettings::Manufacturer(ManufacturerSettings { recipe: Some(RecipeId(4)), clock_speed: 3 }),
    });
    let root = group("Root", vec![manufacturer]);
    let (t, diag) = apply_edit(root, &[0], &db(), Msg::ChangeType { id: BuildingId(2) });
    assert_eq!(diag, None);
    let expected = Node::Building(Building {
        building: Some(BuildingId(2)),
        settings: BuildingSettings::Miner(MinerSettings { resource: None, clock_speed: 3 }),
    });
    assert_eq!(t, group("Root", vec![expected]));
}
