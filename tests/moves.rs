use satisfactory_accounting_app::database::Database;
use satisfactory_accounting_app::edit::EditError;
use satisfactory_accounting_app::graph_manipulation::{move_child, move_subtree};
use satisfactory_accounting_app::ids::{BuildingId, RecipeId};
use satisfactory_accounting_app::node::{Building, Group, Node};
use satisfactory_accounting_app::node_display::{Emit, Msg, NodeDisplay, Props};
use satisfactory_accounting_app::path::{common_prefix_length, shift_place};
use satisfactory_accounting_app::settings::{BuildingSettings, ManufacturerSettings};

fn group(name: &str, children: Vec<Node>) -> Group {
    Group { name: name.to_string(), children }
}

fn node(name: &str, children: Vec<Node>) -> Node {
    Node::Group(group(name, children))
}

fn building(id: u32, recipe: u32) -> Node {
    Node::Building(Building {
        building: Some(BuildingId(id)),
        settings: BuildingSettings::Manufacturer(ManufacturerSettings {
            recipe: Some(RecipeId(recipe)),
            clock_speed: 1_000_000,
        }),
    })
}

fn leaves(n: &Node, out: &mut Vec<Building>) {
    match n {
        Node::Group(g) => {
            for c in &g.children {
                leaves(c, out);
            }
        }
        Node::Building(b) => out.push(*b),
    }
}

fn sorted_leaves(g: &Group) -> Vec<(u32, u32)> {
    let mut out = Vec::new();
    for c in &g.children {
        leaves(c, &mut out);
    }
    let mut keys: Vec<(u32, u32)> = out
        .iter()
        .map(|b| {
            let recipe = match b.settings {
                BuildingSettings::Manufacturer(m) => m.recipe.map(|r| r.0).unwrap_or(0),
                _ => 0,
            };
            (b.building.map(|i| i.0).unwrap_or(0), recipe)
        })
        .collect();
    keys.sort();
    keys
}

fn sample_tree() -> Group {
    group(
        "Root",
        vec![
            node("A", vec![building(1, 10), building(2, 20)]),
            node("B", vec![node("C", vec![building(3, 30)])]),
            building(4, 40),
        ],
    )
}

#[test]
fn move_into_sibling_group_at_root() {
    let root = Node::Group(group("Root", vec![node("A", vec![]), node("B", vec![])]));
    let props = Props { node: root, path: vec![] };
    let mut display = NodeDisplay::create();
    let db = Database::new();
    let r = display.update(
        &props,
        &db,
        Msg::MoveNode { src_path: vec![1], dest_path: vec![0, 0] },
    );
    assert_eq!(r.diagnostic, None);
    assert!(!r.rerender);
    let expected = node("Root", vec![node("A", vec![node("B", vec![])])]);
    assert_eq!(r.emit, Emit::Replace { idx: 0, node: expected });
}

#[test]
fn move_subtree_into_sibling() {
    let root = group("Root", vec![node("A", vec![]), node("B", vec![])]);
    let moved = move_subtree(root, &[1], &[0, 0]);
    assert_eq!(moved, group("Root", vec![node("A", vec![node("B", vec![])])]));
}

#[test]
fn move_to_own_place_is_noop() {
    let tree = sample_tree();
    assert!(move_child(&tree, &[0, 1], &[0, 1]).is_none());
    assert!(move_child(&tree, &[1, 0, 0], &[1, 0, 0]).is_none());
    assert!(move_child(&tree, &[2], &[3]).is_none());
    let same = move_subtree(sample_tree(), &[1, 0], &[1, 0]);
    assert_eq!(same, sample_tree());
}

#[test]
fn move_into_own_subtree_is_rejected() {
    let tree = sample_tree();
    assert!(move_child(&tree, &[1], &[1, 0]).is_none());
    assert!(move_child(&tree, &[1], &[1, 0, 0]).is_none());
    let props = Props { node: Node::Group(sample_tree()), path: vec![] };
    let mut display = NodeDisplay::create();
    let r = display.update(&props, &Database::new(), Msg::MoveNode {
        src_path: vec![1],
        dest_path: vec![1, 0, 1],
    });
    assert_eq!(r.emit, Emit::Nothing);
    assert_eq!(r.diagnostic, Some(EditError::DegenerateMove));
}

#[test]
fn move_within_one_group_shifts_later_index() {
    let g = group("G", vec![building(1, 1), building(2, 2), building(3, 3)]);
    let moved = move_subtree(g, &[0], &[3]);
    assert_eq!(moved, group("G", vec![building(2, 2), building(3, 3), building(1, 1)]));
    let g = group("G", vec![building(1, 1), building(2, 2), building(3, 3)]);
    let moved = move_subtree(g, &[2], &[0]);
    assert_eq!(moved, group("G", vec![building(3, 3), building(1, 1), building(2, 2)]));
    let g = group("G", vec![building(1, 1), building(2, 2), building(3, 3)]);
    let moved = move_subtree(g, &[0], &[2]);
    assert_eq!(moved, group("G", vec![building(2, 2), building(1, 1), building(3, 3)]));
}

#[test]
fn move_into_later_sibling_subtree() {
    let moved = move_subtree(sample_tree(), &[0], &[1, 0, 1]);
    let expected = group(
        "Root",
        vec![
            node(
                "B",
                vec![node(
                    "C",
                    vec![building(3, 30), node("A", vec![building(1, 10), building(2, 20)])],
                )],
            ),
            building(4, 40),
        ],
    );
    assert_eq!(moved, expected);
}

#[test]
fn move_out_to_shallower_place() {
    let moved = move_subtree(sample_tree(), &[1, 0, 0], &[0]);
    let expected = group(
        "Root",
        vec![
            building(3, 30),
            node("A", vec![building(1, 10), building(2, 20)]),
            node("B", vec![node("C", vec![])]),
            building(4, 40),
        ],
    );
    assert_eq!(moved, expected);
}

#[test]
fn move_keeps_buildings() {
    let before = sorted_leaves(&sample_tree());
    let cases: Vec<(Vec<usize>, Vec<usize>)> = vec![
        (vec![0, 1], vec![1, 0, 0]),
        (vec![2], vec![0, 0]),
        (vec![1], vec![0, 2]),
        (vec![0], vec![3]),
    ];
    for (src, dest) in cases {
        let moved = move_child(&sample_tree(), &src, &dest).expect("valid move");
        assert_eq!(sorted_leaves(&moved), before);
    }
}

#[test]
fn move_with_invalid_paths_is_noop() {
    let tree = sample_tree();
    assert!(move_child(&tree, &[], &[0]).is_none());
    assert!(move_child(&tree, &[5], &[0]).is_none());
    assert!(move_child(&tree, &[0], &[5]).is_none());
    assert!(move_child(&tree, &[2, 0], &[0]).is_none());
    assert!(move_child(&tree, &[0], &[2, 0]).is_none());
}

#[test]
fn move_is_forwarded_above_common_ancestor() {
    let props = Props { node: node("A", vec![]), path: vec![0] };
    let mut display = NodeDisplay::create();
    let r = display.update(&props, &Database::new(), Msg::MoveNode {
        src_path: vec![1],
        dest_path: vec![0, 0],
    });
    assert_eq!(r.emit, Emit::MoveNode { src_path: vec![1], dest_path: vec![0, 0] });
    assert_eq!(r.diagnostic, None);
}

#[test]
fn move_resolved_at_inner_group() {
    let inner = node("A", vec![building(1, 10), building(2, 20)]);
    let props = Props { node: inner, path: vec![0] };
    let mut display = NodeDisplay::create();
    display.update(&props, &Database::new(), Msg::DragOver { insert_pos: 1 });
    let r = display.update(&props, &Database::new(), Msg::MoveNode {
        src_path: vec![0, 0],
        dest_path: vec![0, 2],
    });
    assert!(r.rerender);
    assert_eq!(display.insert_pos(), None);
    let expected = node("A", vec![building(2, 20), building(1, 10)]);
    assert_eq!(r.emit, Emit::Replace { idx: 0, node: expected });
}

#[test]
fn shift_place_examples() {
    assert_eq!(shift_place(&[0], &[3]), vec![2]);
    assert_eq!(shift_place(&[2], &[0]), vec![0]);
    assert_eq!(shift_place(&[0], &[1, 0, 1]), vec![0, 0, 1]);
    assert_eq!(shift_place(&[1, 0], &[0, 4]), vec![0, 4]);
    assert_eq!(shift_place(&[1, 0], &[1, 3]), vec![1, 2]);
}

#[test]
fn common_prefix_length_examples() {
    assert_eq!(common_prefix_length(&[0, 1, 2], &[0, 1, 5]), 2);
    assert_eq!(common_prefix_length(&[], &[0]), 0);
    assert_eq!(common_prefix_length(&[3], &[3, 1]), 1);
    assert_eq!(common_prefix_length(&[1], &[2]), 0);
}
