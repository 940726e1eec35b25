//! Edit operations on a production-planning accounting tree: groups of buildings
//! nested arbitrarily, restructured by path-addressed edits, with building
//! settings kept in the shape that each building's kind calls for.
pub mod ids;
pub mod settings;
pub mod database;
pub mod node;
pub mod tree;
pub mod path;
pub mod graph_manipulation;
pub mod text;
pub mod edit;
pub mod node_display;
pub mod apply;
