//! Build-graph projections for a route-based bundler front end: a stats report
//! over entry output artifacts, and the per-slot code fragments of a loader tree.

pub mod base_loader_tree;
pub mod build_graph;
pub mod loader_tree_laws;
pub mod memberships;
pub mod ordered;
pub mod stats_laws;
pub mod stats_report;
pub mod text;
pub mod webpack_stats;
