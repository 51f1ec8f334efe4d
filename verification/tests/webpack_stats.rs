use indexmap::IndexSet;
use next_build::build_graph::ArtifactKind;
use next_build::build_graph::BuildGraph;
use next_build::build_graph::CodeUnit;
use next_build::build_graph::Lookup;
use next_build::build_graph::OutputArtifact;
use next_build::memberships::UnitMemberships;
use next_build::stats_report::StatsAsset;
use next_build::stats_report::StatsChunk;
use next_build::stats_report::StatsEntrypoint;
use next_build::stats_report::StatsEntrypointAsset;
use next_build::stats_report::StatsModule;
use next_build::webpack_stats::generate_webpack_stats;
use next_build::webpack_stats::normalize_client_path;
use next_build::webpack_stats::StatsError;

fn text(value: &str) -> Lookup<String> {
    Lookup::Resolved(value.to_string())
}

fn asset(path: &str, size: Option<u64>) -> OutputArtifact {
    OutputArtifact {
        path: text(path),
        size: Lookup::Resolved(size),
        kind: Lookup::Resolved(ArtifactKind::Asset),
    }
}

fn chunk(path: &str, size: Option<u64>, units: Vec<usize>) -> OutputArtifact {
    OutputArtifact {
        path: text(path),
        size: Lookup::Resolved(size),
        kind: Lookup::Resolved(ArtifactKind::Chunk(Lookup::Resolved(units))),
    }
}

fn unit(path: &str, size: Option<u64>) -> CodeUnit {
    CodeUnit { path: text(path), size: Lookup::Resolved(size) }
}

fn handles(list: &[usize]) -> IndexSet<usize> {
    list.iter().copied().collect()
}

fn strings(list: &[&str]) -> Vec<String> {
    list.iter().map(|s| s.to_string()).collect()
}

/// Two chunks that share a code unit, an asset, and an artifact without size.
fn sample_graph() -> BuildGraph {
    BuildGraph {
        outputs: vec![
            chunk("_next/static/chunks/main.js", Some(100), vec![0, 1]),
            asset("_next/static/main.css", Some(50)),
            chunk("_next/static/chunks/page.js", Some(70), vec![1, 2, 1]),
            asset("_next/static/virtual", None),
        ],
        units: vec![
            unit("[project]/app/u1.js", Some(10)),
            unit("[project]/app/u2.js", None),
            unit("[project]/app/u3.js", Some(30)),
        ],
    }
}

#[test]
fn normalizer_rewrites_leading_marker() {
    assert_eq!(normalize_client_path("_next/static/chunks/a.js"), ".next/static/chunks/a.js");
}

#[test]
fn normalizer_leaves_other_paths() {
    assert_eq!(normalize_client_path("static/x.js"), "static/x.js");
    assert_eq!(normalize_client_path(""), "");
    assert_eq!(normalize_client_path("_next"), "_next");
    assert_eq!(normalize_client_path("_nextx/a"), "_nextx/a");
}

#[test]
fn normalizer_is_anchored_and_rewrites_once() {
    assert_eq!(normalize_client_path("a/_next/b"), "a/_next/b");
    assert_eq!(normalize_client_path("/_next/b"), "/_next/b");
    assert_eq!(normalize_client_path("_next/_next/b"), ".next/_next/b");
    assert_eq!(normalize_client_path("_next/"), ".next/");
    assert_eq!(normalize_client_path("x\n_next/b"), "x\n_next/b");
    assert_eq!(normalize_client_path("_next/caf\u{e9}/$1"), ".next/caf\u{e9}/$1");
}

#[test]
fn normalizer_agrees_with_the_pattern() {
    let pattern = regex::Regex::new(r"^_next/").unwrap();
    for path in ["_next/static/a.js", "static/_next/a.js", "_next/", "", "_next", "__next/a", ".next/a"] {
        assert_eq!(normalize_client_path(path), pattern.replace(path, ".next/"));
    }
}

#[test]
fn end_to_end_one_chunk_and_one_asset() {
    let graph = BuildGraph {
        outputs: vec![
            chunk("_next/static/chunks/main.js", Some(100), vec![0, 1]),
            asset("_next/static/main.css", Some(50)),
        ],
        units: vec![unit("[project]/u1.js", Some(1)), unit("[project]/u2.js", Some(2))],
    };
    let report = generate_webpack_stats(&graph, "app/page", &handles(&[0, 1])).unwrap();

    assert_eq!(
        report.chunks,
        vec![StatsChunk {
            size: 100,
            files: strings(&[".next/static/chunks/main.js"]),
            id: ".next/static/chunks/main.js".to_string(),
        }]
    );
    assert_eq!(
        report.assets,
        vec![StatsAsset {
            kind: "asset".to_string(),
            name: ".next/static/main.css".to_string(),
            chunk_names: strings(&[".next/static/main.css"]),
            size: 50,
        }]
    );
    assert_eq!(
        report.modules,
        vec![
            StatsModule {
                name: "[project]/u1.js".to_string(),
                id: "[project]/u1.js".to_string(),
                chunks: strings(&[".next/static/chunks/main.js"]),
                size: Some(1),
            },
            StatsModule {
                name: "[project]/u2.js".to_string(),
                id: "[project]/u2.js".to_string(),
                chunks: strings(&[".next/static/chunks/main.js"]),
                size: Some(2),
            },
        ]
    );
    assert_eq!(report.entrypoints.len(), 1);
    assert_eq!(
        report.entrypoints.get("app/page"),
        Some(&StatsEntrypoint {
            name: "app/page".to_string(),
            chunks: strings(&[".next/static/chunks/main.js"]),
            assets: vec![StatsEntrypointAsset { name: ".next/static/main.css".to_string() }],
        })
    );
}

#[test]
fn shared_unit_is_one_module_with_two_chunks() {
    let report = generate_webpack_stats(&sample_graph(), "entry", &handles(&[0, 1, 2, 3])).unwrap();
    let names: Vec<&str> = report.modules.iter().map(|m| m.id.as_str()).collect();
    assert_eq!(names, vec!["[project]/app/u1.js", "[project]/app/u2.js", "[project]/app/u3.js"]);
    assert_eq!(report.modules[0].chunks, strings(&[".next/static/chunks/main.js"]));
    assert_eq!(
        report.modules[1].chunks,
        strings(&[".next/static/chunks/main.js", ".next/static/chunks/page.js"])
    );
    assert_eq!(report.modules[2].chunks, strings(&[".next/static/chunks/page.js"]));
}

#[test]
fn module_chunks_are_chunks_of_the_report() {
    let report = generate_webpack_stats(&sample_graph(), "entry", &handles(&[2, 0, 1])).unwrap();
    for module in &report.modules {
        assert!(!module.chunks.is_empty());
        for id in &module.chunks {
            assert_eq!(report.chunks.iter().filter(|c| &c.id == id).count(), 1);
        }
    }
    let entrypoint = report.entrypoints.get("entry").unwrap();
    let ids: Vec<String> = report.chunks.iter().map(|c| c.id.clone()).collect();
    assert_eq!(entrypoint.chunks, ids);
}

#[test]
fn module_ids_are_distinct() {
    let report = generate_webpack_stats(&sample_graph(), "entry", &handles(&[0, 2])).unwrap();
    assert_eq!(report.modules.len(), 3);
    for i in 0..report.modules.len() {
        for j in 0..i {
            assert_ne!(report.modules[i].id, report.modules[j].id);
        }
    }
}

#[test]
fn units_with_one_path_stay_two_modules() {
    let graph = BuildGraph {
        outputs: vec![chunk("_next/a.js", Some(1), vec![0, 1])],
        units: vec![unit("same.js", Some(1)), unit("same.js", Some(2))],
    };
    let report = generate_webpack_stats(&graph, "entry", &handles(&[0])).unwrap();
    assert_eq!(report.modules.len(), 2);
    assert_eq!(report.modules[0].id, "same.js");
    assert_eq!(report.modules[1].id, "same.js");
    assert_eq!(report.modules[0].size, Some(1));
    assert_eq!(report.modules[1].size, Some(2));
}

#[test]
fn two_passes_give_the_same_report() {
    let graph = sample_graph();
    let first = generate_webpack_stats(&graph, "entry", &handles(&[0, 1, 2, 3]));
    let second = generate_webpack_stats(&graph, "entry", &handles(&[0, 1, 2, 3]));
    assert!(first.is_ok());
    assert_eq!(first, second);
    let failing = handles(&[0, 9]);
    assert_eq!(
        generate_webpack_stats(&graph, "entry", &failing),
        generate_webpack_stats(&graph, "entry", &failing)
    );
}

#[test]
fn order_follows_the_entry_artifacts() {
    let report = generate_webpack_stats(&sample_graph(), "entry", &handles(&[2, 1, 0])).unwrap();
    let chunk_ids: Vec<&str> = report.chunks.iter().map(|c| c.id.as_str()).collect();
    assert_eq!(chunk_ids, vec![".next/static/chunks/page.js", ".next/static/chunks/main.js"]);
    let module_ids: Vec<&str> = report.modules.iter().map(|m| m.id.as_str()).collect();
    assert_eq!(module_ids, vec!["[project]/app/u2.js", "[project]/app/u3.js", "[project]/app/u1.js"]);
    assert_eq!(
        report.modules[0].chunks,
        strings(&[".next/static/chunks/page.js", ".next/static/chunks/main.js"])
    );
}

#[test]
fn artifact_without_size_is_left_out() {
    let graph = BuildGraph {
        outputs: vec![
            asset("_next/a.css", None),
            chunk("_next/b.js", None, vec![0]),
            OutputArtifact { path: text("c"), size: Lookup::Resolved(None), kind: Lookup::Failed },
        ],
        units: vec![unit("u.js", Some(1))],
    };
    let report = generate_webpack_stats(&graph, "entry", &handles(&[0, 1, 2])).unwrap();
    assert!(report.assets.is_empty());
    assert!(report.chunks.is_empty());
    assert!(report.modules.is_empty());
    let entrypoint = report.entrypoints.get("entry").unwrap();
    assert_eq!(entrypoint.name, "entry");
    assert!(entrypoint.chunks.is_empty());
    assert!(entrypoint.assets.is_empty());
}

#[test]
fn module_without_size_is_listed_without_one() {
    let report = generate_webpack_stats(&sample_graph(), "entry", &handles(&[0])).unwrap();
    assert_eq!(report.modules[0].size, Some(10));
    assert_eq!(report.modules[1].size, None);
    assert_eq!(report.modules[1].name, "[project]/app/u2.js");
}

#[test]
fn module_paths_are_not_normalized() {
    let graph = BuildGraph {
        outputs: vec![chunk("_next/a.js", Some(1), vec![0])],
        units: vec![unit("_next/inner.js", Some(1))],
    };
    let report = generate_webpack_stats(&graph, "entry", &handles(&[0])).unwrap();
    assert_eq!(report.modules[0].name, "_next/inner.js");
    assert_eq!(report.modules[0].id, "_next/inner.js");
    assert_eq!(report.modules[0].chunks, strings(&[".next/a.js"]));
}

#[test]
fn chunks_with_one_path_are_named_once() {
    let graph = BuildGraph {
        outputs: vec![
            chunk("_next/a.js", Some(1), vec![0]),
            chunk("_next/a.js", Some(2), vec![0]),
        ],
        units: vec![unit("u.js", Some(1))],
    };
    let report = generate_webpack_stats(&graph, "entry", &handles(&[0, 1])).unwrap();
    assert_eq!(report.chunks.len(), 2);
    assert_eq!(report.modules.len(), 1);
    assert_eq!(report.modules[0].chunks, strings(&[".next/a.js"]));
    assert_eq!(report.entrypoints.get("entry").unwrap().chunks, strings(&[".next/a.js", ".next/a.js"]));
}

#[test]
fn empty_entry_gives_an_empty_report() {
    let report = generate_webpack_stats(&sample_graph(), "", &handles(&[])).unwrap();
    assert!(report.assets.is_empty());
    assert!(report.chunks.is_empty());
    assert!(report.modules.is_empty());
    assert_eq!(report.entrypoints.len(), 1);
    assert_eq!(report.entrypoints.get("").unwrap().name, "");
}

#[test]
fn entrypoint_lists_assets_by_name() {
    let graph = BuildGraph {
        outputs: vec![asset("_next/a.css", Some(1)), asset("b.png", Some(2))],
        units: vec![],
    };
    let report = generate_webpack_stats(&graph, "entry", &handles(&[1, 0])).unwrap();
    let entrypoint = report.entrypoints.get_index(0).unwrap();
    assert_eq!(entrypoint.0, "entry");
    assert_eq!(
        entrypoint.1.assets,
        vec![
            StatsEntrypointAsset { name: "b.png".to_string() },
            StatsEntrypointAsset { name: ".next/a.css".to_string() },
        ]
    );
    assert_eq!(report.assets[0].chunk_names, strings(&["b.png"]));
    assert_eq!(report.assets[0].kind, "asset");
}

#[test]
fn failed_output_path_fails_the_pass() {
    let mut graph = sample_graph();
    graph.outputs[1].path = Lookup::Failed;
    assert_eq!(
        generate_webpack_stats(&graph, "entry", &handles(&[0, 1, 2])),
        Err(StatsError::OutputPath(1))
    );
}

#[test]
fn unknown_output_handle_fails_the_pass() {
    assert_eq!(
        generate_webpack_stats(&sample_graph(), "entry", &handles(&[0, 4])),
        Err(StatsError::OutputPath(4))
    );
}

#[test]
fn failed_output_size_fails_the_pass() {
    let mut graph = sample_graph();
    graph.outputs[0].size = Lookup::Failed;
    graph.outputs[1].path = Lookup::Failed;
    assert_eq!(
        generate_webpack_stats(&graph, "entry", &handles(&[0, 1])),
        Err(StatsError::OutputSize(0))
    );
}

#[test]
fn failed_output_kind_fails_the_pass() {
    let mut graph = sample_graph();
    graph.outputs[1].kind = Lookup::Failed;
    assert_eq!(
        generate_webpack_stats(&graph, "entry", &handles(&[0, 1])),
        Err(StatsError::OutputKind(1))
    );
}

#[test]
fn failed_chunk_units_fail_the_pass() {
    let mut graph = sample_graph();
    graph.outputs[2].kind = Lookup::Resolved(ArtifactKind::Chunk(Lookup::Failed));
    assert_eq!(
        generate_webpack_stats(&graph, "entry", &handles(&[0, 1, 2])),
        Err(StatsError::ChunkUnits(2))
    );
}

#[test]
fn failed_unit_size_fails_the_pass() {
    let mut graph = sample_graph();
    graph.units[1].size = Lookup::Failed;
    graph.units[1].path = Lookup::Failed;
    assert_eq!(
        generate_webpack_stats(&graph, "entry", &handles(&[0])),
        Err(StatsError::UnitSize(1))
    );
}

#[test]
fn failed_unit_path_fails_the_pass() {
    let mut graph = sample_graph();
    graph.units[2].path = Lookup::Failed;
    assert_eq!(
        generate_webpack_stats(&graph, "entry", &handles(&[0, 2])),
        Err(StatsError::UnitPath(2))
    );
    assert!(generate_webpack_stats(&graph, "entry", &handles(&[0])).is_ok());
}

#[test]
fn unknown_unit_handle_fails_the_pass() {
    let graph = BuildGraph { outputs: vec![chunk("a.js", Some(1), vec![5])], units: vec![] };
    assert_eq!(
        generate_webpack_stats(&graph, "entry", &handles(&[0])),
        Err(StatsError::UnitSize(5))
    );
}

#[test]
fn artifact_failures_come_before_unit_failures() {
    let mut graph = sample_graph();
    graph.units[0].size = Lookup::Failed;
    graph.outputs[2].path = Lookup::Failed;
    assert_eq!(
        generate_webpack_stats(&graph, "entry", &handles(&[0, 2])),
        Err(StatsError::OutputPath(2))
    );
}

#[test]
fn lookups_of_a_sizeless_artifact_are_not_made() {
    let graph = BuildGraph {
        outputs: vec![OutputArtifact {
            path: text("a"),
            size: Lookup::Resolved(None),
            kind: Lookup::Resolved(ArtifactKind::Chunk(Lookup::Failed)),
        }],
        units: vec![],
    };
    assert!(generate_webpack_stats(&graph, "entry", &handles(&[0])).is_ok());
}

#[test]
fn memberships_keep_first_meeting_order() {
    let mut held = UnitMemberships::new();
    assert!(held.entries().is_empty());
    held.record(7, "b.js".to_string());
    held.record(3, "b.js".to_string());
    held.record(7, "a.js".to_string());
    held.record(7, "b.js".to_string());
    held.record_all(&vec![3, 9, 3], &"c.js".to_string());
    assert_eq!(
        held.entries(),
        vec![
            (7, strings(&["b.js", "a.js"])),
            (3, strings(&["b.js", "c.js"])),
            (9, strings(&["c.js"])),
        ]
    );
}
