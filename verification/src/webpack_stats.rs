//! The stats pass: from the output artifacts of one entry to its stats report.

use indexmap::IndexSet;
use regex::Regex;
use vstd::prelude::*;
use vstd::string::StringExecFns;

use crate::build_graph::ArtifactKind;
use crate::build_graph::BuildGraph;
use crate::build_graph::Lookup;
use crate::memberships::with_memberships;
use crate::memberships::Memberships;
use crate::memberships::UnitMemberships;
use crate::ordered::handle_items;
use crate::ordered::handle_list;
use crate::ordered::insert_entrypoint;
use crate::ordered::new_entrypoint_map;
use crate::stats_report::StatsAsset;
use crate::stats_report::StatsAssetView;
use crate::stats_report::StatsChunk;
use crate::stats_report::StatsChunkView;
use crate::stats_report::StatsEntrypoint;
use crate::stats_report::StatsEntrypointAsset;
use crate::stats_report::StatsEntrypointAssetView;
use crate::stats_report::StatsEntrypointView;
use crate::stats_report::StatsModule;
use crate::stats_report::StatsModuleView;
use crate::stats_report::StatsReport;
use crate::stats_report::StatsReportView;

verus! {

/// A character that a pattern reads as itself.
pub open spec fn literal_char(c: char) -> bool {
    ('a' <= c <= 'z') || ('A' <= c <= 'Z') || ('0' <= c <= '9') || c == '_' || c == '/'
}

/// A pattern made of `^` and then at most 63 characters that stand for
/// themselves: it matches its text at the very start of a haystack and nowhere
/// else.
pub open spec fn anchored_literal(pattern: Seq<char>) -> bool {
    &&& 1 <= pattern.len() <= 64
    &&& pattern[0] == '^'
    &&& forall|i: int| 1 <= i < pattern.len() ==> literal_char(#[trigger] pattern[i])
}

/// A replacement text that refers to no capture group.
pub open spec fn plain_replacement(replacement: Seq<char>) -> bool {
    forall|i: int| 0 <= i < replacement.len() ==> #[trigger] replacement[i] != '$'
}

/// `text` with a leading `prefix` exchanged for `replacement`; `text` itself
/// where it does not start with `prefix`.
pub open spec fn replaced_prefix(prefix: Seq<char>, text: Seq<char>, replacement: Seq<char>) -> Seq<
    char,
> {
    if prefix.is_prefix_of(text) {
        replacement + text.skip(prefix.len() as int)
    } else {
        text
    }
}

/// `regex::Regex::new` on `pattern`, then `Regex::replace` of the first match
/// in `haystack` by `replacement`. For a pattern that is `^` and a literal
/// text, the only possible match is that text at the start of the haystack;
/// the replacement is copied as it is, since it names no capture group; and a
/// haystack without a match comes back unchanged.
#[verifier::external_body]
fn replace_first(pattern: &str, haystack: &str, replacement: &str) -> (out: String)
    requires
        anchored_literal(pattern@),
        plain_replacement(replacement@),
    ensures
        out@ == replaced_prefix(pattern@.skip(1), haystack@, replacement@),
{
    Regex::new(pattern).unwrap().replace(haystack, replacement).into_owned()
}

/// The path under which a client sees a build output: a leading `_next/`
/// becomes `.next/`, and nothing else changes.
pub open spec fn normalized_client_path(path: Seq<char>) -> Seq<char> {
    replaced_prefix("_next/"@, path, ".next/"@)
}

/// Rewrites the path of a build output to the path under which a client sees
/// it.
pub fn normalize_client_path(path: &str) -> (out: String)
    ensures
        out@ == normalized_client_path(path@),
{
    proof {
        reveal_strlit("^_next/");
        reveal_strlit("_next/");
        reveal_strlit(".next/");
        assert("^_next/"@.skip(1) =~= "_next/"@);
    }
    replace_first("^_next/", path, ".next/")
}

/// Why a stats pass gave no report: the lookup that failed, with the handle of
/// the artifact or code unit it was made for.
#[derive(Clone, Copy, Debug, PartialEq, Eq, Hash, Structural)]
pub enum StatsError {
    OutputPath(usize),
    OutputSize(usize),
    OutputKind(usize),
    ChunkUnits(usize),
    UnitSize(usize),
    UnitPath(usize),
}

/// The report entry of an asset found under `path` with `size` bytes.
pub open spec fn asset_entry(path: Seq<char>, size: u64) -> StatsAssetView {
    StatsAssetView { kind: "asset"@, name: path, chunk_names: seq![path], size }
}

/// The report entry of a chunk found under `path` with `size` bytes: the path
/// is its id and its one file.
pub open spec fn chunk_entry(path: Seq<char>, size: u64) -> StatsChunkView {
    StatsChunkView { size, files: seq![path], id: path }
}

/// What one output artifact adds to a report.
pub enum Contribution {
    /// Nothing: the artifact has no size.
    Nothing,
    Asset(StatsAssetView),
    /// A chunk, with the code units it holds.
    Chunk(StatsChunkView, Seq<usize>),
}

/// What the output artifact `artifact` adds to a report, or the first of its
/// lookups that failed: the path, then the size, then the kind, then for a
/// chunk its code units. An artifact without a size adds nothing, and its kind
/// is not looked up.
pub open spec fn contribution(graph: &BuildGraph, artifact: usize) -> Result<
    Contribution,
    StatsError,
> {
    match graph.output_path(artifact) {
        Lookup::Failed => Err(StatsError::OutputPath(artifact)),
        Lookup::Resolved(path) => match graph.output_size(artifact) {
            Lookup::Failed => Err(StatsError::OutputSize(artifact)),
            Lookup::Resolved(None) => Ok(Contribution::Nothing),
            Lookup::Resolved(Some(size)) => match graph.output_is_chunk(artifact) {
                Lookup::Failed => Err(StatsError::OutputKind(artifact)),
                Lookup::Resolved(false) => Ok(
                    Contribution::Asset(asset_entry(normalized_client_path(path), size)),
                ),
                Lookup::Resolved(true) => match graph.chunk_units(artifact) {
                    Lookup::Failed => Err(StatsError::ChunkUnits(artifact)),
                    Lookup::Resolved(units) => Ok(
                        Contribution::Chunk(
                            chunk_entry(normalized_client_path(path), size),
                            units,
                        ),
                    ),
                },
            },
        },
    }
}

/// What a pass has gathered from the output artifacts it has read.
pub struct Gathered {
    pub assets: Seq<StatsAssetView>,
    pub chunks: Seq<StatsChunkView>,
    pub memberships: Memberships,
}

/// What is gathered once one more contribution is taken in.
pub open spec fn gathered_with(before: Gathered, added: Contribution) -> Gathered {
    match added {
        Contribution::Nothing => before,
        Contribution::Asset(asset) => Gathered { assets: before.assets.push(asset), ..before },
        Contribution::Chunk(chunk, units) => Gathered {
            chunks: before.chunks.push(chunk),
            memberships: with_memberships(before.memberships, units, chunk.id),
            ..before
        },
    }
}

/// What a pass gathers from `artifacts`, read in order, or the first lookup
/// that failed on the way.
pub open spec fn gathered(graph: &BuildGraph, artifacts: Seq<usize>) -> Result<Gathered, StatsError>
    decreases artifacts.len(),
{
    if artifacts.len() == 0 {
        Ok(Gathered { assets: Seq::empty(), chunks: Seq::empty(), memberships: Seq::empty() })
    } else {
        match gathered(graph, artifacts.drop_last()) {
            Err(error) => Err(error),
            Ok(before) => match contribution(graph, artifacts.last()) {
                Err(error) => Err(error),
                Ok(added) => Ok(gathered_with(before, added)),
            },
        }
    }
}

/// The report entry of the code unit `unit`, held by `chunks`, or the first of
/// its lookups that failed: the size, then the path. The path is both name and
/// id, as it is; a unit without a size is listed without one.
pub open spec fn module_entry(graph: &BuildGraph, unit: usize, chunks: Seq<Seq<char>>) -> Result<
    StatsModuleView,
    StatsError,
> {
    match graph.unit_size(unit) {
        Lookup::Failed => Err(StatsError::UnitSize(unit)),
        Lookup::Resolved(size) => match graph.unit_path(unit) {
            Lookup::Failed => Err(StatsError::UnitPath(unit)),
            Lookup::Resolved(path) => Ok(StatsModuleView { name: path, id: path, chunks, size }),
        },
    }
}

/// The report entries of the code units of `held`, in order, or the first
/// lookup that failed on the way.
pub open spec fn module_entries(graph: &BuildGraph, held: Memberships) -> Result<
    Seq<StatsModuleView>,
    StatsError,
>
    decreases held.len(),
{
    if held.len() == 0 {
        Ok(Seq::empty())
    } else {
        match module_entries(graph, held.drop_last()) {
            Err(error) => Err(error),
            Ok(before) => match module_entry(graph, held.last().0, held.last().1) {
                Err(error) => Err(error),
                Ok(module) => Ok(before.push(module)),
            },
        }
    }
}

/// The entrypoint of the entry `name`: the ids of the chunks and the names of
/// the assets, each in report order.
pub open spec fn entrypoint_entry(
    name: Seq<char>,
    assets: Seq<StatsAssetView>,
    chunks: Seq<StatsChunkView>,
) -> StatsEntrypointView {
    StatsEntrypointView {
        name,
        chunks: Seq::new(chunks.len(), |i: int| chunks[i].id),
        assets: Seq::new(assets.len(), |i: int| StatsEntrypointAssetView { name: assets[i].name }),
    }
}

/// The stats report of the entry `name` with the output artifacts
/// `artifacts`, or the first lookup that failed: those of the artifacts come
/// first, in their order, then those of the code units, in the order in which
/// the chunks brought them up.
pub open spec fn webpack_stats(graph: &BuildGraph, name: Seq<char>, artifacts: Seq<usize>) -> Result<
    StatsReportView,
    StatsError,
> {
    match gathered(graph, artifacts) {
        Err(error) => Err(error),
        Ok(found) => match module_entries(graph, found.memberships) {
            Err(error) => Err(error),
            Ok(modules) => Ok(
                StatsReportView {
                    assets: found.assets,
                    chunks: found.chunks,
                    modules,
                    entrypoints: seq![(name, entrypoint_entry(name, found.assets, found.chunks))],
                },
            ),
        },
    }
}

/// A lookup that fails among the first `n` artifacts fails the whole pass.
pub proof fn lemma_gathered_failure(graph: &BuildGraph, artifacts: Seq<usize>, n: int)
    requires
        0 <= n <= artifacts.len(),
        gathered(graph, artifacts.take(n)) is Err,
    ensures
        gathered(graph, artifacts) == gathered(graph, artifacts.take(n)),
    decreases artifacts.len() - n,
{
    if n == artifacts.len() {
        assert(artifacts.take(n) =~= artifacts);
    } else {
        assert(artifacts.take(n + 1).drop_last() =~= artifacts.take(n));
        lemma_gathered_failure(graph, artifacts, n + 1);
    }
}

/// A lookup that fails among the first `n` code units fails the whole pass.
pub proof fn lemma_module_entries_failure(graph: &BuildGraph, held: Memberships, n: int)
    requires
        0 <= n <= held.len(),
        module_entries(graph, held.take(n)) is Err,
    ensures
        module_entries(graph, held) == module_entries(graph, held.take(n)),
    decreases held.len() - n,
{
    if n == held.len() {
        assert(held.take(n) =~= held);
    } else {
        assert(held.take(n + 1).drop_last() =~= held.take(n));
        lemma_module_entries_failure(graph, held, n + 1);
    }
}

/// What a pass returned, with the report taken by its view.
pub open spec fn outcome_view(out: Result<StatsReport, StatsError>) -> Result<
    StatsReportView,
    StatsError,
> {
    match out {
        Ok(report) => Ok(report@),
        Err(error) => Err(error),
    }
}

/// Builds the stats report of one entry from its output artifacts, read in the
/// order of `entry_assets`. An artifact whose size is absent is left out of
/// the report altogether. Each code unit that a chunk holds becomes one
/// module, however many chunks hold it.
pub fn generate_webpack_stats(
    graph: &BuildGraph,
    entry_name: &str,
    entry_assets: &IndexSet<usize>,
) -> (out: Result<StatsReport, StatsError>)
    ensures
        outcome_view(out) == webpack_stats(graph, entry_name@, handle_items(*entry_assets)),
{
    let artifacts = handle_list(entry_assets);
    let mut assets: Vec<StatsAsset> = Vec::new();
    let mut chunks: Vec<StatsChunk> = Vec::new();
    let mut chunk_items = UnitMemberships::new();
    let mut i: usize = 0;
    assert(artifacts@.take(0) =~= Seq::<usize>::empty());
    assert(assets.deep_view() =~= Seq::<StatsAssetView>::empty());
    assert(chunks.deep_view() =~= Seq::<StatsChunkView>::empty());
    while i < artifacts.len()
        invariant
            i <= artifacts.len(),
            artifacts@ == handle_items(*entry_assets),
            chunk_items.wf(),
            gathered(graph, artifacts@.take(i as int)) == Ok::<Gathered, StatsError>(
                Gathered {
                    assets: assets.deep_view(),
                    chunks: chunks.deep_view(),
                    memberships: chunk_items@,
                },
            ),
        decreases artifacts.len() - i,
    {
        let artifact = artifacts[i];
        let ghost assets_before = assets.deep_view();
        let ghost chunks_before = chunks.deep_view();
        proof {
            assert(artifacts@.take(i + 1).drop_last() =~= artifacts@.take(i as int));
            assert(artifacts@.take(i + 1).last() == artifact);
            if contribution(graph, artifact) is Err {
                lemma_gathered_failure(graph, artifacts@, i + 1);
            }
        }
        if artifact >= graph.outputs.len() {
            return Err(StatsError::OutputPath(artifact));
        }
        let record = &graph.outputs[artifact];
        match &record.path {
            Lookup::Failed => {
                return Err(StatsError::OutputPath(artifact));
            },
            Lookup::Resolved(raw) => {
                let path = normalize_client_path(raw.as_str());
                match &record.size {
                    Lookup::Failed => {
                        return Err(StatsError::OutputSize(artifact));
                    },
                    Lookup::Resolved(None) => {},
                    Lookup::Resolved(Some(size)) => {
                        match &record.kind {
                            Lookup::Failed => {
                                return Err(StatsError::OutputKind(artifact));
                            },
                            Lookup::Resolved(ArtifactKind::Asset) => {
                                let asset = StatsAsset {
                                    kind: String::from_str("asset"),
                                    name: path.clone(),
                                    chunk_names: vec![path],
                                    size: *size,
                                };
                                assert(asset@.chunk_names =~= seq![path@]);
                                assets.push(asset);
                                assert(assets.deep_view() =~= assets_before.push(asset@));
                            },
                            Lookup::Resolved(ArtifactKind::Chunk(Lookup::Failed)) => {
                                return Err(StatsError::ChunkUnits(artifact));
                            },
                            Lookup::Resolved(ArtifactKind::Chunk(Lookup::Resolved(units))) => {
                                let chunk = StatsChunk {
                                    size: *size,
                                    files: vec![path.clone()],
                                    id: path.clone(),
                                };
                                assert(chunk@.files =~= seq![path@]);
                                chunks.push(chunk);
                                assert(chunks.deep_view() =~= chunks_before.push(chunk@));
                                chunk_items.record_all(units, &path);
                            },
                        }
                    },
                }
            },
        }
        i += 1;
    }
    assert(artifacts@.take(artifacts@.len() as int) =~= artifacts@);

    let held = chunk_items.entries();
    let mut modules: Vec<StatsModule> = Vec::new();
    let mut k: usize = 0;
    assert(held.deep_view().take(0) =~= Seq::<(usize, Seq<Seq<char>>)>::empty());
    assert(modules.deep_view() =~= Seq::<StatsModuleView>::empty());
    while k < held.len()
        invariant
            k <= held.len(),
            held.deep_view() == chunk_items@,
            gathered(graph, handle_items(*entry_assets)) matches Ok(found)
                && found.memberships == chunk_items@,
            module_entries(graph, chunk_items@.take(k as int)) == Ok::<
                Seq<StatsModuleView>,
                StatsError,
            >(modules.deep_view()),
        decreases held.len() - k,
    {
        let unit = held[k].0;
        let ghost modules_before = modules.deep_view();
        proof {
            assert(chunk_items@.take(k + 1).drop_last() =~= chunk_items@.take(k as int));
            assert(chunk_items@.take(k + 1).last() == held@[k as int].deep_view());
            if module_entry(graph, unit, held@[k as int].1.deep_view()) is Err {
                lemma_module_entries_failure(graph, chunk_items@, k + 1);
            }
        }
        if unit >= graph.units.len() {
            return Err(StatsError::UnitSize(unit));
        }
        let record = &graph.units[unit];
        let size = match &record.size {
            Lookup::Failed => {
                return Err(StatsError::UnitSize(unit));
            },
            Lookup::Resolved(size) => *size,
        };
        let path = match &record.path {
            Lookup::Failed => {
                return Err(StatsError::UnitPath(unit));
            },
            Lookup::Resolved(path) => path.clone(),
        };
        let module = StatsModule {
            name: path.clone(),
            id: path,
            chunks: held[k].1.clone(),
            size,
        };
        modules.push(module);
        assert(modules.deep_view() =~= modules_before.push(module@));
        k += 1;
    }
    assert(chunk_items@.take(chunk_items@.len() as int) =~= chunk_items@);

    let mut chunk_ids: Vec<String> = Vec::new();
    let mut c: usize = 0;
    while c < chunks.len()
        invariant
            c <= chunks.len(),
            chunk_ids@.len() == c,
            forall|j: int| 0 <= j < c ==> (#[trigger] chunk_ids@[j])@ == chunks@[j].id@,
        decreases chunks.len() - c,
    {
        chunk_ids.push(chunks[c].id.clone());
        c += 1;
    }
    let mut asset_names: Vec<StatsEntrypointAsset> = Vec::new();
    let mut a: usize = 0;
    while a < assets.len()
        invariant
            a <= assets.len(),
            asset_names@.len() == a,
            forall|j: int| 0 <= j < a ==> (#[trigger] asset_names@[j]).name@ == assets@[j].name@,
        decreases assets.len() - a,
    {
        asset_names.push(StatsEntrypointAsset { name: assets[a].name.clone() });
        a += 1;
    }
    let entrypoint = StatsEntrypoint {
        name: String::from_str(entry_name),
        chunks: chunk_ids,
        assets: asset_names,
    };
    proof {
        let expected = entrypoint_entry(entry_name@, assets.deep_view(), chunks.deep_view());
        assert(entrypoint@.chunks =~= expected.chunks);
        assert(entrypoint@.assets =~= expected.assets);
    }
    let mut entrypoints = new_entrypoint_map();
    insert_entrypoint(&mut entrypoints, String::from_str(entry_name), entrypoint);
    Ok(StatsReport { assets, chunks, modules, entrypoints })
}

} // verus!
