//! What holds of every stats report.

use vstd::prelude::*;

use crate::build_graph::BuildGraph;
use crate::build_graph::Lookup;
use crate::memberships::with_membership;
use crate::memberships::with_memberships;
use crate::memberships::Memberships;
use crate::ordered::inserted;
use crate::ordered::keys;
use crate::ordered::lemma_inserted_no_duplicates;
use crate::stats_report::StatsAssetView;
use crate::stats_report::StatsChunkView;
use crate::stats_report::StatsModuleView;
use crate::stats_report::StatsReport;
use crate::webpack_stats::contribution;
use crate::webpack_stats::gathered;
use crate::webpack_stats::gathered_with;
use crate::webpack_stats::module_entries;
use crate::webpack_stats::module_entry;
use crate::webpack_stats::outcome_view;
use crate::webpack_stats::webpack_stats;
use crate::webpack_stats::Contribution;
use crate::webpack_stats::StatsError;

verus! {

/// Whether `id` is the id of one of `chunks`.
pub open spec fn is_chunk_id(chunks: Seq<StatsChunkView>, id: Seq<char>) -> bool {
    exists|c: int| 0 <= c < chunks.len() && (#[trigger] chunks[c]).id == id
}

/// Whether every chunk that `held` names is one of `chunks`.
pub open spec fn held_by_reported_chunks(held: Memberships, chunks: Seq<StatsChunkView>) -> bool {
    forall|k: int, j: int|
        0 <= k < held.len() && 0 <= j < held[k].1.len() ==> is_chunk_id(
            chunks,
            #[trigger] held[k].1[j],
        )
}

/// Whether no code unit of `held` names a chunk twice.
pub open spec fn chunks_named_once(held: Memberships) -> bool {
    forall|k: int| 0 <= k < held.len() ==> (#[trigger] held[k]).1.no_duplicates()
}

/// Meeting a unit in a chunk adds the unit to the keys as a set insertion
/// does, and keeps the memberships free of repetitions and within the chunks
/// reported.
proof fn lemma_with_membership(held: Memberships, unit: usize, chunk: Seq<char>)
    ensures
        keys(with_membership(held, unit, chunk)) == inserted(keys(held), unit),
        keys(held).no_duplicates() ==> keys(with_membership(held, unit, chunk)).no_duplicates(),
        chunks_named_once(held) ==> chunks_named_once(with_membership(held, unit, chunk)),
        forall|chunks: Seq<StatsChunkView>|
            held_by_reported_chunks(held, chunks) && is_chunk_id(chunks, chunk)
                ==> #[trigger] held_by_reported_chunks(with_membership(held, unit, chunk), chunks),
{
    let after = with_membership(held, unit, chunk);
    assert(keys(after) =~= inserted(keys(held), unit)) by {
        if keys(held).contains(unit) {
            assert forall|k: int| 0 <= k < held.len() implies keys(after)[k] == keys(held)[k] by {
                if held[k].0 == unit {
                }
            }
        }
    }
    if keys(held).no_duplicates() {
        lemma_inserted_no_duplicates(keys(held), unit);
    }
    if chunks_named_once(held) {
        assert forall|k: int| 0 <= k < after.len() implies (#[trigger] after[k]).1.no_duplicates() by {
            if keys(held).contains(unit) {
                assert(held[k].1.no_duplicates());
                lemma_inserted_no_duplicates(held[k].1, chunk);
            } else {
                if k < held.len() {
                    assert(held[k].1.no_duplicates());
                }
            }
        }
    }
    assert forall|chunks: Seq<StatsChunkView>|
        held_by_reported_chunks(held, chunks) && is_chunk_id(chunks, chunk)
            implies #[trigger] held_by_reported_chunks(after, chunks) by {
        assert forall|k: int, j: int|
            0 <= k < after.len() && 0 <= j < after[k].1.len() implies is_chunk_id(
            chunks,
            #[trigger] after[k].1[j],
        ) by {
            if keys(held).contains(unit) {
                if held[k].0 == unit {
                    if j < held[k].1.len() {
                        assert(after[k].1[j] == held[k].1[j]);
                    }
                } else {
                    assert(after[k].1[j] == held[k].1[j]);
                }
            } else {
                if k < held.len() {
                    assert(after[k].1[j] == held[k].1[j]);
                }
            }
        }
    }
}

/// Meeting units in a chunk keeps the memberships free of repetitions and
/// within the chunks reported.
proof fn lemma_with_memberships(held: Memberships, units: Seq<usize>, chunk: Seq<char>)
    ensures
        keys(held).no_duplicates() ==> keys(with_memberships(held, units, chunk)).no_duplicates(),
        chunks_named_once(held) ==> chunks_named_once(with_memberships(held, units, chunk)),
        forall|chunks: Seq<StatsChunkView>|
            held_by_reported_chunks(held, chunks) && is_chunk_id(chunks, chunk)
                ==> #[trigger] held_by_reported_chunks(with_memberships(held, units, chunk), chunks),
    decreases units.len(),
{
    if units.len() > 0 {
        let before = with_memberships(held, units.drop_last(), chunk);
        lemma_with_memberships(held, units.drop_last(), chunk);
        lemma_with_membership(before, units.last(), chunk);
    }
}

/// What a pass has gathered is consistent: no code unit has two entries, no
/// entry names a chunk twice, and every chunk named is among the chunks
/// gathered.
pub proof fn lemma_gathered_consistent(graph: &BuildGraph, artifacts: Seq<usize>)
    ensures
        gathered(graph, artifacts) matches Ok(found) ==> {
            &&& keys(found.memberships).no_duplicates()
            &&& chunks_named_once(found.memberships)
            &&& held_by_reported_chunks(found.memberships, found.chunks)
        },
    decreases artifacts.len(),
{
    if artifacts.len() > 0 {
        lemma_gathered_consistent(graph, artifacts.drop_last());
        if let Ok(before) = gathered(graph, artifacts.drop_last()) {
            if let Ok(added) = contribution(graph, artifacts.last()) {
                let after = gathered_with(before, added);
                match added {
                    Contribution::Chunk(chunk, units) => {
                        assert(after.chunks[before.chunks.len() as int] == chunk);
                        assert(is_chunk_id(after.chunks, chunk.id));
                        assert(held_by_reported_chunks(before.memberships, after.chunks)) by {
                            assert forall|k: int, j: int|
                                0 <= k < before.memberships.len() && 0 <= j
                                    < before.memberships[k].1.len() implies is_chunk_id(
                                after.chunks,
                                #[trigger] before.memberships[k].1[j],
                            ) by {
                                let id = before.memberships[k].1[j];
                                assert(is_chunk_id(before.chunks, id));
                                let c = choose|c: int|
                                    0 <= c < before.chunks.len() && (#[trigger] before.chunks[c]).id
                                        == id;
                                assert(after.chunks[c] == before.chunks[c]);
                            }
                        }
                        lemma_with_memberships(before.memberships, units, chunk.id);
                    },
                    _ => {},
                }
            }
        }
    } else {
        assert(keys(Seq::<(usize, Seq<Seq<char>>)>::empty()) =~= Seq::<usize>::empty());
    }
}

/// The modules of a report stand one for one, in order, for the code units
/// that the chunks brought up: each has the unit's path as name and id, the
/// unit's size, and the unit's chunks.
pub proof fn lemma_module_entries_each(graph: &BuildGraph, held: Memberships)
    ensures
        module_entries(graph, held) matches Ok(modules) ==> {
            &&& modules.len() == held.len()
            &&& forall|k: int|
                0 <= k < held.len() ==> module_entry(graph, held[k].0, held[k].1) == Ok::<
                    StatsModuleView,
                    StatsError,
                >(#[trigger] modules[k])
        },
    decreases held.len(),
{
    if held.len() > 0 {
        lemma_module_entries_each(graph, held.drop_last());
    }
}

/// Every chunk that a module of a report names is a chunk of that report, and
/// the entrypoint lists exactly the report's chunks.
pub proof fn lemma_module_chunks_reported(graph: &BuildGraph, name: Seq<char>, artifacts: Seq<usize>)
    ensures
        webpack_stats(graph, name, artifacts) matches Ok(report) ==> {
            &&& forall|i: int, j: int|
                0 <= i < report.modules.len() && 0 <= j < report.modules[i].chunks.len()
                    ==> is_chunk_id(report.chunks, #[trigger] report.modules[i].chunks[j])
            &&& report.entrypoints.len() == 1
            &&& report.entrypoints[0].0 == name
            &&& report.entrypoints[0].1.chunks.len() == report.chunks.len()
            &&& forall|c: int|
                0 <= c < report.chunks.len() ==> #[trigger] report.entrypoints[0].1.chunks[c]
                    == report.chunks[c].id
        },
{
    if let Ok(found) = gathered(graph, artifacts) {
        lemma_gathered_consistent(graph, artifacts);
        lemma_module_entries_each(graph, found.memberships);
        if let Ok(report) = webpack_stats(graph, name, artifacts) {
            assert forall|i: int, j: int|
                0 <= i < report.modules.len() && 0 <= j
                    < report.modules[i].chunks.len() implies is_chunk_id(
                report.chunks,
                #[trigger] report.modules[i].chunks[j],
            ) by {
                assert(report.modules[i].chunks == found.memberships[i].1);
                assert(is_chunk_id(found.chunks, found.memberships[i].1[j]));
            }
        }
    }
}

/// The asset that the output artifact `artifact` adds to a report, if it adds
/// one.
pub open spec fn asset_added(graph: &BuildGraph, artifact: usize) -> Option<StatsAssetView> {
    match contribution(graph, artifact) {
        Ok(Contribution::Asset(asset)) => Some(asset),
        _ => None,
    }
}

/// The chunk that the output artifact `artifact` adds to a report, if it adds
/// one.
pub open spec fn chunk_added(graph: &BuildGraph, artifact: usize) -> Option<StatsChunkView> {
    match contribution(graph, artifact) {
        Ok(Contribution::Chunk(chunk, _)) => Some(chunk),
        _ => None,
    }
}

/// The assets gathered are those that the artifacts add, in the order of the
/// artifacts, and so are the chunks.
pub proof fn lemma_gathered_in_order(graph: &BuildGraph, artifacts: Seq<usize>)
    ensures
        gathered(graph, artifacts) matches Ok(found) ==> {
            &&& found.assets == artifacts.filter_map(|a: usize| asset_added(graph, a))
            &&& found.chunks == artifacts.filter_map(|a: usize| chunk_added(graph, a))
        },
    decreases artifacts.len(),
{
    if artifacts.len() > 0 {
        lemma_gathered_in_order(graph, artifacts.drop_last());
        if let Ok(found) = gathered(graph, artifacts) {
            let before = gathered(graph, artifacts.drop_last())->Ok_0;
            let assets = artifacts.filter_map(|a: usize| asset_added(graph, a));
            let chunks = artifacts.filter_map(|a: usize| chunk_added(graph, a));
            match contribution(graph, artifacts.last())->Ok_0 {
                Contribution::Nothing => {},
                Contribution::Asset(asset) => {
                    assert(assets =~= before.assets.push(asset));
                },
                Contribution::Chunk(chunk, _) => {
                    assert(chunks =~= before.chunks.push(chunk));
                },
            }
        }
    }
}

/// A pass over the artifacts fails exactly where a lookup for one of them
/// fails, and then with the failure of the first such artifact.
pub proof fn lemma_first_failure(graph: &BuildGraph, artifacts: Seq<usize>)
    ensures
        match gathered(graph, artifacts) {
            Ok(_) => forall|i: int|
                0 <= i < artifacts.len() ==> contribution(graph, #[trigger] artifacts[i]) is Ok,
            Err(error) => exists|i: int|
                {
                    &&& 0 <= i < artifacts.len()
                    &&& contribution(graph, #[trigger] artifacts[i]) == Err::<
                        Contribution,
                        StatsError,
                    >(error)
                    &&& forall|j: int|
                        0 <= j < i ==> contribution(graph, #[trigger] artifacts[j]) is Ok
                },
        },
    decreases artifacts.len(),
{
    if artifacts.len() > 0 {
        let front = artifacts.drop_last();
        let last = artifacts.len() - 1;
        lemma_first_failure(graph, front);
        match gathered(graph, front) {
            Ok(_) => {
                assert forall|j: int| 0 <= j < last implies contribution(
                    graph,
                    #[trigger] artifacts[j],
                ) is Ok by {
                    assert(front[j] == artifacts[j]);
                }
                if let Err(error) = contribution(graph, artifacts.last()) {
                    assert(contribution(graph, artifacts[last]) == Err::<Contribution, StatsError>(
                        error,
                    ));
                }
            },
            Err(error) => {
                let i = choose|i: int|
                    {
                        &&& 0 <= i < front.len()
                        &&& contribution(graph, #[trigger] front[i]) == Err::<
                            Contribution,
                            StatsError,
                        >(error)
                        &&& forall|j: int|
                            0 <= j < i ==> contribution(graph, #[trigger] front[j]) is Ok
                    };
                assert(front[i] == artifacts[i]);
                assert forall|j: int| 0 <= j < i implies contribution(
                    graph,
                    #[trigger] artifacts[j],
                ) is Ok by {
                    assert(front[j] == artifacts[j]);
                }
            },
        }
    }
}

/// The modules fail exactly where a lookup for one of the code units fails,
/// and then with the failure of the first such unit.
pub proof fn lemma_first_unit_failure(graph: &BuildGraph, held: Memberships)
    ensures
        match module_entries(graph, held) {
            Ok(_) => forall|k: int|
                0 <= k < held.len() ==> module_entry(
                    graph,
                    (#[trigger] held[k]).0,
                    held[k].1,
                ) is Ok,
            Err(error) => exists|k: int|
                {
                    &&& 0 <= k < held.len()
                    &&& module_entry(graph, (#[trigger] held[k]).0, held[k].1) == Err::<
                        StatsModuleView,
                        StatsError,
                    >(error)
                    &&& forall|j: int|
                        0 <= j < k ==> module_entry(graph, (#[trigger] held[j]).0, held[j].1) is Ok
                },
        },
    decreases held.len(),
{
    if held.len() > 0 {
        let front = held.drop_last();
        let last = held.len() - 1;
        lemma_first_unit_failure(graph, front);
        match module_entries(graph, front) {
            Ok(_) => {
                assert forall|j: int| 0 <= j < last implies module_entry(
                    graph,
                    (#[trigger] held[j]).0,
                    held[j].1,
                ) is Ok by {
                    assert(front[j] == held[j]);
                }
                if let Err(error) = module_entry(graph, held.last().0, held.last().1) {
                    assert(module_entry(graph, held[last].0, held[last].1) == Err::<
                        StatsModuleView,
                        StatsError,
                    >(error));
                }
            },
            Err(error) => {
                let k = choose|k: int|
                    {
                        &&& 0 <= k < front.len()
                        &&& module_entry(graph, (#[trigger] front[k]).0, front[k].1) == Err::<
                            StatsModuleView,
                            StatsError,
                        >(error)
                        &&& forall|j: int|
                            0 <= j < k ==> module_entry(
                                graph,
                                (#[trigger] front[j]).0,
                                front[j].1,
                            ) is Ok
                    };
                assert(front[k] == held[k]);
                assert forall|j: int| 0 <= j < k implies module_entry(
                    graph,
                    (#[trigger] held[j]).0,
                    held[j].1,
                ) is Ok by {
                    assert(front[j] == held[j]);
                }
            },
        }
    }
}

/// Whether the output artifact `artifact` adds to a report a chunk with the
/// id `id` that holds the code unit `unit`.
pub open spec fn chunk_holds(graph: &BuildGraph, artifact: usize, unit: usize, id: Seq<char>) -> bool {
    contribution(graph, artifact) matches Ok(Contribution::Chunk(chunk, units)) && chunk.id == id
        && units.contains(unit)
}

/// Whether one of `artifacts` adds a chunk with the id `id` that holds `unit`.
pub open spec fn held_somewhere(
    graph: &BuildGraph,
    artifacts: Seq<usize>,
    unit: usize,
    id: Seq<char>,
) -> bool {
    exists|i: int| 0 <= i < artifacts.len() && chunk_holds(graph, #[trigger] artifacts[i], unit, id)
}

/// Whether `held` names the chunk `id` for the code unit `unit`.
pub open spec fn names_chunk(held: Memberships, unit: usize, id: Seq<char>) -> bool {
    exists|k: int| 0 <= k < held.len() && (#[trigger] held[k]).0 == unit && held[k].1.contains(id)
}

/// After an insertion a set holds what it held, and the value inserted.
proof fn lemma_inserted_contains<T>(items: Seq<T>, value: T, other: T)
    ensures
        inserted(items, value).contains(other) <==> items.contains(other) || other == value,
{
    if !items.contains(value) {
        let after = items.push(value);
        if after.contains(other) {
            let i = choose|i: int| 0 <= i < after.len() && after[i] == other;
            if i < items.len() {
                assert(items[i] == other);
            }
        }
        if items.contains(other) {
            let i = choose|i: int| 0 <= i < items.len() && items[i] == other;
            assert(after[i] == other);
        }
        assert(after[items.len() as int] == value);
    }
}

/// After a unit was met in a chunk, the memberships name what they named, and
/// that chunk for that unit.
proof fn lemma_with_membership_names(
    held: Memberships,
    unit: usize,
    chunk: Seq<char>,
    other: usize,
    id: Seq<char>,
)
    ensures
        names_chunk(with_membership(held, unit, chunk), other, id) <==> names_chunk(held, other, id)
            || (other == unit && id == chunk),
{
    let after = with_membership(held, unit, chunk);
    if keys(held).contains(unit) {
        let at = choose|i: int| 0 <= i < keys(held).len() && keys(held)[i] == unit;
        assert(held[at].0 == unit);
        if names_chunk(after, other, id) {
            let k = choose|k: int|
                0 <= k < after.len() && (#[trigger] after[k]).0 == other && after[k].1.contains(id);
            if held[k].0 == unit {
                lemma_inserted_contains(held[k].1, chunk, id);
            }
            if !(other == unit && id == chunk) {
                assert(held[k].0 == other && held[k].1.contains(id));
            }
        }
        if names_chunk(held, other, id) {
            let k = choose|k: int|
                0 <= k < held.len() && (#[trigger] held[k]).0 == other && held[k].1.contains(id);
            if held[k].0 == unit {
                lemma_inserted_contains(held[k].1, chunk, id);
            }
            assert(after[k].0 == other && after[k].1.contains(id));
        }
        if other == unit && id == chunk {
            lemma_inserted_contains(held[at].1, chunk, id);
            assert(after[at].0 == other && after[at].1.contains(id));
        }
    } else {
        let last = held.len() as int;
        assert(after[last] == (unit, seq![chunk]));
        assert(seq![chunk][0] == chunk);
        if names_chunk(after, other, id) {
            let k = choose|k: int|
                0 <= k < after.len() && (#[trigger] after[k]).0 == other && after[k].1.contains(id);
            if k < last {
                assert(held[k].0 == other && held[k].1.contains(id));
            }
        }
        if names_chunk(held, other, id) {
            let k = choose|k: int|
                0 <= k < held.len() && (#[trigger] held[k]).0 == other && held[k].1.contains(id);
            assert(after[k].0 == other && after[k].1.contains(id));
        }
        if other == unit && id == chunk {
            assert(after[last].0 == other && after[last].1.contains(id));
        }
    }
}

/// After units were met in a chunk, the memberships name what they named, and
/// that chunk for each of those units.
proof fn lemma_with_memberships_names(
    held: Memberships,
    units: Seq<usize>,
    chunk: Seq<char>,
    other: usize,
    id: Seq<char>,
)
    ensures
        names_chunk(with_memberships(held, units, chunk), other, id) <==> names_chunk(
            held,
            other,
            id,
        ) || (units.contains(other) && id == chunk),
    decreases units.len(),
{
    if units.len() > 0 {
        let front = units.drop_last();
        lemma_with_memberships_names(held, front, chunk, other, id);
        lemma_with_membership_names(
            with_memberships(held, front, chunk),
            units.last(),
            chunk,
            other,
            id,
        );
        if units.contains(other) {
            let i = choose|i: int| 0 <= i < units.len() && units[i] == other;
            if i < front.len() {
                assert(front[i] == other);
            }
        }
        if front.contains(other) {
            let i = choose|i: int| 0 <= i < front.len() && front[i] == other;
            assert(units[i] == other);
        }
        assert(units[units.len() - 1] == units.last());
    }
}

/// What a pass has gathered names a chunk for a code unit exactly where one
/// of the artifacts read is a chunk with that id that holds the unit.
pub proof fn lemma_gathered_names(
    graph: &BuildGraph,
    artifacts: Seq<usize>,
    unit: usize,
    id: Seq<char>,
)
    ensures
        gathered(graph, artifacts) matches Ok(found) ==> (names_chunk(found.memberships, unit, id)
            <==> held_somewhere(graph, artifacts, unit, id)),
    decreases artifacts.len(),
{
    if artifacts.len() > 0 {
        let front = artifacts.drop_last();
        lemma_gathered_names(graph, front, unit, id);
        if let Ok(before) = gathered(graph, front) {
            if let Ok(added) = contribution(graph, artifacts.last()) {
                match added {
                    Contribution::Chunk(chunk, units) => {
                        lemma_with_memberships_names(before.memberships, units, chunk.id, unit, id);
                    },
                    _ => {},
                }
                if held_somewhere(graph, artifacts, unit, id) {
                    let i = choose|i: int|
                        0 <= i < artifacts.len() && chunk_holds(
                            graph,
                            #[trigger] artifacts[i],
                            unit,
                            id,
                        );
                    if i < front.len() {
                        assert(chunk_holds(graph, front[i], unit, id));
                    }
                }
                if held_somewhere(graph, front, unit, id) {
                    let i = choose|i: int|
                        0 <= i < front.len() && chunk_holds(graph, #[trigger] front[i], unit, id);
                    assert(chunk_holds(graph, artifacts[i], unit, id));
                }
                if chunk_holds(graph, artifacts.last(), unit, id) {
                    assert(chunk_holds(graph, artifacts[artifacts.len() - 1], unit, id));
                }
            }
        }
    } else {
        if let Ok(found) = gathered(graph, artifacts) {
            assert(!names_chunk(found.memberships, unit, id));
        }
    }
}

/// A report has one module for each code unit that a chunk of the entry
/// holds, and none besides; the module of a unit names exactly the chunks
/// that hold the unit.
pub proof fn lemma_one_module_per_unit(graph: &BuildGraph, name: Seq<char>, artifacts: Seq<usize>)
    ensures
        webpack_stats(graph, name, artifacts) matches Ok(report) ==> gathered(
            graph,
            artifacts,
        ) matches Ok(found) && {
            let units = keys(found.memberships);
            &&& units.no_duplicates()
            &&& report.modules.len() == units.len()
            &&& forall|k: int|
                0 <= k < units.len() ==> graph.unit_path(units[k]) == Lookup::Resolved(
                    (#[trigger] report.modules[k]).id,
                )
            &&& forall|k: int, id: Seq<char>|
                0 <= k < units.len() ==> (#[trigger] report.modules[k].chunks.contains(id)
                    <==> held_somewhere(graph, artifacts, units[k], id))
            &&& forall|unit: usize, id: Seq<char>| #[trigger]
                held_somewhere(graph, artifacts, unit, id) ==> units.contains(unit)
        },
{
    if let Ok(report) = webpack_stats(graph, name, artifacts) {
        let found = gathered(graph, artifacts)->Ok_0;
        let held = found.memberships;
        let units = keys(held);
        lemma_gathered_consistent(graph, artifacts);
        lemma_module_entries_each(graph, held);
        assert forall|k: int| 0 <= k < units.len() implies graph.unit_path(units[k])
            == Lookup::Resolved((#[trigger] report.modules[k]).id) by {
            assert(module_entry(graph, held[k].0, held[k].1) == Ok::<StatsModuleView, StatsError>(
                report.modules[k],
            ));
        }
        assert forall|k: int, id: Seq<char>| 0 <= k < units.len() implies (
        #[trigger] report.modules[k].chunks.contains(id) <==> held_somewhere(
            graph,
            artifacts,
            units[k],
            id,
        )) by {
            assert(module_entry(graph, held[k].0, held[k].1) == Ok::<StatsModuleView, StatsError>(
                report.modules[k],
            ));
            lemma_gathered_names(graph, artifacts, units[k], id);
            if names_chunk(held, units[k], id) {
                let j = choose|j: int|
                    0 <= j < held.len() && (#[trigger] held[j]).0 == units[k] && held[j].1.contains(
                        id,
                    );
                assert(units[j] == units[k]);
            }
            if held[k].1.contains(id) {
                assert(held[k].0 == units[k]);
            }
        }
        assert forall|unit: usize, id: Seq<char>| #[trigger]
            held_somewhere(graph, artifacts, unit, id) implies units.contains(unit) by {
            lemma_gathered_names(graph, artifacts, unit, id);
            let j = choose|j: int|
                0 <= j < held.len() && (#[trigger] held[j]).0 == unit && held[j].1.contains(id);
            assert(units[j] == unit);
        }
    }
}

/// The code units that a chunk among `artifacts` holds, chunk after chunk in
/// the order of the artifacts, each chunk's units in the chunk's order. A unit
/// stands here as often as it is held.
pub open spec fn units_met(graph: &BuildGraph, artifacts: Seq<usize>) -> Seq<usize>
    decreases artifacts.len(),
{
    if artifacts.len() == 0 {
        Seq::empty()
    } else {
        units_met(graph, artifacts.drop_last()) + match contribution(graph, artifacts.last()) {
            Ok(Contribution::Chunk(_, units)) => units,
            _ => Seq::empty(),
        }
    }
}

/// The units `seen`, and then those of `units` that are new, each where it
/// comes first.
pub open spec fn met_after(seen: Seq<usize>, units: Seq<usize>) -> Seq<usize>
    decreases units.len(),
{
    if units.len() == 0 {
        seen
    } else {
        inserted(met_after(seen, units.drop_last()), units.last())
    }
}

/// The units of `units`, each once, in the order of first meeting.
pub open spec fn first_meetings(units: Seq<usize>) -> Seq<usize> {
    met_after(Seq::empty(), units)
}

/// Meeting one run of units and then another is meeting the two on end.
proof fn lemma_met_after_both(seen: Seq<usize>, first: Seq<usize>, second: Seq<usize>)
    ensures
        met_after(seen, first + second) == met_after(met_after(seen, first), second),
    decreases second.len(),
{
    if second.len() == 0 {
        assert(first + second =~= first);
    } else {
        lemma_met_after_both(seen, first, second.drop_last());
        assert((first + second).drop_last() =~= first + second.drop_last());
        assert((first + second).last() == second.last());
    }
}

/// The keys after units were met in a chunk are the keys before, and then the
/// new units where they come first.
proof fn lemma_with_memberships_keys(held: Memberships, units: Seq<usize>, chunk: Seq<char>)
    ensures
        keys(with_memberships(held, units, chunk)) == met_after(keys(held), units),
    decreases units.len(),
{
    if units.len() > 0 {
        lemma_with_memberships_keys(held, units.drop_last(), chunk);
        lemma_with_membership(with_memberships(held, units.drop_last(), chunk), units.last(), chunk);
    }
}

/// The modules of a report come in the order in which their code units are
/// first met: module by module, the report lists the units that the chunks
/// hold, each once, where it comes first.
pub proof fn lemma_modules_in_meeting_order(
    graph: &BuildGraph,
    name: Seq<char>,
    artifacts: Seq<usize>,
)
    ensures
        gathered(graph, artifacts) matches Ok(found) ==> keys(found.memberships) == first_meetings(
            units_met(graph, artifacts),
        ),
        webpack_stats(graph, name, artifacts) matches Ok(report) ==> {
            let units = first_meetings(units_met(graph, artifacts));
            &&& report.modules.len() == units.len()
            &&& forall|k: int|
                0 <= k < units.len() ==> graph.unit_path(units[k]) == Lookup::Resolved(
                    (#[trigger] report.modules[k]).id,
                )
        },
    decreases artifacts.len(),
{
    if artifacts.len() > 0 {
        let front = artifacts.drop_last();
        lemma_modules_in_meeting_order(graph, name, front);
        if let Ok(found) = gathered(graph, artifacts) {
            let before = gathered(graph, front)->Ok_0;
            match contribution(graph, artifacts.last())->Ok_0 {
                Contribution::Chunk(chunk, units) => {
                    lemma_with_memberships_keys(before.memberships, units, chunk.id);
                    lemma_met_after_both(Seq::empty(), units_met(graph, front), units);
                },
                _ => {
                    assert(units_met(graph, artifacts) =~= units_met(graph, front));
                },
            }
        }
    } else {
        assert(keys(Seq::<(usize, Seq<Seq<char>>)>::empty()) =~= Seq::<usize>::empty());
    }
    if webpack_stats(graph, name, artifacts) is Ok {
        lemma_one_module_per_unit(graph, name, artifacts);
    }
}

/// Whether two code units of `graph` never share a path.
pub open spec fn unit_paths_distinct(graph: &BuildGraph) -> bool {
    forall|a: usize, b: usize|
        a != b && graph.unit_path(a) is Resolved && graph.unit_path(b) is Resolved
            ==> #[trigger] graph.unit_path(a) != #[trigger] graph.unit_path(b)
}

/// A report has one module for each code unit, however many chunks hold it:
/// no module names a chunk twice, and where no two code units share a path, no
/// two modules share an id.
pub proof fn lemma_modules_distinct(graph: &BuildGraph, name: Seq<char>, artifacts: Seq<usize>)
    ensures
        webpack_stats(graph, name, artifacts) matches Ok(report) ==> {
            &&& forall|i: int|
                0 <= i < report.modules.len() ==> (#[trigger] report.modules[i]).chunks.no_duplicates()
            &&& unit_paths_distinct(graph) ==> forall|i: int, j: int|
                0 <= i < j < report.modules.len() ==> (#[trigger] report.modules[i]).id
                    != (#[trigger] report.modules[j]).id
        },
{
    if let Ok(found) = gathered(graph, artifacts) {
        lemma_gathered_consistent(graph, artifacts);
        lemma_module_entries_each(graph, found.memberships);
        if let Ok(report) = webpack_stats(graph, name, artifacts) {
            let held = found.memberships;
            assert forall|i: int| 0 <= i < report.modules.len() implies (
            #[trigger] report.modules[i]).chunks.no_duplicates() by {
                assert(held[i].1.no_duplicates());
                assert(module_entry(graph, held[i].0, held[i].1) == Ok::<
                    StatsModuleView,
                    StatsError,
                >(report.modules[i]));
            }
            if unit_paths_distinct(graph) {
                assert forall|i: int, j: int| 0 <= i < j < report.modules.len() implies (
                #[trigger] report.modules[i]).id != (#[trigger] report.modules[j]).id by {
                    assert(module_entry(graph, held[i].0, held[i].1) == Ok::<
                        StatsModuleView,
                        StatsError,
                    >(report.modules[i]));
                    assert(module_entry(graph, held[j].0, held[j].1) == Ok::<
                        StatsModuleView,
                        StatsError,
                    >(report.modules[j]));
                    assert(keys(held)[i] != keys(held)[j]);
                    assert(graph.unit_path(held[i].0) == Lookup::Resolved(report.modules[i].id));
                    assert(graph.unit_path(held[j].0) == Lookup::Resolved(report.modules[j].id));
                }
            }
        }
    }
}

/// Two passes over the same artifacts of the same build, for the same entry,
/// end alike: with the same report, or with the same failure.
pub proof fn lemma_pass_repeatable(
    graph: &BuildGraph,
    name: Seq<char>,
    artifacts: Seq<usize>,
    first: Result<StatsReport, StatsError>,
    second: Result<StatsReport, StatsError>,
)
    requires
        outcome_view(first) == webpack_stats(graph, name, artifacts),
        outcome_view(second) == webpack_stats(graph, name, artifacts),
    ensures
        outcome_view(first) == outcome_view(second),
        first matches Ok(a) ==> second matches Ok(b) && a@ == b@,
        first matches Err(a) ==> second matches Err(b) && a == b,
{
}

} // verus!
