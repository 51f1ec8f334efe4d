//! The stats report: assets, chunks, modules and entrypoints of one entry.

use indexmap::IndexMap;
use vstd::prelude::*;

use crate::ordered::entrypoint_entries;

verus! {

/// An output file that is not a chunk.
#[derive(Debug, PartialEq, Eq)]
pub struct StatsAsset {
    pub kind: String,
    pub name: String,
    pub chunk_names: Vec<String>,
    pub size: u64,
}

/// What an asset holds.
pub struct StatsAssetView {
    pub kind: Seq<char>,
    pub name: Seq<char>,
    pub chunk_names: Seq<Seq<char>>,
    pub size: u64,
}

impl View for StatsAsset {
    type V = StatsAssetView;

    open spec fn view(&self) -> StatsAssetView {
        StatsAssetView {
            kind: self.kind@,
            name: self.name@,
            chunk_names: self.chunk_names.deep_view(),
            size: self.size,
        }
    }
}

impl DeepView for StatsAsset {
    type V = StatsAssetView;

    open spec fn deep_view(&self) -> StatsAssetView {
        self@
    }
}

/// A chunk: one output file that bundles code units.
#[derive(Debug, PartialEq, Eq)]
pub struct StatsChunk {
    pub size: u64,
    pub files: Vec<String>,
    pub id: String,
}

/// What a chunk holds.
pub struct StatsChunkView {
    pub size: u64,
    pub files: Seq<Seq<char>>,
    pub id: Seq<char>,
}

impl View for StatsChunk {
    type V = StatsChunkView;

    open spec fn view(&self) -> StatsChunkView {
        StatsChunkView { size: self.size, files: self.files.deep_view(), id: self.id@ }
    }
}

impl DeepView for StatsChunk {
    type V = StatsChunkView;

    open spec fn deep_view(&self) -> StatsChunkView {
        self@
    }
}

/// A code unit, with the chunks that bundle it.
#[derive(Debug, PartialEq, Eq)]
pub struct StatsModule {
    pub name: String,
    pub id: String,
    pub chunks: Vec<String>,
    pub size: Option<u64>,
}

/// What a module holds.
pub struct StatsModuleView {
    pub name: Seq<char>,
    pub id: Seq<char>,
    pub chunks: Seq<Seq<char>>,
    pub size: Option<u64>,
}

impl View for StatsModule {
    type V = StatsModuleView;

    open spec fn view(&self) -> StatsModuleView {
        StatsModuleView {
            name: self.name@,
            id: self.id@,
            chunks: self.chunks.deep_view(),
            size: self.size,
        }
    }
}

impl DeepView for StatsModule {
    type V = StatsModuleView;

    open spec fn deep_view(&self) -> StatsModuleView {
        self@
    }
}

/// An asset as an entrypoint lists it: by name.
#[derive(Debug, PartialEq, Eq)]
pub struct StatsEntrypointAsset {
    pub name: String,
}

/// What an entrypoint asset holds.
pub struct StatsEntrypointAssetView {
    pub name: Seq<char>,
}

impl View for StatsEntrypointAsset {
    type V = StatsEntrypointAssetView;

    open spec fn view(&self) -> StatsEntrypointAssetView {
        StatsEntrypointAssetView { name: self.name@ }
    }
}

impl DeepView for StatsEntrypointAsset {
    type V = StatsEntrypointAssetView;

    open spec fn deep_view(&self) -> StatsEntrypointAssetView {
        self@
    }
}

/// What one entry loads: its chunks by id and its assets by name.
#[derive(Debug, PartialEq, Eq)]
pub struct StatsEntrypoint {
    pub name: String,
    pub chunks: Vec<String>,
    pub assets: Vec<StatsEntrypointAsset>,
}

/// What an entrypoint holds.
pub struct StatsEntrypointView {
    pub name: Seq<char>,
    pub chunks: Seq<Seq<char>>,
    pub assets: Seq<StatsEntrypointAssetView>,
}

impl View for StatsEntrypoint {
    type V = StatsEntrypointView;

    open spec fn view(&self) -> StatsEntrypointView {
        StatsEntrypointView {
            name: self.name@,
            chunks: self.chunks.deep_view(),
            assets: self.assets.deep_view(),
        }
    }
}

/// The whole report.
#[derive(Debug, PartialEq, Eq)]
pub struct StatsReport {
    pub assets: Vec<StatsAsset>,
    pub chunks: Vec<StatsChunk>,
    pub modules: Vec<StatsModule>,
    pub entrypoints: IndexMap<String, StatsEntrypoint>,
}

/// What a report holds.
pub struct StatsReportView {
    pub assets: Seq<StatsAssetView>,
    pub chunks: Seq<StatsChunkView>,
    pub modules: Seq<StatsModuleView>,
    /// The entrypoints by name, in insertion order.
    pub entrypoints: Seq<(Seq<char>, StatsEntrypointView)>,
}

impl View for StatsReport {
    type V = StatsReportView;

    open spec fn view(&self) -> StatsReportView {
        StatsReportView {
            assets: self.assets.deep_view(),
            chunks: self.chunks.deep_view(),
            modules: self.modules.deep_view(),
            entrypoints: entrypoint_entries(self.entrypoints),
        }
    }
}

} // verus!
