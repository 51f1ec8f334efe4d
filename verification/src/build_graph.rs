//! The build artifacts that a stats pass reads: output artifacts and code
//! units, each found by its handle, with what looking up its path, its size and
//! its kind gave.

use vstd::prelude::*;

verus! {

/// What one lookup against the build gave: the value, or a failure.
#[derive(Debug, PartialEq, Eq)]
pub enum Lookup<T> {
    Resolved(T),
    Failed,
}

/// What an output artifact turned out to be.
#[derive(Debug, PartialEq, Eq)]
pub enum ArtifactKind {
    /// Any output file that is not a chunk.
    Asset,
    /// A chunk, with the lookup of the handles of the code units it bundles,
    /// in the chunk's own order.
    Chunk(Lookup<Vec<usize>>),
}

/// An output artifact: a file that the build emits.
#[derive(Debug, PartialEq, Eq)]
pub struct OutputArtifact {
    pub path: Lookup<String>,
    /// The byte length; `Resolved(None)` where the artifact has no size.
    pub size: Lookup<Option<u64>>,
    pub kind: Lookup<ArtifactKind>,
}

/// A code unit: the smallest processed module that a chunk bundles.
#[derive(Debug, PartialEq, Eq)]
pub struct CodeUnit {
    pub path: Lookup<String>,
    /// The byte length of the content; `Resolved(None)` where it has none.
    pub size: Lookup<Option<u64>>,
}

/// The artifacts of one build. The handle of an output artifact is its index
/// in `outputs`, the handle of a code unit its index in `units`; two handles
/// name the same artifact exactly when they are equal, whatever the paths.
/// Every lookup through a handle that is out of range fails.
#[derive(Debug, PartialEq, Eq)]
pub struct BuildGraph {
    pub outputs: Vec<OutputArtifact>,
    pub units: Vec<CodeUnit>,
}

impl BuildGraph {
    /// The path lookup of an output artifact.
    pub open spec fn output_path(&self, artifact: usize) -> Lookup<Seq<char>> {
        if artifact < self.outputs@.len() {
            match self.outputs@[artifact as int].path {
                Lookup::Resolved(path) => Lookup::Resolved(path@),
                Lookup::Failed => Lookup::Failed,
            }
        } else {
            Lookup::Failed
        }
    }

    /// The size lookup of an output artifact.
    pub open spec fn output_size(&self, artifact: usize) -> Lookup<Option<u64>> {
        if artifact < self.outputs@.len() {
            self.outputs@[artifact as int].size
        } else {
            Lookup::Failed
        }
    }

    /// Whether an output artifact is a chunk: `Resolved(true)` for a chunk,
    /// `Resolved(false)` for any other artifact.
    pub open spec fn output_is_chunk(&self, artifact: usize) -> Lookup<bool> {
        if artifact < self.outputs@.len() {
            match self.outputs@[artifact as int].kind {
                Lookup::Resolved(kind) => Lookup::Resolved(kind is Chunk),
                Lookup::Failed => Lookup::Failed,
            }
        } else {
            Lookup::Failed
        }
    }

    /// The code units of a chunk, in the chunk's order. Fails for an artifact
    /// that is no chunk.
    pub open spec fn chunk_units(&self, artifact: usize) -> Lookup<Seq<usize>> {
        if artifact < self.outputs@.len() {
            match self.outputs@[artifact as int].kind {
                Lookup::Resolved(ArtifactKind::Chunk(Lookup::Resolved(units))) => Lookup::Resolved(
                    units@,
                ),
                _ => Lookup::Failed,
            }
        } else {
            Lookup::Failed
        }
    }

    /// The path lookup of a code unit.
    pub open spec fn unit_path(&self, unit: usize) -> Lookup<Seq<char>> {
        if unit < self.units@.len() {
            match self.units@[unit as int].path {
                Lookup::Resolved(path) => Lookup::Resolved(path@),
                Lookup::Failed => Lookup::Failed,
            }
        } else {
            Lookup::Failed
        }
    }

    /// The size lookup of a code unit.
    pub open spec fn unit_size(&self, unit: usize) -> Lookup<Option<u64>> {
        if unit < self.units@.len() {
            self.units@[unit as int].size
        } else {
            Lookup::Failed
        }
    }
}

} // verus!
