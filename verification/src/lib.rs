//! Verified core of a road-network wallpaper pipeline.
//!
//! The pipeline resolves a place name to administrative areas, fetches and
//! caches the raw street graph for each area, projects the graph into pixel
//! space as straight road segments, and hands those segments out in bounded
//! batches for progressive rendering.  Network and file transfer live outside
//! this crate; everything here is the logic between those edges.

pub mod cache;
pub mod extract;
pub mod geo;
pub mod graph;
pub mod numfmt;
pub mod project;
pub mod scheduler;

use vstd::prelude::*;

verus! {

/// Every failure the pipeline can surface.  Each error is fatal for the
/// single area or request in progress and is reported to the caller rather
/// than being skipped or defaulted.
#[derive(Clone, Copy, PartialEq, Eq, Structural, Debug)]
pub enum PipelineError {
    /// No relation-typed record came back for a place name.
    NotFound,
    /// A network or transport failure from a collaborator.
    FetchFailed,
    /// Malformed payload or a missing required field.
    ParseFailed,
    /// A graph with zero nodes has no bounds.
    EmptyGraph,
    /// Bounds with zero longitude span, or a non-positive target size.
    DegenerateBounds,
    /// A way references a node id absent from the node mapping.
    DanglingReference,
    /// Persisting a fetched graph failed.
    CacheWriteFailed,
    /// A random pick over an empty set of cache entries.
    NoCacheEntries,
}

} // verus!
