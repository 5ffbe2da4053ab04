//! Error kinds of the pipeline.
//!
//! `FetchError` is what one fetch (after its retry budget is spent) reports;
//! `PipelineError` is what a whole run surfaces to its caller.

use vstd::prelude::*;

verus! {

/// The terminal failure of a fetch: either the transport itself failed
/// (connection, timeout), or the server answered with a non-success status.
#[derive(Clone, Copy, Debug, PartialEq, Eq, Structural)]
pub enum FetchError {
    Transport,
    HttpStatus(u16),
}

/// Every way a pipeline run can fail.
#[derive(Clone, Copy, Debug, PartialEq, Eq, Structural)]
pub enum PipelineError {
    /// The transport failed while fetching a manifest.
    Transport,
    /// A manifest fetch got a non-success HTTP status.
    HttpStatus(u16),
    /// Indirection was required but the root manifest holds no URL line.
    ManifestParse,
    /// The resolved work list is empty.
    NoSegmentsFound,
    /// A segment exhausted its retry budget.
    SegmentDownload(FetchError),
    /// A scratch blob or the output file could not be created or read.
    Filesystem,
}

/// How a manifest fetch's terminal error surfaces from a run.
pub open spec fn lift_fetch_error(e: FetchError) -> PipelineError {
    match e {
        FetchError::Transport => PipelineError::Transport,
        FetchError::HttpStatus(s) => PipelineError::HttpStatus(s),
    }
}

/// Maps a manifest fetch's terminal error to the run-level error kind.
pub fn fetch_error_to_pipeline(e: FetchError) -> (r: PipelineError)
    ensures
        r == lift_fetch_error(e),
{
    match e {
        FetchError::Transport => PipelineError::Transport,
        FetchError::HttpStatus(s) => PipelineError::HttpStatus(s),
    }
}

} // verus!
