//! A verified core for an adaptive-bitrate segment download pipeline.
//!
//! The library holds the pure decision logic of the pipeline: manifest
//! resolution (classifying a playlist and extracting the ordered work list
//! of segment URLs), the retry/backoff state machine used by the fetcher,
//! the bounded-concurrency download scheduler, and the ordered assembly of
//! downloaded segment blobs into one output byte stream. All network and
//! file I/O lives outside the library and hands it plain values.

use vstd::prelude::*;

pub mod assemble;
pub mod errors;
pub mod manifest;
pub mod pipeline;
pub mod retry;
pub mod scheduler;

verus! {

/// The sequence of views of a sequence of byte vectors.
pub open spec fn views(v: Seq<Vec<u8>>) -> Seq<Seq<u8>> {
    v.map_values(|x: Vec<u8>| x@)
}

} // verus!
