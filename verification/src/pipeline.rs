//! The run-level composition of the pipeline: how fetch results feed
//! resolution, and what a whole run outputs as a function of the manifests
//! and the segment bytes alone.
//!
//! The caller performs the fetches; the functions here take each fetch's
//! result and decide the next stage, so that a manifest fetch's terminal
//! error surfaces as the run's error unchanged in kind.

use vstd::prelude::*;

use crate::assemble::concat_seqs;
use crate::errors::{fetch_error_to_pipeline, lift_fetch_error, FetchError, PipelineError};
use crate::manifest::{
    has_segment_line, has_url_line, last_url_line, ref_urls, resolve_root, resolve_secondary,
    segment_lines, spec_lines, url_lines, well_indexed, Resolution, SegmentRef,
};

verus! {

/// Consumes the root manifest fetch's result. A fetch error surfaces as the
/// run's error with the same kind; fetched content is resolved as the root
/// manifest.
pub fn on_root_manifest(fetch_result: Result<Vec<u8>, FetchError>) -> (r: Result<
    Resolution,
    PipelineError,
>)
    ensures
        fetch_result matches Err(e) ==> r == Err::<Resolution, PipelineError>(lift_fetch_error(e)),
        fetch_result matches Ok(content) ==> ({
            let ls = spec_lines(content@);
            &&& has_segment_line(ls) ==> (r matches Ok(res) && res matches Resolution::Direct(refs)
                && well_indexed(refs@) && ref_urls(refs@) == segment_lines(ls))
            &&& (!has_segment_line(ls) && has_url_line(ls)) ==> (r matches Ok(res)
                && res matches Resolution::Follow(u) && u@ == last_url_line(ls))
            &&& (!has_segment_line(ls) && !has_url_line(ls)) ==> r == Err::<
                Resolution,
                PipelineError,
            >(PipelineError::ManifestParse)
        }),
{
    match fetch_result {
        Ok(content) => resolve_root(&content),
        Err(e) => Err(fetch_error_to_pipeline(e)),
    }
}

/// Consumes the secondary manifest fetch's result. A fetch error surfaces
/// as the run's error with the same kind; fetched content is resolved as
/// the secondary manifest.
pub fn on_secondary_manifest(fetch_result: Result<Vec<u8>, FetchError>) -> (r: Result<
    Vec<SegmentRef>,
    PipelineError,
>)
    ensures
        fetch_result matches Err(e) ==> r == Err::<Vec<SegmentRef>, PipelineError>(
            lift_fetch_error(e),
        ),
        fetch_result matches Ok(content) ==> ({
            let us = url_lines(spec_lines(content@));
            &&& us.len() == 0 ==> r == Err::<Vec<SegmentRef>, PipelineError>(
                PipelineError::NoSegmentsFound,
            )
            &&& us.len() > 0 ==> (r matches Ok(refs) && well_indexed(refs@) && ref_urls(refs@)
                == us)
        }),
{
    match fetch_result {
        Ok(content) => resolve_secondary(&content),
        Err(e) => Err(fetch_error_to_pipeline(e)),
    }
}

/// The work list a run resolves, as a function of the root manifest's bytes
/// and (where indirection is required) the secondary manifest's bytes.
pub open spec fn resolved_urls(root: Seq<u8>, secondary: Seq<u8>) -> Result<
    Seq<Seq<u8>>,
    PipelineError,
> {
    let ls = spec_lines(root);
    if has_segment_line(ls) {
        Ok(segment_lines(ls))
    } else if has_url_line(ls) {
        let us = url_lines(spec_lines(secondary));
        if us.len() == 0 {
            Err(PipelineError::NoSegmentsFound)
        } else {
            Ok(us)
        }
    } else {
        Err(PipelineError::ManifestParse)
    }
}

/// The bytes a successful run writes: the segment bytes of each resolved
/// URL, concatenated in work-list order. `blob_of` gives the stable bytes
/// each URL's segment downloads to.
pub open spec fn pipeline_output(
    root: Seq<u8>,
    secondary: Seq<u8>,
    blob_of: spec_fn(Seq<u8>) -> Seq<u8>,
) -> Result<Seq<u8>, PipelineError> {
    match resolved_urls(root, secondary) {
        Ok(urls) => Ok(concat_seqs(urls.map_values(blob_of))),
        Err(e) => Err(e),
    }
}

/// Idempotence of the pipeline: two runs against the same manifests and a
/// stable segment set produce byte-identical output (or fail alike).
pub proof fn lemma_pipeline_idempotent(
    root1: Seq<u8>,
    secondary1: Seq<u8>,
    blob_of1: spec_fn(Seq<u8>) -> Seq<u8>,
    root2: Seq<u8>,
    secondary2: Seq<u8>,
    blob_of2: spec_fn(Seq<u8>) -> Seq<u8>,
)
    requires
        root1 == root2,
        secondary1 == secondary2,
        forall|u: Seq<u8>| #[trigger] blob_of1(u) == blob_of2(u),
    ensures
        pipeline_output(root1, secondary1, blob_of1) == pipeline_output(
            root2,
            secondary2,
            blob_of2,
        ),
{
    match resolved_urls(root1, secondary1) {
        Ok(urls) => {
            assert(urls.map_values(blob_of1) =~= urls.map_values(blob_of2));
        },
        Err(_) => {
        },
    }
}

} // verus!
