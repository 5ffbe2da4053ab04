//! End-to-end runs of the pipeline's verified core, with the fetches played
//! by an in-test table from URL to bytes.

use segment_pipeline::assemble::assemble;
use segment_pipeline::errors::PipelineError;
use segment_pipeline::manifest::{resolve_root, Resolution, SegmentRef};
use segment_pipeline::pipeline::on_secondary_manifest;
use segment_pipeline::scheduler::{Scheduler, SchedulerAction};

fn blob_of(url: &[u8]) -> Vec<u8> {
    // A stable fake server: each segment's bytes are the byte before the
    // URL's ".ts" extension, repeated three times.
    let tag = url[url.len() - 4];
    vec![tag; 3]
}

/// Downloads every segment of the work list under the scheduler, in-order
/// submission but reverse completion, then assembles the output.
fn run_download_phase(refs: &[SegmentRef], limit: usize) -> Result<Vec<u8>, PipelineError> {
    let mut s = Scheduler::new(refs.len(), limit);
    let mut in_flight: Vec<(usize, Vec<u8>)> = Vec::new();
    let mut entries: Vec<(usize, Vec<u8>)> = Vec::new();
    loop {
        match s.next_action() {
            SchedulerAction::Launch(i) => {
                assert!(s.in_flight < limit);
                in_flight.push((i, blob_of(&refs[i].url)));
                s.on_launched();
            }
            SchedulerAction::Drain => {
                // Completion order is unconstrained: finish the most
                // recently launched task first.
                let (i, blob) = in_flight.pop().unwrap();
                entries.push((i, blob));
                s.on_task_finished(Ok(()));
            }
            SchedulerAction::Finish => break,
            SchedulerAction::Abort(e) => return Err(e),
        }
    }
    assemble(entries, refs.len())
}

fn run(root: &[u8], secondary: Option<&[u8]>) -> Result<Vec<u8>, PipelineError> {
    let refs = match resolve_root(&root.to_vec())? {
        Resolution::Direct(refs) => refs,
        Resolution::Follow(_) => {
            let content = secondary.expect("the manifest requires indirection").to_vec();
            on_secondary_manifest(Ok(content))?
        }
    };
    run_download_phase(&refs, 10)
}

#[test]
fn direct_run_concatenates_segments_in_index_order() {
    let root = b"http://x/sega.ts\nhttp://x/segb.ts\nhttp://x/segc.ts\n";
    let out = run(root, None).unwrap();
    assert_eq!(out, b"aaabbbccc".to_vec());
}

#[test]
fn indirect_run_follows_the_secondary_manifest() {
    let root = b"#EXTM3U\nhttp://x/low\nhttp://x/high\n";
    let secondary = b"http://x/s1.ts\nhttp://x/s2.ts\n";
    let out = run(root, Some(secondary)).unwrap();
    assert_eq!(out, b"111222".to_vec());
}

#[test]
fn running_twice_is_byte_identical() {
    let root = b"http://x/seg0.ts\nhttp://x/seg1.ts\n";
    let first = run(root, None).unwrap();
    let second = run(root, None).unwrap();
    assert_eq!(first, second);
    assert_eq!(first, b"000111".to_vec());
}

#[test]
fn output_length_is_the_sum_of_blob_lengths() {
    let root = b"http://x/p.ts\nhttp://x/q.ts\nhttp://x/r.ts\nhttp://x/s.ts\n";
    let out = run(root, None).unwrap();
    assert_eq!(out.len(), 4 * 3);
}
