use segment_pipeline::errors::{FetchError, PipelineError};
use segment_pipeline::manifest::{
    contains_direct_segments, is_segment_line_exec, is_url_line_exec, make_work_list, resolve_root,
    resolve_secondary, split_lines, Resolution, SegmentRef,
};
use segment_pipeline::pipeline::{on_root_manifest, on_secondary_manifest};

fn urls_of(refs: &[SegmentRef]) -> Vec<Vec<u8>> {
    refs.iter().map(|r| r.url.clone()).collect()
}

#[test]
fn split_lines_basic() {
    let content = b"a\nbb\n\nccc".to_vec();
    let lines = split_lines(&content);
    assert_eq!(lines, vec![b"a".to_vec(), b"bb".to_vec(), b"".to_vec(), b"ccc".to_vec()]);
}

#[test]
fn split_lines_strips_carriage_return() {
    let content = b"http://x/a.ts\r\nhttp://x/b.ts\r\n".to_vec();
    let lines = split_lines(&content);
    assert_eq!(lines, vec![b"http://x/a.ts".to_vec(), b"http://x/b.ts".to_vec()]);
}

#[test]
fn split_lines_empty() {
    let content = Vec::new();
    let lines = split_lines(&content);
    assert!(lines.is_empty());
}

#[test]
fn url_and_segment_line_classification() {
    assert!(is_url_line_exec(&b"http://x/a".to_vec()));
    assert!(is_url_line_exec(&b"https://x/a".to_vec()));
    assert!(!is_url_line_exec(&b"#EXTM3U".to_vec()));
    assert!(!is_url_line_exec(&b"htt".to_vec()));
    assert!(is_segment_line_exec(&b"http://x/a.ts".to_vec()));
    assert!(is_segment_line_exec(&b"http://x/a.bin".to_vec()));
    assert!(!is_segment_line_exec(&b"http://x/playlist.m3u8".to_vec()));
    assert!(!is_segment_line_exec(&b"a.ts".to_vec()));
}

#[test]
fn detects_direct_segments() {
    let direct = b"#EXTM3U\nhttp://x/seg0.ts\n".to_vec();
    assert!(contains_direct_segments(&direct));
    let direct_bin = b"#EXTM3U\nhttp://x/seg0.bin\n".to_vec();
    assert!(contains_direct_segments(&direct_bin));
    let indirect = b"#EXTM3U\nhttp://x/hls/playlist2\n".to_vec();
    assert!(!contains_direct_segments(&indirect));
}

#[test]
fn direct_manifest_resolves_to_its_segment_lines_in_order() {
    let content =
        b"#EXTM3U\nhttp://x/seg0.ts\nhttp://x/not-a-segment\nhttp://x/seg1.ts\nhttp://x/seg2.bin\n"
            .to_vec();
    match resolve_root(&content) {
        Ok(Resolution::Direct(refs)) => {
            assert_eq!(
                urls_of(&refs),
                vec![
                    b"http://x/seg0.ts".to_vec(),
                    b"http://x/seg1.ts".to_vec(),
                    b"http://x/seg2.bin".to_vec()
                ]
            );
            for (i, r) in refs.iter().enumerate() {
                assert_eq!(r.index, i);
            }
        }
        _ => panic!("expected a direct resolution"),
    }
}

#[test]
fn indirect_manifest_follows_last_url_line() {
    let content = b"#EXTM3U\nhttp://x/low/playlist\nhttp://x/high/playlist\n".to_vec();
    match resolve_root(&content) {
        Ok(Resolution::Follow(u)) => assert_eq!(u, b"http://x/high/playlist".to_vec()),
        _ => panic!("expected an indirect resolution"),
    }
}

#[test]
fn manifest_without_urls_fails_to_parse() {
    let content = b"#EXTM3U\n#EXT-X-VERSION:3\n".to_vec();
    match resolve_root(&content) {
        Err(e) => assert_eq!(e, PipelineError::ManifestParse),
        _ => panic!("expected a parse failure"),
    }
}

#[test]
fn secondary_manifest_resolves_url_lines_in_order() {
    let content = b"#EXTM3U\nhttp://x/s0.ts\n#EXTINF:4,\nhttp://x/s1.ts\n".to_vec();
    match resolve_secondary(&content) {
        Ok(refs) => {
            assert_eq!(urls_of(&refs), vec![b"http://x/s0.ts".to_vec(), b"http://x/s1.ts".to_vec()]);
            assert_eq!(refs[0].index, 0);
            assert_eq!(refs[1].index, 1);
        }
        _ => panic!("expected a work list"),
    }
}

#[test]
fn empty_work_list_is_rejected_before_any_download() {
    let content = b"#EXTM3U\n#EXT-X-ENDLIST\n".to_vec();
    match resolve_secondary(&content) {
        Err(e) => assert_eq!(e, PipelineError::NoSegmentsFound),
        _ => panic!("expected the empty work list to be rejected"),
    }
    match make_work_list(Vec::new()) {
        Err(e) => assert_eq!(e, PipelineError::NoSegmentsFound),
        _ => panic!("expected the empty work list to be rejected"),
    }
}

#[test]
fn manifest_fetch_error_surfaces_unchanged_in_kind() {
    match on_root_manifest(Err(FetchError::Transport)) {
        Err(e) => assert_eq!(e, PipelineError::Transport),
        _ => panic!("expected the transport error to surface"),
    }
    match on_secondary_manifest(Err(FetchError::HttpStatus(503))) {
        Err(e) => assert_eq!(e, PipelineError::HttpStatus(503)),
        _ => panic!("expected the status error to surface"),
    }
}

#[test]
fn secondary_fetch_content_resolves_like_secondary_manifest() {
    let content = b"http://x/s0.ts\nhttp://x/s1.ts\n".to_vec();
    match on_secondary_manifest(Ok(content)) {
        Ok(refs) => {
            assert_eq!(urls_of(&refs), vec![b"http://x/s0.ts".to_vec(), b"http://x/s1.ts".to_vec()]);
        }
        _ => panic!("expected a work list"),
    }
}

#[test]
fn scenario_two_segment_manifest() {
    let content = b"http://x/seg0.ts\nhttp://x/seg1.ts\n".to_vec();
    match on_root_manifest(Ok(content)) {
        Ok(Resolution::Direct(refs)) => {
            assert_eq!(refs.len(), 2);
            assert_eq!(refs[0].index, 0);
            assert_eq!(refs[0].url, b"http://x/seg0.ts".to_vec());
            assert_eq!(refs[1].index, 1);
            assert_eq!(refs[1].url, b"http://x/seg1.ts".to_vec());
        }
        _ => panic!("expected the direct two-segment work list"),
    }
}
