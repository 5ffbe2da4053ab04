use segment_pipeline::assemble::{assemble, concat_blobs, place_by_index, segment_name};
use segment_pipeline::errors::PipelineError;

#[test]
fn concatenation_is_in_the_order_given() {
    let blobs = vec![b"AAA".to_vec(), b"".to_vec(), b"BB".to_vec()];
    let out = concat_blobs(&blobs);
    assert_eq!(out, b"AAABB".to_vec());
    assert_eq!(out.len(), blobs.iter().map(|b| b.len()).sum::<usize>());
}

#[test]
fn assembly_orders_blobs_by_index_not_by_arrival() {
    // Arrival order 2, 0, 1; output must follow the indices.
    let entries = vec![
        (2usize, b"CC".to_vec()),
        (0usize, b"A".to_vec()),
        (1usize, b"BBB".to_vec()),
    ];
    let out = assemble(entries, 3).unwrap();
    assert_eq!(out, b"ABBBCC".to_vec());
    assert_eq!(out.len(), 1 + 3 + 2);
}

#[test]
fn assembly_output_equals_concatenation_regardless_of_completion_order() {
    let a = b"first".to_vec();
    let b = b"second".to_vec();
    let c = b"third".to_vec();
    let in_order = vec![(0usize, a.clone()), (1usize, b.clone()), (2usize, c.clone())];
    let reversed = vec![(2usize, c.clone()), (1usize, b.clone()), (0usize, a.clone())];
    let expected = b"firstsecondthird".to_vec();
    assert_eq!(assemble(in_order, 3).unwrap(), expected);
    assert_eq!(assemble(reversed, 3).unwrap(), expected);
}

#[test]
fn assembly_twice_from_the_same_blobs_is_byte_identical() {
    let entries1 = vec![(1usize, b"two".to_vec()), (0usize, b"one".to_vec())];
    let entries2 = vec![(1usize, b"two".to_vec()), (0usize, b"one".to_vec())];
    assert_eq!(assemble(entries1, 2).unwrap(), assemble(entries2, 2).unwrap());
}

#[test]
fn assembly_fails_on_a_missing_index() {
    let entries = vec![(0usize, b"A".to_vec()), (2usize, b"C".to_vec())];
    assert_eq!(assemble(entries, 3), Err(PipelineError::Filesystem));
}

#[test]
fn assembly_fails_on_a_repeated_index() {
    let entries = vec![(0usize, b"A".to_vec()), (0usize, b"B".to_vec())];
    assert_eq!(place_by_index(entries, 2), Err(PipelineError::Filesystem));
}

#[test]
fn assembly_fails_on_an_index_out_of_range() {
    let entries = vec![(0usize, b"A".to_vec()), (5usize, b"B".to_vec())];
    assert_eq!(place_by_index(entries, 2), Err(PipelineError::Filesystem));
}

#[test]
fn assembly_of_an_empty_work_list_is_empty() {
    let out = assemble(Vec::new(), 0).unwrap();
    assert!(out.is_empty());
}

#[test]
fn scratch_names_are_zero_padded_with_the_fixed_extension() {
    assert_eq!(segment_name(0), b"00000.ts".to_vec());
    assert_eq!(segment_name(7), b"00007.ts".to_vec());
    assert_eq!(segment_name(12345), b"12345.ts".to_vec());
    assert_eq!(segment_name(99999), b"99999.ts".to_vec());
}

#[test]
fn scratch_names_sort_in_index_order() {
    // Lexicographic order over the padded names equals numeric order.
    let mut names: Vec<Vec<u8>> = [3usize, 11, 2, 100, 10, 0]
        .iter()
        .map(|&i| segment_name(i))
        .collect();
    names.sort();
    let expected: Vec<Vec<u8>> = [0usize, 2, 3, 10, 11, 100]
        .iter()
        .map(|&i| segment_name(i))
        .collect();
    assert_eq!(names, expected);
}
