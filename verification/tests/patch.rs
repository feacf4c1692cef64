use payload_dumper::codecs::{bspatch, PatchError};

#[test]
fn test_bspatch_simple() {
    // Create some test data
    let old_data = vec![1, 2, 3, 4, 5];
    let new_data = vec![1, 2, 4, 6];

    // Create a patch
    let mut patch = Vec::new();
    bsdiff::diff(&old_data, &new_data, &mut patch).unwrap();

    // Apply the patch
    let result = bspatch(&old_data, &patch).unwrap();
    assert_eq!(result, new_data);
}

#[test]
fn bspatch_refuses_a_malformed_patch() {
    let old_data = vec![1u8, 2, 3];
    let garbage = vec![0xffu8; 7];
    assert_eq!(bspatch(&old_data, &garbage), Err(PatchError::Malformed));
}

#[test]
fn bspatch_larger_change() {
    let old_data: Vec<u8> = (0..5000u32).map(|i| (i % 251) as u8).collect();
    let mut new_data = old_data.clone();
    new_data[100] = 7;
    new_data.extend_from_slice(b"tail");
    let mut patch = Vec::new();
    bsdiff::diff(&old_data, &new_data, &mut patch).unwrap();
    assert_eq!(bspatch(&old_data, &patch).unwrap(), new_data);
}
