use payload_dumper::payload_dumper::{
    extent_fits, operation_fits, process_operation, OperationError, OperationWarning, WriteChunk,
};
use payload_dumper::structs::{Extent, InstallOperation, OperationType};
use std::io::Write;

fn ext(start: u64, num: u64) -> Extent {
    Extent { start_block: Some(start), num_blocks: Some(num) }
}

fn op(op_type: i32, dst: Vec<Extent>) -> InstallOperation {
    InstallOperation {
        op_type,
        data_offset: Some(0),
        data_length: Some(0),
        src_extents: vec![],
        src_length: None,
        dst_extents: dst,
        dst_length: None,
        data_sha256_hash: None,
        src_sha256_hash: None,
    }
}

fn data_at(w: &WriteChunk) -> (u64, Vec<u8>) {
    match w {
        WriteChunk::Data { pos, bytes } => (*pos, bytes.clone()),
        WriteChunk::Zeros { .. } => panic!("expected data"),
    }
}

#[test]
fn replace_writes_at_the_first_extent() {
    let o = op(0, vec![ext(3, 1)]);
    let out = process_operation(0, &o, b"abcd", None, 4).unwrap();
    assert_eq!(out.writes.len(), 1);
    assert_eq!(data_at(&out.writes[0]), (12, b"abcd".to_vec()));
    assert!(out.warning.is_none());
}

#[test]
fn xz_payload_is_decoded() {
    let raw = b"hello xz world".to_vec();
    let mut enc = liblzma::write::XzEncoder::new(Vec::new(), 6);
    enc.write_all(&raw).unwrap();
    let packed = enc.finish().unwrap();
    let o = op(8, vec![ext(1, 1)]);
    let out = process_operation(0, &o, &packed, None, 4096).unwrap();
    assert_eq!(data_at(&out.writes[0]), (4096, raw));
    let bad = process_operation(0, &o, b"not xz", None, 4096).unwrap();
    assert!(bad.writes.is_empty());
    assert_eq!(bad.warning, Some(OperationWarning::XzDecode));
}

#[test]
fn bz2_payload_is_decoded() {
    let raw = vec![9u8; 300];
    let mut enc = bzip2::write::BzEncoder::new(Vec::new(), bzip2::Compression::default());
    enc.write_all(&raw).unwrap();
    let packed = enc.finish().unwrap();
    let o = op(1, vec![ext(0, 1)]);
    let out = process_operation(0, &o, &packed, None, 512).unwrap();
    assert_eq!(data_at(&out.writes[0]), (0, raw));
}

#[test]
fn zstd_payload_is_split_over_extents() {
    let raw: Vec<u8> = (0..16u8).collect();
    let packed = zstd::encode_all(&raw[..], 3).unwrap();
    let o = op(14, vec![ext(10, 1), ext(2, 2)]);
    let out = process_operation(0, &o, &packed, None, 4).unwrap();
    assert_eq!(out.writes.len(), 2);
    assert_eq!(data_at(&out.writes[0]), (40, raw[0..4].to_vec()));
    assert_eq!(data_at(&out.writes[1]), (8, raw[4..12].to_vec()));
    assert!(out.warning.is_none());
    let short = op(14, vec![ext(0, 3), ext(5, 3)]);
    let out2 = process_operation(0, &short, &packed, None, 4).unwrap();
    assert_eq!(out2.writes.len(), 1);
    assert_eq!(out2.warning, Some(OperationWarning::InsufficientDecompressed));
}

#[test]
fn zero_operation_marks_regions() {
    let o = op(6, vec![ext(1, 2), ext(8, 1)]);
    let out = process_operation(0, &o, b"", None, 4096).unwrap();
    match (&out.writes[0], &out.writes[1]) {
        (WriteChunk::Zeros { pos: p0, len: l0 }, WriteChunk::Zeros { pos: p1, len: l1 }) => {
            assert_eq!((*p0, *l0, *p1, *l1), (4096, 8192, 32768, 4096));
        }
        _ => panic!("expected zero regions"),
    }
}

#[test]
fn source_operations_need_the_old_image() {
    let o = op(4, vec![ext(0, 1)]);
    assert!(matches!(process_operation(0, &o, b"", None, 4), Err(OperationError::SourceImageRequired)));
    let out = process_operation(0, &o, b"", Some(b"oldd"), 4).unwrap();
    assert_eq!(data_at(&out.writes[0]), (0, b"oldd".to_vec()));
}

#[test]
fn bsdiff_operation_patches_the_old_image() {
    let old = b"the quick brown fox".to_vec();
    let new = b"the quick red fox!!!".to_vec();
    let mut patch = Vec::new();
    bsdiff::diff(&old, &new, &mut patch).unwrap();
    let o = op(5, vec![ext(0, 5), ext(9, 5)]);
    let out = process_operation(0, &o, &patch, Some(&old), 2).unwrap();
    assert_eq!(data_at(&out.writes[0]), (0, new[0..10].to_vec()));
    assert_eq!(data_at(&out.writes[1]), (18, new[10..20].to_vec()));
}

#[test]
fn brotli_bsdiff_operation() {
    let old = vec![1u8, 2, 3, 4, 5, 6, 7, 8];
    let new = vec![1u8, 2, 3, 4, 9, 9, 7, 8];
    let mut patch = Vec::new();
    bsdiff::diff(&old, &new, &mut patch).unwrap();
    let mut packed = Vec::new();
    {
        let mut w = brotli::CompressorWriter::new(&mut packed, 4096, 9, 22);
        w.write_all(&patch).unwrap();
    }
    let o = op(10, vec![ext(0, 8)]);
    let out = process_operation(0, &o, &packed, Some(&old), 1).unwrap();
    assert_eq!(data_at(&out.writes[0]), (0, new));
}

#[test]
fn lz4_bsdiff_operation() {
    let old = vec![5u8; 32];
    let mut new = vec![5u8; 32];
    new[3] = 1;
    let mut patch = Vec::new();
    bsdiff::diff(&old, &new, &mut patch).unwrap();
    let packed = lz4_flex::block::compress_prepend_size(&patch);
    let o = op(12, vec![ext(0, 32)]);
    let out = process_operation(0, &o, &packed, Some(&old), 1).unwrap();
    assert_eq!(data_at(&out.writes[0]), (0, new));
    let bad = process_operation(0, &o, b"\xff\xff\xff\x7f", Some(&old), 1).unwrap();
    assert_eq!(bad.warning, Some(OperationWarning::Lz4Decode));
}

#[test]
fn unknown_operations_are_skipped() {
    let o = op(2, vec![ext(0, 1)]);
    let out = process_operation(0, &o, b"", None, 4).unwrap();
    assert!(out.writes.is_empty());
    assert_eq!(out.warning, Some(OperationWarning::UnknownOperation));
}

#[test]
fn operation_bounds() {
    assert!(extent_fits(&ext(1, 1), 4096));
    assert!(!extent_fits(&ext(u64::MAX / 2, 4), 4096));
    let mut o = op(0, vec![]);
    assert!(!operation_fits(&o, 4096));
    o.dst_extents.push(ext(0, 1));
    assert!(operation_fits(&o, 4096));
    assert_eq!(o.kind(), OperationType::Replace);
}

#[test]
fn undecodable_payloads_give_warnings() {
    let zstd = op(14, vec![ext(0, 1)]);
    let out = process_operation(0, &zstd, b"not zstd", None, 4).unwrap();
    assert!(out.writes.is_empty());
    assert_eq!(out.warning, Some(OperationWarning::ZstdDecode));
    let bz = op(1, vec![ext(0, 1)]);
    let out = process_operation(0, &bz, b"not bzip2", None, 4).unwrap();
    assert!(out.writes.is_empty());
    assert_eq!(out.warning, Some(OperationWarning::Bz2Decode));
    let br = op(10, vec![ext(0, 1)]);
    let out = process_operation(0, &br, b"\xff\xff\xff\xff\xff", Some(b"old!"), 4).unwrap();
    assert!(out.writes.is_empty());
    assert_eq!(out.warning, Some(OperationWarning::BrotliDecode));
}

#[test]
fn bad_or_short_patches_give_warnings() {
    let old = b"the quick brown fox".to_vec();
    let o = op(5, vec![ext(0, 4)]);
    let out = process_operation(0, &o, b"no patch here", Some(&old), 4).unwrap();
    assert!(out.writes.is_empty());
    assert_eq!(out.warning, Some(OperationWarning::PatchFailed));
    let new = b"the slow brown dog".to_vec();
    let mut patch = Vec::new();
    bsdiff::diff(&old, &new, &mut patch).unwrap();
    let long = op(5, vec![ext(0, 2), ext(10, 4)]);
    let out = process_operation(0, &long, &patch, Some(&old), 4).unwrap();
    assert_eq!(out.writes.len(), 1);
    assert_eq!(data_at(&out.writes[0]), (0, new[0..8].to_vec()));
    assert_eq!(out.warning, Some(OperationWarning::InsufficientPatched));
}

#[test]
fn operations_need_only_the_extents_they_write() {
    let far = ext(u64::MAX / 2, 4);
    let xz = op(8, vec![ext(0, 1), far.clone()]);
    assert!(operation_fits(&xz, 4096));
    let out = process_operation(0, &xz, b"not xz", None, 4096).unwrap();
    assert!(out.writes.is_empty());
    assert_eq!(out.warning, Some(OperationWarning::XzDecode));
    let copy = op(4, vec![ext(2, 1), far.clone()]);
    assert!(operation_fits(&copy, 4));
    let out = process_operation(0, &copy, b"", Some(b"abcdefgh"), 4).unwrap();
    assert_eq!(data_at(&out.writes[0]), (8, b"abcdefgh".to_vec()));
    assert!(!operation_fits(&op(4, vec![far.clone(), ext(0, 1)]), 4));
    assert!(operation_fits(&op(2, vec![]), 4096));
    assert!(!operation_fits(&op(14, vec![ext(0, 1), far]), 4096));
}
