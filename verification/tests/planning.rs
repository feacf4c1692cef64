use payload_dumper::diff::{diff_output, puffdiff_output, dst_writes_fit, extents_addressable_exec, plan_diff_operation, DiffContext, DiffError, DiffPlan, PatchEncoding};
use payload_dumper::http::{check_content_length, check_range_reply, payload_range, plan_range_read, range_header_value, retry_delay, HttpError, RangeRequest};
use payload_dumper::puf1::check_puf1_header;
use payload_dumper::prefetch::{calculate_partition_range, download_plan, translate_offset, DownloadChunk, PartitionDataRange};
use payload_dumper::streaming::{decode_with, is_diff_operation, plan_dump, plan_stream_step, stream_step_fits, zero_write_plan, Codec, DumpError, DumpSetup, StreamError, StreamStep, StreamWarning, ZeroWrites};
use payload_dumper::structs::{Extent, InstallOperation, OperationType, PartitionInfo, PartitionUpdate};
use payload_dumper::verification::{hash_status, partitions_to_verify, verify_image, HashVerificationStatus};
use std::io::Write;
use std::path::PathBuf;

fn ext(start: u64, num: u64) -> Extent {
    Extent { start_block: Some(start), num_blocks: Some(num) }
}

fn op(op_type: i32, data_offset: Option<u64>, data_length: Option<u64>, dst: Vec<Extent>) -> InstallOperation {
    InstallOperation {
        op_type,
        data_offset,
        data_length,
        src_extents: vec![ext(0, 1)],
        src_length: None,
        dst_extents: dst,
        dst_length: None,
        data_sha256_hash: None,
        src_sha256_hash: None,
    }
}

fn partition(ops: Vec<InstallOperation>, info: Option<PartitionInfo>) -> PartitionUpdate {
    PartitionUpdate {
        partition_name: "system".to_string(),
        run_postinstall: None,
        postinstall_path: None,
        filesystem_type: None,
        old_partition_info: None,
        new_partition_info: info,
        operations: ops,
        postinstall_optional: None,
        hash_tree_algorithm: None,
        version: None,
    }
}

#[test]
fn partition_range_spans_all_data() {
    let p = partition(
        vec![
            op(0, Some(500), Some(100), vec![ext(0, 1)]),
            op(6, Some(0), Some(0), vec![ext(1, 1)]),
            op(0, Some(200), Some(50), vec![ext(2, 1)]),
            op(0, None, Some(10), vec![ext(3, 1)]),
        ],
        None,
    );
    let r = calculate_partition_range(&p, 1000).unwrap();
    assert_eq!((r.min_offset, r.total_bytes), (1200, 400));
    let empty = partition(vec![op(6, Some(0), Some(0), vec![])], None);
    assert!(calculate_partition_range(&empty, 1000).is_none());
}

#[test]
fn download_chunks_cover_the_range() {
    let range = PartitionDataRange { min_offset: 100, total_bytes: 262144 * 2 + 10 };
    let chunks = download_plan(&range, 7);
    assert_eq!(
        chunks,
        vec![
            DownloadChunk { offset: 107, length: 262144 },
            DownloadChunk { offset: 107 + 262144, length: 262144 },
            DownloadChunk { offset: 107 + 2 * 262144, length: 10 },
        ]
    );
    assert!(download_plan(&PartitionDataRange { min_offset: 0, total_bytes: 0 }, 0).is_empty());
}

#[test]
fn offsets_are_translated() {
    assert_eq!(translate_offset(150, 100), Ok(50));
    assert!(translate_offset(99, 100).is_err());
}

#[test]
fn stream_steps() {
    let replace = op(0, Some(10), Some(20), vec![ext(3, 1)]);
    match plan_stream_step(0, &replace, 1000, 4096, 0, false).unwrap() {
        StreamStep::Write { offset, length, codec, target, seek } => {
            assert_eq!((offset, length, codec, target, seek), (1010, 20, Codec::Raw, 12288, true));
        }
        _ => panic!("expected a write"),
    }
    match plan_stream_step(1, &op(8, Some(0), Some(5), vec![ext(3, 1)]), 0, 4096, 12288, false).unwrap() {
        StreamStep::Write { codec, seek, .. } => assert_eq!((codec, seek), (Codec::Xz, false)),
        _ => panic!("expected a write"),
    }
    match plan_stream_step(2, &op(14, Some(0), Some(5), vec![ext(0, 1), ext(1, 1)]), 0, 4096, 0, false).unwrap() {
        StreamStep::Skip { warning, opens_data, .. } => {
            assert_eq!(warning, StreamWarning::MultiExtentZstd);
            assert!(opens_data);
            assert_eq!(warning.message(), "Multi-extent Zstd not supported");
        }
        _ => panic!("expected a skip"),
    }
    match plan_stream_step(3, &op(6, None, None, vec![ext(2, 3), ext(10, 1)]), 0, 4096, 0, false).unwrap() {
        StreamStep::Holes { regions, end_pos } => {
            assert_eq!(regions.len(), 2);
            assert_eq!((regions[0].start, regions[0].len), (8192, 12288));
            assert_eq!(end_pos, 45056);
        }
        _ => panic!("expected holes"),
    }
    assert!(matches!(plan_stream_step(4, &op(4, None, None, vec![ext(0, 1)]), 0, 4096, 0, true), Ok(StreamStep::Diff)));
    assert_eq!(
        plan_stream_step(5, &op(5, None, None, vec![ext(0, 1)]), 0, 4096, 0, false).unwrap_err(),
        StreamError::SourceRequired { operation_index: 5 }
    );
    match plan_stream_step(6, &op(2, None, None, vec![]), 0, 4096, 0, false).unwrap() {
        StreamStep::Skip { warning, opens_data, .. } => {
            assert_eq!(warning, StreamWarning::UnknownOperation);
            assert!(!opens_data);
            assert_eq!(warning.message(), "Unknown operation type");
        }
        _ => panic!("expected a skip"),
    }
}

#[test]
fn dump_setup() {
    let info = Some(PartitionInfo { size: Some(8192), hash: None });
    let full = partition(vec![op(0, Some(0), Some(1), vec![ext(0, 1)])], info.clone());
    assert_eq!(plan_dump(&full, false), Ok(DumpSetup { uses_source: false, image_size: Some(8192) }));
    let diff = partition(vec![op(5, Some(0), Some(1), vec![ext(0, 1)])], info);
    assert_eq!(plan_dump(&diff, false), Err(DumpError::SourceDirMissing));
    assert_eq!(plan_dump(&diff, true), Ok(DumpSetup { uses_source: true, image_size: Some(8192) }));
    let no_size = partition(vec![], Some(PartitionInfo { size: None, hash: None }));
    assert_eq!(plan_dump(&no_size, false), Err(DumpError::SizeMissing));
    let no_info = partition(vec![], None);
    assert_eq!(plan_dump(&no_info, false), Ok(DumpSetup { uses_source: false, image_size: None }));
    assert!(is_diff_operation(OperationType::Zucchini));
    assert!(!is_diff_operation(OperationType::Zstd));
}

#[test]
fn diff_context_reads_and_writes() {
    let ctx = DiffContext::new(PathBuf::from("old"), 4);
    assert_eq!(ctx.block_size, 4);
    let reads = ctx.source_reads(&vec![ext(2, 1), ext(0, 2)]);
    assert_eq!((reads[0].offset, reads[0].length, reads[1].offset, reads[1].length), (8, 4, 0, 8));
    let writes = ctx.dst_writes(&vec![ext(5, 1), ext(1, 2)], 12);
    assert_eq!((writes[0].file_offset, writes[0].data_start, writes[0].length), (20, 0, 4));
    assert_eq!((writes[1].file_offset, writes[1].data_start, writes[1].length), (4, 4, 8));
}

#[test]
fn diff_plans_and_outputs() {
    assert_eq!(plan_diff_operation(&op(4, None, None, vec![]), 0), Ok(DiffPlan::Copy));
    assert_eq!(
        plan_diff_operation(&op(10, Some(5), Some(7), vec![]), 100),
        Ok(DiffPlan::Patch { encoding: PatchEncoding::Brotli, offset: 105, length: 7 })
    );
    assert_eq!(
        plan_diff_operation(&op(9, Some(3), Some(40), vec![]), 10),
        Ok(DiffPlan::Puffdiff { offset: 13, length: 40 })
    );
    assert_eq!(plan_diff_operation(&op(13, None, None, vec![]), 0), Err(DiffError::PuffdiffUnsupported));
    assert_eq!(DiffError::PuffdiffUnsupported.warning().unwrap(), "PUFFDIFF not supported yet");
    assert_eq!(plan_diff_operation(&op(11, None, None, vec![]), 0), Err(DiffError::ZucchiniUnsupported));
    assert_eq!(plan_diff_operation(&op(0, None, None, vec![]), 0), Err(DiffError::NotDiff));
    assert!(DiffError::NotDiff.warning().is_none());

    let old = b"abcdefgh".to_vec();
    let new = b"abcXefghij".to_vec();
    let mut patch = Vec::new();
    bsdiff::diff(&old, &new, &mut patch).unwrap();
    assert_eq!(diff_output(DiffPlan::Copy, &old, b"").unwrap(), old);
    let plain = DiffPlan::Patch { encoding: PatchEncoding::Plain, offset: 0, length: 0 };
    assert_eq!(diff_output(plain, &old, &patch).unwrap(), new);
    let framed = {
        let mut enc = lz4_flex::frame::FrameEncoder::new(Vec::new());
        enc.write_all(&patch).unwrap();
        enc.finish().unwrap()
    };
    let lz4 = DiffPlan::Patch { encoding: PatchEncoding::Lz4Frame, offset: 0, length: 0 };
    assert_eq!(diff_output(lz4, &old, &framed).unwrap(), new);
    assert_eq!(diff_output(lz4, &old, b"junkjunkjunkjunk").unwrap_err(), DiffError::PatchDecode);
    assert_eq!(diff_output(plain, &old, b"junkjunk").unwrap_err(), DiffError::PatchFailed);
}

#[test]
fn http_range_reads() {
    assert_eq!(
        plan_range_read(10, 100, 50),
        Err(HttpError::ReadBeyondEnd { offset: 10, length: 100, content_length: 50 })
    );
    assert_eq!(plan_range_read(10, 40, 50), Ok(Some(RangeRequest { start: 10, end: 49, len: 40 })));
    assert_eq!(plan_range_read(10, 5, 50), Ok(Some(RangeRequest { start: 10, end: 14, len: 5 })));
    assert_eq!(plan_range_read(10, 0, 50), Ok(None));
    assert_eq!(plan_range_read(50, 1, 50), Err(HttpError::OffsetBeyondEnd { offset: 50, content_length: 50 }));
    assert_eq!(RangeRequest { start: 10, end: 14, len: 5 }.header_value(), "bytes=10-14");
    assert_eq!(retry_delay(1), Some(2));
    assert_eq!(retry_delay(2), Some(4));
    assert_eq!(retry_delay(3), None);
    assert_eq!(check_range_reply(206, 5, 5), Ok(()));
    assert_eq!(check_range_reply(416, 0, 5), Err(HttpError::BadStatus(416)));
    assert_eq!(check_range_reply(200, 4, 5), Err(HttpError::WrongLength { expected: 5, got: 4 }));
    assert_eq!(check_content_length(Some(0)), Err(HttpError::EmptyResource));
    assert_eq!(check_content_length(None), Err(HttpError::UnknownLength));
    assert_eq!(check_content_length(Some(9)), Ok(9));
}

#[test]
fn image_hashes() {
    let abc_digest = vec![
        0xba, 0x78, 0x16, 0xbf, 0x8f, 0x01, 0xcf, 0xea, 0x41, 0x41, 0x40, 0xde, 0x5d, 0xae, 0x22, 0x23,
        0xb0, 0x03, 0x61, 0xa3, 0x96, 0x17, 0x7a, 0x9c, 0xb4, 0x10, 0xff, 0x61, 0xf2, 0x00, 0x15, 0xad,
    ];
    let p = partition(vec![], Some(PartitionInfo { size: Some(3), hash: Some(abc_digest.clone()) }));
    assert_eq!(verify_image(&p, b"abc"), HashVerificationStatus::Verified);
    assert_eq!(verify_image(&p, b"abd"), HashVerificationStatus::Mismatch);
    assert_eq!(hash_status(&p, &abc_digest), HashVerificationStatus::Verified);
    let none = partition(vec![], Some(PartitionInfo { size: Some(3), hash: Some(vec![]) }));
    assert_eq!(verify_image(&none, b"abc"), HashVerificationStatus::NoHash);
    let mut a = partition(vec![], None);
    a.partition_name = "a".to_string();
    let mut b = partition(vec![], None);
    b.partition_name = "b".to_string();
    assert_eq!(partitions_to_verify(&vec![a, b], &vec!["a".to_string()]), vec![1]);
}

#[test]
fn payload_ranges_and_zero_writes() {
    assert_eq!(payload_range(1000, 500, 10, 20), Ok((1010, 1029)));
    assert_eq!(
        payload_range(1000, 500, 490, 20),
        Err(HttpError::BeyondPayload { offset: 490, length: 20, payload_size: 500 })
    );
    assert_eq!(range_header_value(0, 0), "bytes=0-0");
    assert_eq!(zero_write_plan(5 * 1024 + 7, 1024), ZeroWrites { full_chunks: 5, remainder: 7 });
    assert_eq!(zero_write_plan(0, 3), ZeroWrites { full_chunks: 0, remainder: 0 });
}

#[test]
fn prefetched_chunks_hold_every_operation() {
    let ops = vec![
        op(0, Some(700_000), Some(300_000), vec![ext(0, 1)]),
        op(0, Some(10), Some(5), vec![ext(1, 1)]),
        op(6, None, None, vec![ext(2, 1)]),
    ];
    let p = partition(ops.clone(), None);
    let data_offset = 4096u64;
    let payload_offset = 77u64;
    let range = calculate_partition_range(&p, data_offset).unwrap();
    let chunks = download_plan(&range, payload_offset);
    let first = chunks.first().unwrap().offset;
    let last = chunks.last().unwrap();
    for o in &ops {
        if let (Some(off), Some(len)) = (o.data_offset, o.data_length) {
            if len > 0 {
                let start = payload_offset + data_offset + off;
                assert!(first <= start);
                assert!(start + len <= last.offset + last.length);
                let local = translate_offset(data_offset + off, range.min_offset).unwrap();
                assert!(local + len <= range.total_bytes);
            }
        }
    }
    for w in chunks.windows(2) {
        assert_eq!(w[0].offset + w[0].length, w[1].offset);
    }
}

#[test]
fn stream_checks_and_decoding() {
    assert!(stream_step_fits(&op(0, Some(1), Some(1), vec![ext(3, 1)]), 10, 4096));
    assert!(!stream_step_fits(&op(0, Some(1), Some(1), vec![]), 10, 4096));
    assert!(!stream_step_fits(&op(0, Some(u64::MAX), Some(1), vec![ext(0, 1)]), 10, 4096));
    assert!(!stream_step_fits(&op(6, None, None, vec![ext(u64::MAX / 2, 1)]), 0, 4096));
    assert!(stream_step_fits(&op(14, Some(0), Some(1), vec![ext(u64::MAX, 1), ext(0, 1)]), 0, 4096));
    assert!(!stream_step_fits(&op(14, Some(0), Some(1), vec![ext(u64::MAX, 1)]), 0, 4096));
    let raw = b"streamed bytes".to_vec();
    assert_eq!(decode_with(Codec::Raw, &raw), (raw.clone(), true));
    let z = zstd::encode_all(&raw[..], 1).unwrap();
    assert_eq!(decode_with(Codec::Zstd, &z), (raw.clone(), true));
    assert_eq!(decode_with(Codec::Xz, b"nope"), (Vec::new(), false));
    assert!(extents_addressable_exec(&vec![ext(1, 1)], 4096));
    assert!(!extents_addressable_exec(&vec![ext(u64::MAX, 2)], 4096));
    assert!(dst_writes_fit(&vec![ext(0, 1), ext(5, 2)], 4, 12));
    assert!(!dst_writes_fit(&vec![ext(0, 1), ext(5, 2)], 4, 11));
}

/// A PUF1 patch over data holding no deflate streams, whose inner BSDF2
/// patch (uncompressed streams) writes `new` from its extra stream.
fn plain_puf1_patch(old_len: u8, new: &[u8]) -> Vec<u8> {
    let mut inner = b"BSDF2\0\0\0".to_vec();
    inner.extend_from_slice(&24i64.to_le_bytes());
    inner.extend_from_slice(&0i64.to_le_bytes());
    inner.extend_from_slice(&(new.len() as i64).to_le_bytes());
    inner.extend_from_slice(&0i64.to_le_bytes());
    inner.extend_from_slice(&(new.len() as i64).to_le_bytes());
    inner.extend_from_slice(&0i64.to_le_bytes());
    inner.extend_from_slice(new);
    let header = vec![0x12, 2, 0x18, old_len, 0x1a, 2, 0x18, new.len() as u8];
    let mut patch = b"PUF1".to_vec();
    patch.extend_from_slice(&(header.len() as u32).to_be_bytes());
    patch.extend_from_slice(&header);
    patch.extend_from_slice(&inner);
    patch
}

#[test]
fn puffdiff_patches_are_applied() {
    let old = b"old source bytes".to_vec();
    let new = b"brand new destination".to_vec();
    let patch = plain_puf1_patch(old.len() as u8, &new);
    assert!(check_puf1_header(&patch));
    let patched = puffdiff::puffpatch(&old, &patch).ok();
    assert_eq!(puffdiff_output(&patch, patched).unwrap(), new);
    assert_eq!(puffdiff_output(&patch, None).unwrap_err(), DiffError::PatchFailed);
    assert_eq!(puffdiff_output(b"PUF0 not a patch", Some(new.clone())).unwrap_err(), DiffError::PatchFailed);
}

#[test]
fn puf1_headers_are_checked() {
    let mut overrun = b"PUF1".to_vec();
    overrun.extend_from_slice(&[0, 0, 0, 11]);
    overrun.extend_from_slice(&[0x12, 0xff, 0xff, 0xff, 0xff, 0xff, 0xff, 0xff, 0xff, 0xff, 0x01]);
    assert!(!check_puf1_header(&overrun));
    let mut long_field = b"PUF1".to_vec();
    long_field.extend_from_slice(&[0, 0, 0, 3]);
    long_field.extend_from_slice(&[0x12, 5, 0x18]);
    assert!(!check_puf1_header(&long_field));
    // A source puff length of 2^31 + 1 bytes.
    let mut huge = b"PUF1".to_vec();
    huge.extend_from_slice(&[0, 0, 0, 8]);
    huge.extend_from_slice(&[0x12, 6, 0x18, 0x81, 0x80, 0x80, 0x80, 0x08]);
    assert!(!check_puf1_header(&huge));
    let mut limit = huge.clone();
    limit[11] = 0x80;
    assert!(check_puf1_header(&limit));
    assert!(!check_puf1_header(b"PUF1"));
    assert!(!check_puf1_header(b"PUF1\0\0\0\x09"));
    assert!(check_puf1_header(b"PUF1\0\0\0\0"));
    let mut extents = b"PUF1".to_vec();
    extents.extend_from_slice(&[0, 0, 0, 8]);
    extents.extend_from_slice(&[0x12, 6, 0x0a, 4, 0x08, 0x10, 0x10, 0x20]);
    assert!(check_puf1_header(&extents));
    let mut far_extent = extents.clone();
    far_extent.truncate(8);
    far_extent[7] = 11;
    far_extent.extend_from_slice(&[0x12, 9, 0x0a, 7, 0x08, 0x81, 0x80, 0x80, 0x80, 0x80, 0x01]);
    assert!(!check_puf1_header(&far_extent));
}

#[test]
fn truncated_streams_keep_what_was_decoded() {
    let raw: Vec<u8> = (0..400_000u32).map(|i| (i.wrapping_mul(2654435761) >> 13) as u8).collect();
    let z = zstd::encode_all(&raw[..], 3).unwrap();
    let (bytes, complete) = decode_with(Codec::Zstd, &z[..z.len() - 10]);
    assert!(!complete);
    assert!(bytes.len() < raw.len());
    assert_eq!(&bytes[..], &raw[..bytes.len()]);
    let mut enc = liblzma::write::XzEncoder::new(Vec::new(), 1);
    std::io::Write::write_all(&mut enc, &raw).unwrap();
    let x = enc.finish().unwrap();
    let (bytes, complete) = decode_with(Codec::Xz, &x[..x.len() / 2]);
    assert!(!complete);
    assert_eq!(&bytes[..], &raw[..bytes.len()]);
    let (bytes, complete) = decode_with(Codec::Xz, &x);
    assert!(complete);
    assert_eq!(bytes, raw);
}
