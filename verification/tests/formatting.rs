use payload_dumper::structs::{DeltaArchiveManifest, InstallOperation, PartitionUpdate};
use payload_dumper::utils::{
    detect_file, format_elapsed_parts, format_elapsed_time, format_size, is_differential_ota, is_url,
    payload_type, FileType, PayloadType,
};
use std::time::Duration;

fn reference_size(size: u64) -> String {
    const KB: u64 = 1024;
    const MB: u64 = KB * 1024;
    const GB: u64 = MB * 1024;
    if size >= GB {
        format!("{:.2} GB", size as f64 / GB as f64)
    } else if size >= MB {
        format!("{:.2} MB", size as f64 / MB as f64)
    } else if size >= KB {
        format!("{:.2} KB", size as f64 / KB as f64)
    } else {
        format!("{} bytes", size)
    }
}

#[test]
fn format_size_examples() {
    assert_eq!(format_size(0), "0 bytes");
    assert_eq!(format_size(1023), "1023 bytes");
    assert_eq!(format_size(1024), "1.00 KB");
    assert_eq!(format_size(1536), "1.50 KB");
    assert_eq!(format_size(1048576), "1.00 MB");
    assert_eq!(format_size(3 * 1073741824 / 2), "1.50 GB");
    assert_eq!(format_size(u64::MAX), "17179869184.00 GB");
}

#[test]
fn format_size_matches_float_formatting() {
    let mut samples: Vec<u64> = vec![1025, 1029, 10240 + 5, 1048575, 5 * 1048576 + 5243, 1073741823];
    let mut x: u64 = 12345;
    for _ in 0..2000 {
        x = x.wrapping_mul(6364136223846793005).wrapping_add(1442695040888963407);
        samples.push(x >> (x % 64));
    }
    samples.push((1u64 << 53) + 1);
    samples.push((1u64 << 60) + 12345);
    for s in samples {
        assert_eq!(format_size(s), reference_size(s), "size {}", s);
    }
}

#[test]
fn format_elapsed_examples() {
    assert_eq!(format_elapsed_parts(5, 7), "5.007s");
    assert_eq!(format_elapsed_parts(65, 250), "1m 5.250s");
    assert_eq!(format_elapsed_parts(3600, 0), "1h 0m 0.000s");
    assert_eq!(format_elapsed_parts(3725, 999), "1h 2m 5.999s");
    assert_eq!(format_elapsed_time(Duration::from_millis(61_042)), "1m 1.042s");
    assert_eq!(format_elapsed_time(Duration::from_millis(999)), "0.999s");
}

#[test]
fn detect_file_examples() {
    assert_eq!(detect_file(b"PK\x03\x04").unwrap(), FileType::Zip);
    assert_eq!(detect_file(b"CrAU").unwrap(), FileType::Bin);
    let err = detect_file(b"ABCD").unwrap_err();
    assert_eq!(err.magic, *b"ABCD");
}

#[test]
fn url_and_payload_type() {
    assert!(is_url("http://example.com/ota.zip"));
    assert!(is_url("https://x"));
    assert!(!is_url("httpx://x"));
    assert!(!is_url("/tmp/http://"));
    assert_eq!(payload_type(false, FileType::Zip), PayloadType::LocalZip);
    assert_eq!(payload_type(false, FileType::Bin), PayloadType::LocalBin);
    assert_eq!(payload_type(true, FileType::Zip), PayloadType::RemoteZip);
    assert_eq!(payload_type(true, FileType::Bin), PayloadType::RemoteBin);
}

fn op(op_type: i32) -> InstallOperation {
    InstallOperation {
        op_type,
        data_offset: None,
        data_length: None,
        src_extents: vec![],
        src_length: None,
        dst_extents: vec![],
        dst_length: None,
        data_sha256_hash: None,
        src_sha256_hash: None,
    }
}

fn partition(name: &str, ops: Vec<InstallOperation>) -> PartitionUpdate {
    PartitionUpdate {
        partition_name: name.to_string(),
        run_postinstall: None,
        postinstall_path: None,
        filesystem_type: None,
        old_partition_info: None,
        new_partition_info: None,
        operations: ops,
        postinstall_optional: None,
        hash_tree_algorithm: None,
        version: None,
    }
}

fn manifest(parts: Vec<PartitionUpdate>) -> DeltaArchiveManifest {
    DeltaArchiveManifest {
        block_size: None,
        minor_version: None,
        partitions: parts,
        max_timestamp: None,
        dynamic_partition_metadata: None,
        partial_update: None,
        apex_info: vec![],
        security_patch_level: None,
    }
}

#[test]
fn differential_ota_detection() {
    let full = manifest(vec![partition("boot", vec![op(0), op(8), op(6)])]);
    assert!(!is_differential_ota(&full));
    let diff = manifest(vec![partition("boot", vec![op(0)]), partition("system", vec![op(1), op(5)])]);
    assert!(is_differential_ota(&diff));
    let brotli = manifest(vec![partition("vendor", vec![op(10)])]);
    assert!(is_differential_ota(&brotli));
    let lz4diff = manifest(vec![partition("vendor", vec![op(12)])]);
    assert!(!is_differential_ota(&lz4diff));
}
