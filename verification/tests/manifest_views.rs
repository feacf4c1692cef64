use payload_dumper::extractor::{summarize, total_size};
use payload_dumper::header::{find_magic, parse_payload_header, HeaderError, PayloadHeader};
use payload_dumper::listing::{filter_partitions, listed_names, partition_table};
use payload_dumper::metadata::{collect_metadata, hex_encode, metadata_computable};
use payload_dumper::structs::{
    ApexInfo, DeltaArchiveManifest, DynamicPartitionGroup, DynamicPartitionMetadata, Extent,
    InstallOperation, PartitionInfo, PartitionUpdate, VabcFeatureSet,
};

fn header_bytes(version: u64, manifest: u64, sig: u32) -> Vec<u8> {
    let mut v = b"CrAU".to_vec();
    v.extend_from_slice(&version.to_be_bytes());
    v.extend_from_slice(&manifest.to_be_bytes());
    v.extend_from_slice(&sig.to_be_bytes());
    v
}

#[test]
fn header_is_parsed() {
    let h = parse_payload_header(&header_bytes(2, 1000, 267)).unwrap();
    assert_eq!(h, PayloadHeader { version: 2, manifest_size: 1000, metadata_signature_size: 267 });
    assert_eq!(h.data_offset(), Some(24 + 1000 + 267));
}

#[test]
fn header_errors() {
    assert_eq!(parse_payload_header(b"Cr"), Err(HeaderError::Truncated));
    assert_eq!(parse_payload_header(b"PK\x03\x04xxxxxxxxxxxx"), Err(HeaderError::BadMagic));
    assert_eq!(parse_payload_header(&header_bytes(1, 0, 0)), Err(HeaderError::UnsupportedVersion(1)));
    let full = header_bytes(2, 5, 5);
    assert_eq!(parse_payload_header(&full[..20]), Err(HeaderError::Truncated));
    let huge = PayloadHeader { version: 2, manifest_size: u64::MAX - 10, metadata_signature_size: 5 };
    assert_eq!(huge.data_offset(), None);
}

#[test]
fn magic_is_found_in_a_chunk() {
    assert_eq!(find_magic(b"xxCrAUyy"), Some(2));
    assert_eq!(find_magic(b"xxxxCrAU"), Some(4));
    assert_eq!(find_magic(b"xxxxxCrA"), None);
    assert_eq!(find_magic(b"abc"), None);
    assert_eq!(find_magic(b"CrAUCrAU!"), Some(0));
}

fn op(op_type: i32, data_offset: u64, dst: Vec<Extent>) -> InstallOperation {
    InstallOperation {
        op_type,
        data_offset: Some(data_offset),
        data_length: Some(10),
        src_extents: vec![],
        src_length: None,
        dst_extents: dst,
        dst_length: None,
        data_sha256_hash: None,
        src_sha256_hash: None,
    }
}

fn partition(name: &str, size: Option<u64>, ops: Vec<InstallOperation>) -> PartitionUpdate {
    PartitionUpdate {
        partition_name: name.to_string(),
        run_postinstall: Some(true),
        postinstall_path: Some("bin/post".to_string()),
        filesystem_type: None,
        old_partition_info: None,
        new_partition_info: size.map(|s| PartitionInfo { size: Some(s), hash: Some(vec![0xde, 0xad, 0x01]) }),
        operations: ops,
        postinstall_optional: None,
        hash_tree_algorithm: None,
        version: Some("1".to_string()),
    }
}

fn sample_manifest() -> DeltaArchiveManifest {
    let e = Extent { start_block: Some(0), num_blocks: Some(1) };
    DeltaArchiveManifest {
        block_size: Some(4096),
        minor_version: None,
        partitions: vec![
            partition("boot", Some(8192), vec![op(0, 100, vec![]), op(8, 200, vec![e]), op(1, 300, vec![e])]),
            partition("vendor", None, vec![op(0, 0, vec![e])]),
            partition("userdata_ext", Some(1024), vec![op(0, 7, vec![e])]),
        ],
        max_timestamp: Some(42),
        dynamic_partition_metadata: Some(DynamicPartitionMetadata {
            groups: vec![DynamicPartitionGroup {
                name: "main".to_string(),
                size: Some(99),
                partition_names: vec!["system".to_string(), "vendor".to_string()],
            }],
            snapshot_enabled: Some(true),
            vabc_enabled: None,
            vabc_compression_param: Some("lz4".to_string()),
            cow_version: Some(3),
            vabc_feature_set: Some(VabcFeatureSet { threaded: Some(true), batch_writes: None }),
            compression_factor: None,
        }),
        partial_update: None,
        apex_info: vec![ApexInfo {
            package_name: Some("com.x".to_string()),
            version: Some(7),
            is_compressed: None,
            decompressed_size: Some(11),
        }],
        security_patch_level: Some("2024-01-05".to_string()),
    }
}

#[test]
fn metadata_is_collected() {
    let m = sample_manifest();
    assert!(metadata_computable(&m, 5000));
    let md = collect_metadata(&m, 5000, "");
    assert_eq!(md.block_size, 4096);
    assert_eq!(md.minor_version, 0);
    assert_eq!(md.max_timestamp, Some(42));
    assert_eq!(md.security_patch_level.as_deref(), Some("2024-01-05"));
    assert_eq!(md.partitions.len(), 2);
    let boot = &md.partitions[0];
    assert_eq!(boot.partition_name, "boot");
    assert_eq!(boot.size_in_bytes, 8192);
    assert_eq!(boot.size_in_blocks, 2);
    assert_eq!(boot.total_blocks, 2);
    assert_eq!(boot.size_readable, "8.00 KB");
    assert_eq!(boot.hash.as_deref(), Some("dead01"));
    assert_eq!(boot.start_offset, 5200);
    assert_eq!(boot.end_offset, 5200 + 8192);
    assert_eq!(boot.data_offset, 5000);
    assert_eq!(boot.operations_count, 3);
    assert_eq!(boot.compression_type, "xz");
    assert_eq!(boot.encryption, "none");
    assert_eq!(boot.run_postinstall, Some(true));
    assert_eq!(boot.postinstall_path.as_deref(), Some("bin/post"));
    let user = &md.partitions[1];
    assert_eq!(user.encryption, "AES");
    assert_eq!(user.compression_type, "none");
    assert_eq!(user.start_offset, 5007);
    let dpm = md.dynamic_partition_metadata.as_ref().unwrap();
    assert_eq!(dpm.groups[0].name, "main");
    assert_eq!(dpm.groups[0].partition_names, vec!["system".to_string(), "vendor".to_string()]);
    assert_eq!(dpm.cow_version, Some(3));
    assert_eq!(dpm.vabc_feature_set.unwrap().threaded, Some(true));
    assert_eq!(md.apex_info[0].package_name.as_deref(), Some("com.x"));
    assert_eq!(md.apex_info[0].decompressed_size, Some(11));
}

#[test]
fn metadata_needs_a_block_size() {
    let mut m = sample_manifest();
    m.block_size = Some(0);
    assert!(!metadata_computable(&m, 0));
    assert!(!metadata_computable(&sample_manifest(), u64::MAX - 10));
}

#[test]
fn summary_of_metadata() {
    let md = collect_metadata(&sample_manifest(), 0, "");
    assert_eq!(total_size(&md.partitions), Some(8192 + 1024));
    let s = summarize(&md, 4);
    assert_eq!(s.total_partitions, 2);
    assert_eq!(s.total_operations, 4);
    assert_eq!(s.total_size_bytes, 9216);
    assert_eq!(s.total_size_readable, "9.00 KB");
    assert_eq!(s.partitions[1].name, "userdata_ext");
    assert_eq!(s.partitions[0].hash.as_deref(), Some("dead01"));
}

#[test]
fn partition_table_lines() {
    let lines = partition_table(&sample_manifest());
    assert_eq!(lines.len(), 5);
    assert_eq!(lines[0], format!("{:<20} {:<15}", "Partition Name", "Size"));
    assert_eq!(lines[1], "-".repeat(35));
    assert_eq!(lines[2], format!("{:<20} {:<15}", "boot", "8.00 KB"));
    assert_eq!(lines[3], format!("{:<20} {:<15}", "vendor", "Unknown"));
    assert_eq!(lines[4], format!("{:<20} {:<15}", "userdata_ext", "1.00 KB"));
}

#[test]
fn partition_table_long_names_are_not_cut() {
    let mut m = sample_manifest();
    m.partitions[0].partition_name = "a_very_long_partition_name".to_string();
    let lines = partition_table(&m);
    assert_eq!(lines[2], format!("{:<20} {:<15}", "a_very_long_partition_name", "8.00 KB"));
}

#[test]
fn image_lists() {
    assert!(listed_names("boot,system").contains("boot"));
    assert!(listed_names("boot,system").contains("system"));
    assert!(!listed_names("boot,system").contains("sys"));
    assert!(!listed_names("boot,system").contains("boot,system"));
    assert!(listed_names("a,,b").contains(""));
    assert!(!listed_names("a,b").contains(""));
}

#[test]
fn partitions_are_filtered_by_name() {
    let m = sample_manifest();
    let all = filter_partitions(&m, "");
    assert_eq!(all.len(), 3);
    let some = filter_partitions(&m, "userdata_ext,boot,nothing");
    let names: Vec<&str> = some.iter().map(|p| p.partition_name.as_str()).collect();
    assert_eq!(names, vec!["boot", "userdata_ext"]);
    assert_eq!(some[0].operations.len(), 3);
    assert_eq!(some[0].new_partition_info.as_ref().unwrap().size, Some(8192));
}

#[test]
fn metadata_follows_the_image_list() {
    let m = sample_manifest();
    let only_boot = collect_metadata(&m, 5000, "boot");
    assert_eq!(only_boot.partitions.len(), 1);
    assert_eq!(only_boot.partitions[0].partition_name, "boot");
    let none = collect_metadata(&m, 5000, "vendor,odm");
    assert!(none.partitions.is_empty());
    let both = collect_metadata(&m, 5000, "userdata_ext,boot");
    assert_eq!(both.partitions.len(), 2);
    assert_eq!(both.partitions[0].partition_name, "boot");
    assert_eq!(listed_names("a,b,a").len(), 2);
}

#[test]
fn hex_text_matches_the_hex_crate() {
    assert_eq!(hex_encode(&[0x0f, 0xa0, 0x00, 0xff]), "0fa000ff");
    assert_eq!(hex_encode(&[]), "");
    let bytes: Vec<u8> = (0..=255u8).collect();
    assert_eq!(hex_encode(&bytes), hex::encode(&bytes));
}
