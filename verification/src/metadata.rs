//! The metadata record of a payload: what is known of each partition and of
//! the update as a whole, gathered from the manifest.
use vstd::prelude::*;
use vstd::string::StrSliceExecFns;
use crate::payload_dumper::opt_or_zero;
use crate::structs::{
    ApexInfo, DeltaArchiveManifest, DynamicPartitionGroup, DynamicPartitionMetadata,
    InstallOperation, OperationType, PartitionUpdate, copy_opt_string, spec_operation_type,
};
use crate::listing::{is_field, listed_names, name_set_contains, name_set_contents, name_set_new};
use crate::text::{push_char, push_str};
use crate::utils::{format_size, size_text};

verus! {

/// What is known of one partition of the update.
#[derive(Debug, Clone)]
pub struct PartitionMetadata {
    pub partition_name: String,
    pub size_in_blocks: u64,
    pub size_in_bytes: u64,
    pub size_readable: String,
    pub hash: Option<String>,
    pub start_offset: u64,
    pub end_offset: u64,
    pub data_offset: u64,
    pub partition_type: String,
    pub operations_count: usize,
    pub compression_type: String,
    pub encryption: String,
    pub block_size: u64,
    pub total_blocks: u64,
    pub run_postinstall: Option<bool>,
    pub postinstall_path: Option<String>,
    pub filesystem_type: Option<String>,
    pub postinstall_optional: Option<bool>,
    pub hash_tree_algorithm: Option<String>,
    pub version: Option<String>,
}

/// A group of dynamic partitions.
#[derive(Debug, Clone)]
pub struct DynamicPartitionGroupInfo {
    pub name: String,
    pub size: Option<u64>,
    pub partition_names: Vec<String>,
}

/// Virtual A/B compression features.
#[derive(Debug, Clone, Copy)]
pub struct VabcFeatureSetInfo {
    pub threaded: Option<bool>,
    pub batch_writes: Option<bool>,
}

/// Dynamic partition layout of the update.
#[derive(Debug, Clone)]
pub struct DynamicPartitionInfo {
    pub groups: Vec<DynamicPartitionGroupInfo>,
    pub snapshot_enabled: Option<bool>,
    pub vabc_enabled: Option<bool>,
    pub vabc_compression_param: Option<String>,
    pub cow_version: Option<u32>,
    pub vabc_feature_set: Option<VabcFeatureSetInfo>,
    pub compression_factor: Option<u64>,
}

/// An APEX package the update carries.
#[derive(Debug, Clone)]
pub struct ApexInfoMetadata {
    pub package_name: Option<String>,
    pub version: Option<i64>,
    pub is_compressed: Option<bool>,
    pub decompressed_size: Option<i64>,
}

/// The whole metadata record.
#[derive(Debug, Clone)]
pub struct PayloadMetadata {
    pub security_patch_level: Option<String>,
    pub block_size: u32,
    pub minor_version: u32,
    pub max_timestamp: Option<i64>,
    pub dynamic_partition_metadata: Option<DynamicPartitionInfo>,
    pub partial_update: Option<bool>,
    pub apex_info: Vec<ApexInfoMetadata>,
    pub partitions: Vec<PartitionMetadata>,
}

// ---------------------------------------------------------------------------
// Hexadecimal text

pub open spec fn hex_digit(n: nat) -> char {
    if n == 0 { '0' } else if n == 1 { '1' } else if n == 2 { '2' } else if n == 3 { '3' }
    else if n == 4 { '4' } else if n == 5 { '5' } else if n == 6 { '6' } else if n == 7 { '7' }
    else if n == 8 { '8' } else if n == 9 { '9' } else if n == 10 { 'a' } else if n == 11 { 'b' }
    else if n == 12 { 'c' } else if n == 13 { 'd' } else if n == 14 { 'e' } else { 'f' }
}

/// Each byte as two lowercase hexadecimal digits, high digit first.
pub open spec fn hex_text(s: Seq<u8>) -> Seq<char>
    decreases s.len(),
{
    if s.len() == 0 {
        seq![]
    } else {
        hex_text(s.drop_last()) + seq![hex_digit((s.last() / 16) as nat), hex_digit((s.last() % 16) as nat)]
    }
}

/// Hexadecimal text has two digits per byte.
pub proof fn law_hex_text_length(s: Seq<u8>)
    ensures
        hex_text(s).len() == 2 * s.len(),
    decreases s.len(),
{
    if s.len() > 0 {
        law_hex_text_length(s.drop_last());
    }
}

fn hex_char(n: u8) -> (c: char)
    requires
        n < 16,
    ensures
        c == hex_digit(n as nat),
{
    if n == 0 { '0' } else if n == 1 { '1' } else if n == 2 { '2' } else if n == 3 { '3' }
    else if n == 4 { '4' } else if n == 5 { '5' } else if n == 6 { '6' } else if n == 7 { '7' }
    else if n == 8 { '8' } else if n == 9 { '9' } else if n == 10 { 'a' } else if n == 11 { 'b' }
    else if n == 12 { 'c' } else if n == 13 { 'd' } else if n == 14 { 'e' } else { 'f' }
}

/// Writes each byte as two lowercase hexadecimal digits, high digit first,
/// as `hex::encode` does.
pub fn hex_encode(data: &[u8]) -> (r: String)
    ensures
        r@ == hex_text(data@),
{
    let mut s = String::new();
    let mut i: usize = 0;
    while i < data.len()
        invariant
            i <= data@.len(),
            s@ == hex_text(data@.subrange(0, i as int)),
        decreases data@.len() - i,
    {
        let b = data[i];
        push_char(&mut s, hex_char(b / 16));
        push_char(&mut s, hex_char(b % 16));
        assert(data@.subrange(0, i + 1).drop_last() =~= data@.subrange(0, i as int));
        i = i + 1;
    }
    assert(data@.subrange(0, data@.len() as int) =~= data@);
    s
}

// ---------------------------------------------------------------------------
// Per-partition facts

/// The block size the manifest declares, 4096 when it declares none.
pub open spec fn manifest_block_size(m: DeltaArchiveManifest) -> u32 {
    match m.block_size {
        Some(b) => b,
        None => 4096,
    }
}

/// Where the partition's data starts: at the data offset of the first
/// operation that writes anything, else at the start of the data blob.
pub open spec fn start_offset_of(ops: Seq<InstallOperation>, base: nat) -> nat
    decreases ops.len(),
{
    if ops.len() == 0 {
        base
    } else if ops[0].dst_extents@.len() > 0 {
        base + opt_or_zero(ops[0].data_offset)
    } else {
        start_offset_of(ops.drop_first(), base)
    }
}

/// The compression of the first compressed operation: "xz", "bz2" or
/// "zstd"; "none" when no operation is compressed.
pub open spec fn compression_name(ops: Seq<InstallOperation>) -> Seq<char>
    decreases ops.len(),
{
    if ops.len() == 0 {
        seq!['n', 'o', 'n', 'e']
    } else {
        let k = spec_operation_type(ops[0].op_type);
        if k == OperationType::ReplaceXz {
            seq!['x', 'z']
        } else if k == OperationType::ReplaceBz {
            seq!['b', 'z', '2']
        } else if k == OperationType::Zstd {
            seq!['z', 's', 't', 'd']
        } else {
            compression_name(ops.drop_first())
        }
    }
}

/// The compression named for a list of operations is that of its first
/// compressed operation: an XZ, bzip2 or Zstd operation in front names
/// "xz", "bz2" or "zstd" whatever follows, any other operation in front
/// leaves the name of the rest, and no operation at all names "none".
pub proof fn law_compression_of_first_compressed(op: InstallOperation, rest: Seq<InstallOperation>)
    ensures
        compression_name(Seq::<InstallOperation>::empty()) == seq!['n', 'o', 'n', 'e'],
        spec_operation_type(op.op_type) == OperationType::ReplaceXz ==> compression_name(seq![op] + rest)
            == seq!['x', 'z'],
        spec_operation_type(op.op_type) == OperationType::ReplaceBz ==> compression_name(seq![op] + rest)
            == seq!['b', 'z', '2'],
        spec_operation_type(op.op_type) == OperationType::Zstd ==> compression_name(seq![op] + rest)
            == seq!['z', 's', 't', 'd'],
        (spec_operation_type(op.op_type) != OperationType::ReplaceXz && spec_operation_type(op.op_type)
            != OperationType::ReplaceBz && spec_operation_type(op.op_type) != OperationType::Zstd)
            ==> compression_name(seq![op] + rest) == compression_name(rest),
{
    assert((seq![op] + rest).drop_first() =~= rest);
    assert((seq![op] + rest)[0] == op);
}

/// The bytes of "userdata".
pub open spec fn userdata_bytes() -> Seq<u8> {
    seq![0x75u8, 0x73u8, 0x65u8, 0x72u8, 0x64u8, 0x61u8, 0x74u8, 0x61u8]
}

/// `needle` occurs somewhere in `hay`.
pub open spec fn contains_bytes(hay: Seq<u8>, needle: Seq<u8>) -> bool {
    exists|i: int| 0 <= i && i + needle.len() <= hay.len() && #[trigger] hay.subrange(i, i + needle.len()) == needle
}

/// "AES" for a partition whose name contains "userdata", else "none".
pub open spec fn encryption_name(name: Seq<char>) -> Seq<char> {
    if contains_bytes(vstd::utf8::encode_utf8(name), userdata_bytes()) {
        seq!['A', 'E', 'S']
    } else {
        seq!['n', 'o', 'n', 'e']
    }
}

/// The partition's image size, 0 when unknown.
pub open spec fn image_size(p: PartitionUpdate) -> nat {
    match p.new_partition_info {
        Some(info) => opt_or_zero(info.size),
        None => 0,
    }
}

/// The metadata of a partition with a known image is within the range of
/// 64-bit offsets.
pub open spec fn partition_offsets_fit(p: PartitionUpdate, data_offset: u64) -> bool {
    p.new_partition_info is Some ==> start_offset_of(p.operations@, data_offset as nat) + image_size(p)
        <= u64::MAX
}

/// `m` is the metadata of partition `p`, for the given block size and
/// offset of the data blob.
pub open spec fn describes_partition(m: PartitionMetadata, p: PartitionUpdate, bs: u64, data_offset: u64) -> bool {
    let info = p.new_partition_info.unwrap();
    let size = opt_or_zero(info.size);
    let start = start_offset_of(p.operations@, data_offset as nat);
    &&& m.partition_name == p.partition_name
    &&& m.size_in_bytes == size
    &&& m.size_in_blocks == size / (bs as nat)
    &&& m.total_blocks == size / (bs as nat)
    &&& m.size_readable@ == size_text(size)
    &&& match info.hash {
        Some(h) => m.hash is Some && m.hash.unwrap()@ == hex_text(h@),
        None => m.hash is None,
    }
    &&& m.start_offset == start
    &&& m.end_offset == start + size
    &&& m.data_offset == data_offset
    &&& m.partition_type == p.partition_name
    &&& m.operations_count == p.operations@.len()
    &&& m.compression_type@ == compression_name(p.operations@)
    &&& m.encryption@ == encryption_name(p.partition_name@)
    &&& m.block_size == bs
    &&& m.run_postinstall == p.run_postinstall
    &&& m.postinstall_path == p.postinstall_path
    &&& m.filesystem_type == p.filesystem_type
    &&& m.postinstall_optional == p.postinstall_optional
    &&& m.hash_tree_algorithm == p.hash_tree_algorithm
    &&& m.version == p.version
}

fn start_offset(ops: &Vec<InstallOperation>, data_offset: u64) -> (r: u64)
    requires
        start_offset_of(ops@, data_offset as nat) <= u64::MAX,
    ensures
        r == start_offset_of(ops@, data_offset as nat),
{
    let mut j: usize = 0;
    assert(ops@.subrange(0, ops@.len() as int) =~= ops@);
    while j < ops.len()
        invariant
            j <= ops@.len(),
            start_offset_of(ops@, data_offset as nat) == start_offset_of(ops@.subrange(j as int, ops@.len() as int), data_offset as nat),
            start_offset_of(ops@, data_offset as nat) <= u64::MAX,
        decreases ops@.len() - j,
    {
        let ghost rest = ops@.subrange(j as int, ops@.len() as int);
        assert(rest.drop_first() =~= ops@.subrange(j + 1, ops@.len() as int));
        assert(rest[0] == ops@[j as int]);
        if ops[j].dst_extents.len() > 0 {
            let extra: u64 = match ops[j].data_offset {
                Some(v) => v,
                None => 0,
            };
            return data_offset + extra;
        }
        j = j + 1;
    }
    assert(ops@.subrange(j as int, ops@.len() as int).len() == 0);
    data_offset
}

fn compression_of(ops: &Vec<InstallOperation>) -> (r: String)
    ensures
        r@ == compression_name(ops@),
{
    let mut j: usize = 0;
    let mut s = String::new();
    assert(ops@.subrange(0, ops@.len() as int) =~= ops@);
    while j < ops.len()
        invariant
            j <= ops@.len(),
            s@.len() == 0,
            compression_name(ops@) == compression_name(ops@.subrange(j as int, ops@.len() as int)),
        decreases ops@.len() - j,
    {
        let ghost rest = ops@.subrange(j as int, ops@.len() as int);
        assert(rest.drop_first() =~= ops@.subrange(j + 1, ops@.len() as int));
        assert(rest[0] == ops@[j as int]);
        let k = ops[j].kind();
        if k == OperationType::ReplaceXz {
            proof { reveal_strlit("xz"); }
            push_str(&mut s, "xz");
            assert(s@ =~= compression_name(ops@));
            return s;
        } else if k == OperationType::ReplaceBz {
            proof { reveal_strlit("bz2"); }
            push_str(&mut s, "bz2");
            assert(s@ =~= compression_name(ops@));
            return s;
        } else if k == OperationType::Zstd {
            proof { reveal_strlit("zstd"); }
            push_str(&mut s, "zstd");
            assert(s@ =~= compression_name(ops@));
            return s;
        }
        j = j + 1;
    }
    assert(ops@.subrange(j as int, ops@.len() as int).len() == 0);
    proof { reveal_strlit("none"); }
    push_str(&mut s, "none");
    assert(s@ =~= compression_name(ops@));
    s
}

fn matches_userdata_at(hay: &[u8], i: usize) -> (r: bool)
    requires
        i + 8 <= hay@.len(),
    ensures
        r == (hay@.subrange(i as int, i + 8) == userdata_bytes()),
{
    let r = hay[i] == 0x75u8 && hay[i + 1] == 0x73u8 && hay[i + 2] == 0x65u8 && hay[i + 3] == 0x72u8
        && hay[i + 4] == 0x64u8 && hay[i + 5] == 0x61u8 && hay[i + 6] == 0x74u8 && hay[i + 7]
        == 0x61u8;
    if r {
        assert(hay@.subrange(i as int, i + 8) =~= userdata_bytes());
    } else {
        assert(hay@.subrange(i as int, i + 8) != userdata_bytes()) by {
            let sub = hay@.subrange(i as int, i + 8);
            if sub == userdata_bytes() {
                assert(sub[0] == hay@[i as int] && sub[1] == hay@[i + 1] && sub[2] == hay@[i + 2]
                    && sub[3] == hay@[i + 3] && sub[4] == hay@[i + 4] && sub[5] == hay@[i + 5]
                    && sub[6] == hay@[i + 6] && sub[7] == hay@[i + 7]);
            }
        }
    }
    r
}

fn contains_userdata(bytes: &[u8]) -> (r: bool)
    ensures
        r == contains_bytes(bytes@, userdata_bytes()),
{
    if bytes.len() < 8 {
        assert(!contains_bytes(bytes@, userdata_bytes())) by {
            if contains_bytes(bytes@, userdata_bytes()) {
                let k = choose|k: int| 0 <= k && k + userdata_bytes().len() <= bytes@.len()
                    && #[trigger] bytes@.subrange(k, k + userdata_bytes().len()) == userdata_bytes();
            }
        }
        return false;
    }
    let last: usize = bytes.len() - 8;
    let mut i: usize = 0;
    while i <= last
        invariant
            last == bytes@.len() - 8,
            last < usize::MAX,
            i <= last + 1,
            forall|k: int| 0 <= k < i ==> #[trigger] bytes@.subrange(k, k + 8) != userdata_bytes(),
        decreases last + 1 - i,
    {
        if matches_userdata_at(bytes, i) {
            assert(bytes@.subrange(i as int, i + userdata_bytes().len()) == userdata_bytes());
            return true;
        }
        i = i + 1;
    }
    assert(!contains_bytes(bytes@, userdata_bytes())) by {
        if contains_bytes(bytes@, userdata_bytes()) {
            let k = choose|k: int| 0 <= k && k + userdata_bytes().len() <= bytes@.len()
                && #[trigger] bytes@.subrange(k, k + userdata_bytes().len()) == userdata_bytes();
            assert(bytes@.subrange(k, k + 8) == userdata_bytes());
        }
    }
    false
}

fn encryption_of(name: &String) -> (r: String)
    ensures
        r@ == encryption_name(name@),
{
    let bytes = name.as_str().as_bytes();
    let mut s = String::new();
    if contains_userdata(bytes) {
        proof { reveal_strlit("AES"); }
        push_str(&mut s, "AES");
    } else {
        proof { reveal_strlit("none"); }
        push_str(&mut s, "none");
    }
    assert(s@ =~= encryption_name(name@));
    s
}

fn clone_strings(v: &Vec<String>) -> (r: Vec<String>)
    ensures
        r@ == v@,
{
    let mut r: Vec<String> = Vec::new();
    let mut i: usize = 0;
    while i < v.len()
        invariant
            i <= v@.len(),
            r@ == v@.subrange(0, i as int),
        decreases v@.len() - i,
    {
        r.push(v[i].clone());
        i = i + 1;
        assert(r@ =~= v@.subrange(0, i as int));
    }
    assert(v@.subrange(0, v@.len() as int) =~= v@);
    r
}

fn partition_metadata(p: &PartitionUpdate, bs: u64, data_offset: u64) -> (r: PartitionMetadata)
    requires
        p.new_partition_info is Some,
        bs > 0,
        partition_offsets_fit(*p, data_offset),
    ensures
        describes_partition(r, *p, bs, data_offset),
{
    let info = p.new_partition_info.as_ref().unwrap();
    let size_in_bytes: u64 = match info.size {
        Some(v) => v,
        None => 0,
    };
    let hash = match &info.hash {
        Some(h) => Some(hex_encode(h.as_slice())),
        None => None,
    };
    let start = start_offset(&p.operations, data_offset);
    PartitionMetadata {
        partition_name: p.partition_name.clone(),
        size_in_blocks: size_in_bytes / bs,
        size_in_bytes,
        size_readable: format_size(size_in_bytes),
        hash,
        start_offset: start,
        end_offset: start + size_in_bytes,
        data_offset,
        partition_type: p.partition_name.clone(),
        operations_count: p.operations.len(),
        compression_type: compression_of(&p.operations),
        encryption: encryption_of(&p.partition_name),
        block_size: bs,
        total_blocks: size_in_bytes / bs,
        run_postinstall: p.run_postinstall,
        postinstall_path: copy_opt_string(&p.postinstall_path),
        filesystem_type: copy_opt_string(&p.filesystem_type),
        postinstall_optional: p.postinstall_optional,
        hash_tree_algorithm: copy_opt_string(&p.hash_tree_algorithm),
        version: copy_opt_string(&p.version),
    }
}

// ---------------------------------------------------------------------------
// The whole record

/// Indices, in order, of the first `n` partitions whose new image is
/// described and that the image list `images` picks (every one when it is
/// empty, else those named in it).
pub open spec fn described_partitions(parts: Seq<PartitionUpdate>, images: Seq<char>, n: nat) -> Seq<int>
    decreases n,
{
    if n == 0 {
        seq![]
    } else {
        let prev = described_partitions(parts, images, (n - 1) as nat);
        if parts[n - 1].new_partition_info is Some && (images.len() == 0 || is_field(
            images,
            parts[n - 1].partition_name@,
        )) {
            prev.push(n - 1)
        } else {
            prev
        }
    }
}

/// The record can be computed: partitions with a described image need a
/// nonzero block size and offsets within 64 bits.
pub open spec fn spec_metadata_computable(m: DeltaArchiveManifest, data_offset: u64) -> bool {
    forall|i: int|
        0 <= i < m.partitions@.len() && (#[trigger] m.partitions@[i]).new_partition_info is Some
            ==> manifest_block_size(m) > 0 && partition_offsets_fit(m.partitions@[i], data_offset)
}

pub open spec fn describes_group(gi: DynamicPartitionGroupInfo, g: DynamicPartitionGroup) -> bool {
    &&& gi.name == g.name
    &&& gi.size == g.size
    &&& gi.partition_names@ == g.partition_names@
}

pub open spec fn describes_dynamic(di: DynamicPartitionInfo, d: DynamicPartitionMetadata) -> bool {
    &&& di.groups@.len() == d.groups@.len()
    &&& forall|i: int| 0 <= i < d.groups@.len() ==> describes_group(#[trigger] di.groups@[i], d.groups@[i])
    &&& di.snapshot_enabled == d.snapshot_enabled
    &&& di.vabc_enabled == d.vabc_enabled
    &&& di.vabc_compression_param == d.vabc_compression_param
    &&& di.cow_version == d.cow_version
    &&& match d.vabc_feature_set {
        Some(fs) => di.vabc_feature_set == Some(
            VabcFeatureSetInfo { threaded: fs.threaded, batch_writes: fs.batch_writes },
        ),
        None => di.vabc_feature_set is None,
    }
    &&& di.compression_factor == d.compression_factor
}

pub open spec fn describes_apex(a: ApexInfoMetadata, x: ApexInfo) -> bool {
    &&& a.package_name == x.package_name
    &&& a.version == x.version
    &&& a.is_compressed == x.is_compressed
    &&& a.decompressed_size == x.decompressed_size
}

/// `r` is the metadata record of manifest `m` whose data blob starts at
/// `data_offset`: one entry per partition with a described image, in
/// manifest order.
pub open spec fn describes_payload(r: PayloadMetadata, m: DeltaArchiveManifest, data_offset: u64, images: Seq<char>) -> bool {
    let idx = described_partitions(m.partitions@, images, m.partitions@.len());
    let bs = manifest_block_size(m);
    &&& r.security_patch_level == m.security_patch_level
    &&& r.block_size == bs
    &&& r.minor_version == (match m.minor_version {
        Some(v) => v,
        None => 0u32,
    })
    &&& r.max_timestamp == m.max_timestamp
    &&& r.partial_update == m.partial_update
    &&& match m.dynamic_partition_metadata {
        Some(d) => r.dynamic_partition_metadata is Some && describes_dynamic(
            r.dynamic_partition_metadata.unwrap(),
            d,
        ),
        None => r.dynamic_partition_metadata is None,
    }
    &&& r.apex_info@.len() == m.apex_info@.len()
    &&& forall|i: int| 0 <= i < m.apex_info@.len() ==> describes_apex(#[trigger] r.apex_info@[i], m.apex_info@[i])
    &&& r.partitions@.len() == idx.len()
    &&& forall|k: int|
        0 <= k < idx.len() ==> describes_partition(
            #[trigger] r.partitions@[k],
            m.partitions@[idx[k]],
            bs as u64,
            data_offset,
        )
}

/// Whether `collect_metadata` can describe this manifest.
pub fn metadata_computable(manifest: &DeltaArchiveManifest, data_offset: u64) -> (r: bool)
    ensures
        r == spec_metadata_computable(*manifest, data_offset),
{
    let bs: u32 = match manifest.block_size {
        Some(b) => b,
        None => 4096,
    };
    let mut i: usize = 0;
    while i < manifest.partitions.len()
        invariant
            i <= manifest.partitions@.len(),
            bs == manifest_block_size(*manifest),
            forall|k: int|
                0 <= k < i && (#[trigger] manifest.partitions@[k]).new_partition_info is Some
                    ==> bs > 0 && partition_offsets_fit(manifest.partitions@[k], data_offset),
        decreases manifest.partitions@.len() - i,
    {
        let p = &manifest.partitions[i];
        if let Some(info) = &p.new_partition_info {
            if bs == 0 {
                return false;
            }
            let start = start_offset_checked(&p.operations, data_offset);
            let size: u64 = match info.size {
                Some(v) => v,
                None => 0,
            };
            match start {
                None => {
                    return false;
                },
                Some(st) => {
                    if size > u64::MAX - st {
                        return false;
                    }
                },
            }
        }
        i = i + 1;
    }
    true
}

fn start_offset_checked(ops: &Vec<InstallOperation>, data_offset: u64) -> (r: Option<u64>)
    ensures
        match r {
            Some(v) => v == start_offset_of(ops@, data_offset as nat),
            None => start_offset_of(ops@, data_offset as nat) > u64::MAX,
        },
{
    let mut j: usize = 0;
    assert(ops@.subrange(0, ops@.len() as int) =~= ops@);
    while j < ops.len()
        invariant
            j <= ops@.len(),
            start_offset_of(ops@, data_offset as nat) == start_offset_of(ops@.subrange(j as int, ops@.len() as int), data_offset as nat),
        decreases ops@.len() - j,
    {
        let ghost rest = ops@.subrange(j as int, ops@.len() as int);
        assert(rest.drop_first() =~= ops@.subrange(j + 1, ops@.len() as int));
        assert(rest[0] == ops@[j as int]);
        if ops[j].dst_extents.len() > 0 {
            let extra: u64 = match ops[j].data_offset {
                Some(v) => v,
                None => 0,
            };
            return data_offset.checked_add(extra);
        }
        j = j + 1;
    }
    assert(ops@.subrange(j as int, ops@.len() as int).len() == 0);
    Some(data_offset)
}

fn group_info(g: &DynamicPartitionGroup) -> (r: DynamicPartitionGroupInfo)
    ensures
        describes_group(r, *g),
{
    DynamicPartitionGroupInfo {
        name: g.name.clone(),
        size: g.size,
        partition_names: clone_strings(&g.partition_names),
    }
}

fn dynamic_info(d: &DynamicPartitionMetadata) -> (r: DynamicPartitionInfo)
    ensures
        describes_dynamic(r, *d),
{
    let mut groups: Vec<DynamicPartitionGroupInfo> = Vec::new();
    let mut i: usize = 0;
    while i < d.groups.len()
        invariant
            i <= d.groups@.len(),
            groups@.len() == i,
            forall|k: int| 0 <= k < i ==> describes_group(#[trigger] groups@[k], d.groups@[k]),
        decreases d.groups@.len() - i,
    {
        groups.push(group_info(&d.groups[i]));
        i = i + 1;
    }
    let vabc_feature_set = match d.vabc_feature_set {
        Some(fs) => Some(VabcFeatureSetInfo { threaded: fs.threaded, batch_writes: fs.batch_writes }),
        None => None,
    };
    DynamicPartitionInfo {
        groups,
        snapshot_enabled: d.snapshot_enabled,
        vabc_enabled: d.vabc_enabled,
        vabc_compression_param: copy_opt_string(&d.vabc_compression_param),
        cow_version: d.cow_version,
        vabc_feature_set,
        compression_factor: d.compression_factor,
    }
}

fn apex_info(x: &ApexInfo) -> (r: ApexInfoMetadata)
    ensures
        describes_apex(r, *x),
{
    ApexInfoMetadata {
        package_name: copy_opt_string(&x.package_name),
        version: x.version,
        is_compressed: x.is_compressed,
        decompressed_size: x.decompressed_size,
    }
}

/// Gathers the metadata record of a manifest whose data blob starts at
/// `data_offset` in the payload, describing the partitions that
/// `images_arg` (comma-separated names, or empty for all) picks.
pub fn collect_metadata(manifest: &DeltaArchiveManifest, data_offset: u64, images_arg: &str) -> (r: PayloadMetadata)
    requires
        spec_metadata_computable(*manifest, data_offset),
    ensures
        describes_payload(r, *manifest, data_offset, images_arg@),
{
    let all = images_arg.unicode_len() == 0;
    let names = if all {
        name_set_new()
    } else {
        listed_names(images_arg)
    };
    let bs32: u32 = match manifest.block_size {
        Some(b) => b,
        None => 4096,
    };
    let bs = bs32 as u64;
    let mut partitions: Vec<PartitionMetadata> = Vec::new();
    let mut i: usize = 0;
    while i < manifest.partitions.len()
        invariant
            i <= manifest.partitions@.len(),
            bs32 == manifest_block_size(*manifest),
            bs == bs32 as u64,
            spec_metadata_computable(*manifest, data_offset),
            all == (images_arg@.len() == 0),
            !all ==> forall|n: Seq<char>| #[trigger] name_set_contents(names).contains(n) <==> is_field(images_arg@, n),
            partitions@.len() == described_partitions(manifest.partitions@, images_arg@, i as nat).len(),
            forall|k: int|
                0 <= k < partitions@.len() ==> describes_partition(
                    #[trigger] partitions@[k],
                    manifest.partitions@[described_partitions(manifest.partitions@, images_arg@, i as nat)[k]],
                    bs,
                    data_offset,
                ),
        decreases manifest.partitions@.len() - i,
    {
        let p = &manifest.partitions[i];
        let ghost before = described_partitions(manifest.partitions@, images_arg@, i as nat);
        let picked = all || name_set_contains(&names, p.partition_name.as_str());
        assert(described_partitions(manifest.partitions@, images_arg@, (i + 1) as nat) == if manifest.partitions@[i as int].new_partition_info is Some && picked {
            before.push(i as int)
        } else {
            before
        });
        if p.new_partition_info.is_some() && picked {
            assert(manifest.partitions@[i as int].new_partition_info is Some);
            let m = partition_metadata(p, bs, data_offset);
            partitions.push(m);
        }
        i = i + 1;
    }
    let dynamic_partition_metadata = match &manifest.dynamic_partition_metadata {
        Some(d) => Some(dynamic_info(d)),
        None => None,
    };
    let mut apex: Vec<ApexInfoMetadata> = Vec::new();
    let mut j: usize = 0;
    while j < manifest.apex_info.len()
        invariant
            j <= manifest.apex_info@.len(),
            apex@.len() == j,
            forall|k: int| 0 <= k < j ==> describes_apex(#[trigger] apex@[k], manifest.apex_info@[k]),
        decreases manifest.apex_info@.len() - j,
    {
        apex.push(apex_info(&manifest.apex_info[j]));
        j = j + 1;
    }
    PayloadMetadata {
        security_patch_level: copy_opt_string(&manifest.security_patch_level),
        block_size: bs32,
        minor_version: match manifest.minor_version {
            Some(v) => v,
            None => 0,
        },
        max_timestamp: manifest.max_timestamp,
        dynamic_partition_metadata,
        partial_update: manifest.partial_update,
        apex_info: apex,
        partitions,
    }
}

} // verus!
