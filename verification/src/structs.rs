//! The update manifest carried by a payload, as plain values.
use vstd::prelude::*;

verus! {

/// A run of blocks: `num_blocks` blocks starting at block `start_block`.
#[derive(Debug, Clone, Copy, PartialEq, Eq, Structural)]
pub struct Extent {
    pub start_block: Option<u64>,
    pub num_blocks: Option<u64>,
}

/// Size and SHA-256 hash of a partition image.
#[derive(Debug, Clone)]
pub struct PartitionInfo {
    pub size: Option<u64>,
    pub hash: Option<Vec<u8>>,
}

/// Kinds of install operations, by the numbers of the update format.
#[derive(Debug, Clone, Copy, PartialEq, Eq, Structural)]
pub enum OperationType {
    Replace,
    ReplaceBz,
    Move,
    Bsdiff,
    SourceCopy,
    SourceBsdiff,
    Zero,
    Discard,
    ReplaceXz,
    Puffdiff,
    BrotliBsdiff,
    Zucchini,
    Lz4diffBsdiff,
    Lz4diffPuffdiff,
    Zstd,
}

/// The operation kind a stored type number denotes; a number outside the
/// format's list reads as `Replace`, the format's default.
pub open spec fn spec_operation_type(t: i32) -> OperationType {
    if t == 0 {
        OperationType::Replace
    } else if t == 1 {
        OperationType::ReplaceBz
    } else if t == 2 {
        OperationType::Move
    } else if t == 3 {
        OperationType::Bsdiff
    } else if t == 4 {
        OperationType::SourceCopy
    } else if t == 5 {
        OperationType::SourceBsdiff
    } else if t == 6 {
        OperationType::Zero
    } else if t == 7 {
        OperationType::Discard
    } else if t == 8 {
        OperationType::ReplaceXz
    } else if t == 9 {
        OperationType::Puffdiff
    } else if t == 10 {
        OperationType::BrotliBsdiff
    } else if t == 11 {
        OperationType::Zucchini
    } else if t == 12 {
        OperationType::Lz4diffBsdiff
    } else if t == 13 {
        OperationType::Lz4diffPuffdiff
    } else if t == 14 {
        OperationType::Zstd
    } else {
        OperationType::Replace
    }
}

/// One step that produces part of a partition image.
#[derive(Debug, Clone)]
pub struct InstallOperation {
    /// The operation's type number (see `OperationType`).
    pub op_type: i32,
    pub data_offset: Option<u64>,
    pub data_length: Option<u64>,
    pub src_extents: Vec<Extent>,
    pub src_length: Option<u64>,
    pub dst_extents: Vec<Extent>,
    pub dst_length: Option<u64>,
    pub data_sha256_hash: Option<Vec<u8>>,
    pub src_sha256_hash: Option<Vec<u8>>,
}

impl InstallOperation {
    /// The operation's kind.
    pub fn kind(&self) -> (r: OperationType)
        ensures
            r == spec_operation_type(self.op_type),
    {
        match self.op_type {
            0 => OperationType::Replace,
            1 => OperationType::ReplaceBz,
            2 => OperationType::Move,
            3 => OperationType::Bsdiff,
            4 => OperationType::SourceCopy,
            5 => OperationType::SourceBsdiff,
            6 => OperationType::Zero,
            7 => OperationType::Discard,
            8 => OperationType::ReplaceXz,
            9 => OperationType::Puffdiff,
            10 => OperationType::BrotliBsdiff,
            11 => OperationType::Zucchini,
            12 => OperationType::Lz4diffBsdiff,
            13 => OperationType::Lz4diffPuffdiff,
            14 => OperationType::Zstd,
            _ => OperationType::Replace,
        }
    }
}

/// How to rebuild one partition.
#[derive(Debug, Clone)]
pub struct PartitionUpdate {
    pub partition_name: String,
    pub run_postinstall: Option<bool>,
    pub postinstall_path: Option<String>,
    pub filesystem_type: Option<String>,
    pub old_partition_info: Option<PartitionInfo>,
    pub new_partition_info: Option<PartitionInfo>,
    pub operations: Vec<InstallOperation>,
    pub postinstall_optional: Option<bool>,
    pub hash_tree_algorithm: Option<String>,
    pub version: Option<String>,
}

#[derive(Debug, Clone)]
pub struct DynamicPartitionGroup {
    pub name: String,
    pub size: Option<u64>,
    pub partition_names: Vec<String>,
}

#[derive(Debug, Clone, Copy)]
pub struct VabcFeatureSet {
    pub threaded: Option<bool>,
    pub batch_writes: Option<bool>,
}

#[derive(Debug, Clone)]
pub struct DynamicPartitionMetadata {
    pub groups: Vec<DynamicPartitionGroup>,
    pub snapshot_enabled: Option<bool>,
    pub vabc_enabled: Option<bool>,
    pub vabc_compression_param: Option<String>,
    pub cow_version: Option<u32>,
    pub vabc_feature_set: Option<VabcFeatureSet>,
    pub compression_factor: Option<u64>,
}

#[derive(Debug, Clone)]
pub struct ApexInfo {
    pub package_name: Option<String>,
    pub version: Option<i64>,
    pub is_compressed: Option<bool>,
    pub decompressed_size: Option<i64>,
}

/// The manifest of a payload.
#[derive(Debug, Clone)]
pub struct DeltaArchiveManifest {
    pub block_size: Option<u32>,
    pub minor_version: Option<u32>,
    pub partitions: Vec<PartitionUpdate>,
    pub max_timestamp: Option<i64>,
    pub dynamic_partition_metadata: Option<DynamicPartitionMetadata>,
    pub partial_update: Option<bool>,
    pub apex_info: Vec<ApexInfo>,
    pub security_patch_level: Option<String>,
}

// ---------------------------------------------------------------------------
// Copies

pub open spec fn same_bytes(a: Option<Vec<u8>>, b: Option<Vec<u8>>) -> bool {
    match (a, b) {
        (Some(x), Some(y)) => x@ == y@,
        (None, None) => true,
        _ => false,
    }
}

pub open spec fn same_info(a: Option<PartitionInfo>, b: Option<PartitionInfo>) -> bool {
    match (a, b) {
        (Some(x), Some(y)) => x.size == y.size && same_bytes(x.hash, y.hash),
        (None, None) => true,
        _ => false,
    }
}

/// Two operations hold the same values.
pub open spec fn same_op(a: InstallOperation, b: InstallOperation) -> bool {
    &&& a.op_type == b.op_type
    &&& a.data_offset == b.data_offset
    &&& a.data_length == b.data_length
    &&& a.src_extents@ == b.src_extents@
    &&& a.src_length == b.src_length
    &&& a.dst_extents@ == b.dst_extents@
    &&& a.dst_length == b.dst_length
    &&& same_bytes(a.data_sha256_hash, b.data_sha256_hash)
    &&& same_bytes(a.src_sha256_hash, b.src_sha256_hash)
}

/// Two partition updates hold the same values.
pub open spec fn same_partition(a: PartitionUpdate, b: PartitionUpdate) -> bool {
    &&& a.partition_name == b.partition_name
    &&& a.run_postinstall == b.run_postinstall
    &&& a.postinstall_path == b.postinstall_path
    &&& a.filesystem_type == b.filesystem_type
    &&& same_info(a.old_partition_info, b.old_partition_info)
    &&& same_info(a.new_partition_info, b.new_partition_info)
    &&& a.operations@.len() == b.operations@.len()
    &&& forall|i: int| 0 <= i < a.operations@.len() ==> same_op(#[trigger] a.operations@[i], b.operations@[i])
    &&& a.postinstall_optional == b.postinstall_optional
    &&& a.hash_tree_algorithm == b.hash_tree_algorithm
    &&& a.version == b.version
}

fn copy_bytes(v: &Vec<u8>) -> (r: Vec<u8>)
    ensures
        r@ == v@,
{
    let mut r: Vec<u8> = Vec::new();
    let mut i: usize = 0;
    while i < v.len()
        invariant
            i <= v@.len(),
            r@ == v@.subrange(0, i as int),
        decreases v@.len() - i,
    {
        r.push(v[i]);
        i = i + 1;
        assert(r@ =~= v@.subrange(0, i as int));
    }
    assert(v@.subrange(0, v@.len() as int) =~= v@);
    r
}

fn copy_opt_bytes(o: &Option<Vec<u8>>) -> (r: Option<Vec<u8>>)
    ensures
        same_bytes(r, *o),
{
    match o {
        Some(v) => Some(copy_bytes(v)),
        None => None,
    }
}

fn copy_extents(v: &Vec<Extent>) -> (r: Vec<Extent>)
    ensures
        r@ == v@,
{
    let mut r: Vec<Extent> = Vec::new();
    let mut i: usize = 0;
    while i < v.len()
        invariant
            i <= v@.len(),
            r@ == v@.subrange(0, i as int),
        decreases v@.len() - i,
    {
        r.push(v[i]);
        i = i + 1;
        assert(r@ =~= v@.subrange(0, i as int));
    }
    assert(v@.subrange(0, v@.len() as int) =~= v@);
    r
}

pub(crate) fn copy_opt_string(o: &Option<String>) -> (r: Option<String>)
    ensures
        r == *o,
{
    match o {
        Some(s) => Some(s.clone()),
        None => None,
    }
}

fn copy_info(o: &Option<PartitionInfo>) -> (r: Option<PartitionInfo>)
    ensures
        same_info(r, *o),
{
    match o {
        Some(x) => Some(PartitionInfo { size: x.size, hash: copy_opt_bytes(&x.hash) }),
        None => None,
    }
}

impl InstallOperation {
    /// A copy holding the same values.
    pub fn copy(&self) -> (r: InstallOperation)
        ensures
            same_op(r, *self),
    {
        InstallOperation {
            op_type: self.op_type,
            data_offset: self.data_offset,
            data_length: self.data_length,
            src_extents: copy_extents(&self.src_extents),
            src_length: self.src_length,
            dst_extents: copy_extents(&self.dst_extents),
            dst_length: self.dst_length,
            data_sha256_hash: copy_opt_bytes(&self.data_sha256_hash),
            src_sha256_hash: copy_opt_bytes(&self.src_sha256_hash),
        }
    }
}

impl PartitionUpdate {
    /// A copy holding the same values.
    pub fn copy(&self) -> (r: PartitionUpdate)
        ensures
            same_partition(r, *self),
    {
        let mut operations: Vec<InstallOperation> = Vec::new();
        let mut i: usize = 0;
        while i < self.operations.len()
            invariant
                i <= self.operations@.len(),
                operations@.len() == i,
                forall|k: int| 0 <= k < i ==> same_op(#[trigger] operations@[k], self.operations@[k]),
            decreases self.operations@.len() - i,
        {
            operations.push(self.operations[i].copy());
            i = i + 1;
        }
        PartitionUpdate {
            partition_name: self.partition_name.clone(),
            run_postinstall: self.run_postinstall,
            postinstall_path: copy_opt_string(&self.postinstall_path),
            filesystem_type: copy_opt_string(&self.filesystem_type),
            old_partition_info: copy_info(&self.old_partition_info),
            new_partition_info: copy_info(&self.new_partition_info),
            operations,
            postinstall_optional: self.postinstall_optional,
            hash_tree_algorithm: copy_opt_string(&self.hash_tree_algorithm),
            version: copy_opt_string(&self.version),
        }
    }
}

} // verus!
