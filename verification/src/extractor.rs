//! Summaries handed to callers of the extraction interface.
use vstd::prelude::*;
use crate::metadata::{PartitionMetadata, PayloadMetadata};
use crate::structs::copy_opt_string;
use crate::utils::{format_size, size_text};

verus! {

/// Where the extraction of a partition stands.
#[derive(Debug, Clone)]
pub enum ExtractionStatus {
    Started,
    InProgress,
    Completed,
    Warning { operation_index: usize, message: String },
}

/// The basic facts of one partition.
#[derive(Debug, Clone)]
pub struct PartitionInfo {
    pub name: String,
    pub size_bytes: u64,
    pub size_readable: String,
    pub operations_count: usize,
    pub compression_type: String,
    pub hash: Option<String>,
}

/// The basic facts of a whole payload.
#[derive(Debug, Clone)]
pub struct PayloadSummary {
    pub partitions: Vec<PartitionInfo>,
    pub total_partitions: usize,
    pub total_operations: usize,
    pub total_size_bytes: u64,
    pub total_size_readable: String,
    pub security_patch_level: Option<String>,
}

/// A partition listing of a remote payload, with the size the server reported.
#[derive(Debug, Clone)]
pub struct RemotePartitionList {
    pub json: String,
    pub content_length: u64,
}

/// Sum of the image sizes of the partitions.
pub open spec fn total_bytes(parts: Seq<PartitionMetadata>) -> nat
    decreases parts.len(),
{
    if parts.len() == 0 {
        0
    } else {
        total_bytes(parts.drop_last()) + parts.last().size_in_bytes as nat
    }
}

/// `i` carries the basic facts of partition metadata `m`.
pub open spec fn summarizes_partition(i: PartitionInfo, m: PartitionMetadata) -> bool {
    &&& i.name == m.partition_name
    &&& i.size_bytes == m.size_in_bytes
    &&& i.size_readable == m.size_readable
    &&& i.operations_count == m.operations_count
    &&& i.compression_type == m.compression_type
    &&& i.hash == m.hash
}

/// Sum of the image sizes, or `None` when it does not fit in 64 bits.
pub fn total_size(parts: &Vec<PartitionMetadata>) -> (r: Option<u64>)
    ensures
        match r {
            Some(t) => t == total_bytes(parts@),
            None => total_bytes(parts@) > u64::MAX,
        },
{
    let mut t: u64 = 0;
    let mut i: usize = 0;
    while i < parts.len()
        invariant
            i <= parts@.len(),
            t == total_bytes(parts@.subrange(0, i as int)),
        decreases parts@.len() - i,
    {
        let ghost pre = parts@.subrange(0, i as int);
        assert(parts@.subrange(0, i + 1).drop_last() =~= pre);
        proof { lemma_total_bytes_mono(parts@, i + 1); }
        match t.checked_add(parts[i].size_in_bytes) {
            Some(v) => {
                t = v;
            },
            None => {
                return None;
            },
        }
        i = i + 1;
    }
    assert(parts@.subrange(0, parts@.len() as int) =~= parts@);
    Some(t)
}

proof fn lemma_total_bytes_mono(parts: Seq<PartitionMetadata>, k: int)
    requires
        0 <= k <= parts.len(),
    ensures
        total_bytes(parts.subrange(0, k)) <= total_bytes(parts),
    decreases parts.len() - k,
{
    if k < parts.len() {
        lemma_total_bytes_mono(parts, k + 1);
        assert(parts.subrange(0, k + 1).drop_last() =~= parts.subrange(0, k));
    } else {
        assert(parts.subrange(0, k) =~= parts);
    }
}

fn partition_info(m: &PartitionMetadata) -> (r: PartitionInfo)
    ensures
        summarizes_partition(r, *m),
{
    PartitionInfo {
        name: m.partition_name.clone(),
        size_bytes: m.size_in_bytes,
        size_readable: m.size_readable.clone(),
        operations_count: m.operations_count,
        compression_type: m.compression_type.clone(),
        hash: copy_opt_string(&m.hash),
    }
}

/// Summarizes a metadata record: one entry per described partition, their
/// count and total size, and the operation count the caller found.
pub fn summarize(metadata: &PayloadMetadata, total_operations: usize) -> (r: PayloadSummary)
    requires
        total_bytes(metadata.partitions@) <= u64::MAX,
    ensures
        r.partitions@.len() == metadata.partitions@.len(),
        forall|i: int|
            0 <= i < r.partitions@.len() ==> summarizes_partition(#[trigger] r.partitions@[i], metadata.partitions@[i]),
        r.total_partitions == metadata.partitions@.len(),
        r.total_operations == total_operations,
        r.total_size_bytes == total_bytes(metadata.partitions@),
        r.total_size_readable@ == size_text(total_bytes(metadata.partitions@)),
        r.security_patch_level == metadata.security_patch_level,
        r.total_size_bytes == listed_bytes(r.partitions@),
{
    let mut partitions: Vec<PartitionInfo> = Vec::new();
    let mut i: usize = 0;
    while i < metadata.partitions.len()
        invariant
            i <= metadata.partitions@.len(),
            partitions@.len() == i,
            forall|k: int| 0 <= k < i ==> summarizes_partition(#[trigger] partitions@[k], metadata.partitions@[k]),
        decreases metadata.partitions@.len() - i,
    {
        partitions.push(partition_info(&metadata.partitions[i]));
        i = i + 1;
    }
    let total = match total_size(&metadata.partitions) {
        Some(t) => t,
        None => 0,
    };
    let n = partitions.len();
    let summary = PayloadSummary {
        partitions,
        total_partitions: n,
        total_operations,
        total_size_bytes: total,
        total_size_readable: format_size(total),
        security_patch_level: copy_opt_string(&metadata.security_patch_level),
    };
    proof {
        law_summary_sizes(*metadata, summary);
    }
    summary
}

/// Sum of the sizes a partition listing reports.
pub open spec fn listed_bytes(parts: Seq<PartitionInfo>) -> nat
    decreases parts.len(),
{
    if parts.len() == 0 {
        0
    } else {
        listed_bytes(parts.drop_last()) + parts.last().size_bytes as nat
    }
}

proof fn lemma_listed_bytes_match(listed: Seq<PartitionInfo>, parts: Seq<PartitionMetadata>)
    requires
        listed.len() == parts.len(),
        forall|i: int| 0 <= i < listed.len() ==> (#[trigger] listed[i]).size_bytes == parts[i].size_in_bytes,
    ensures
        listed_bytes(listed) == total_bytes(parts),
    decreases listed.len(),
{
    if listed.len() > 0 {
        let l2 = listed.drop_last();
        let p2 = parts.drop_last();
        assert forall|i: int| 0 <= i < l2.len() implies (#[trigger] l2[i]).size_bytes == p2[i].size_in_bytes by {
            assert(l2[i] == listed[i]);
            assert(p2[i] == parts[i]);
        }
        lemma_listed_bytes_match(l2, p2);
        assert(listed.last() == listed[listed.len() - 1]);
    }
}

/// A summary reports each partition's image size in bytes, as the metadata
/// records it, and a total that is the sum of the sizes it reports.
pub proof fn law_summary_sizes(metadata: PayloadMetadata, r: PayloadSummary)
    requires
        r.partitions@.len() == metadata.partitions@.len(),
        forall|i: int|
            0 <= i < r.partitions@.len() ==> summarizes_partition(#[trigger] r.partitions@[i], metadata.partitions@[i]),
        r.total_size_bytes == total_bytes(metadata.partitions@),
    ensures
        forall|i: int|
            0 <= i < r.partitions@.len() ==> (#[trigger] r.partitions@[i]).size_bytes
                == metadata.partitions@[i].size_in_bytes,
        r.total_size_bytes == listed_bytes(r.partitions@),
{
    assert forall|i: int| 0 <= i < r.partitions@.len() implies (#[trigger] r.partitions@[i]).size_bytes
        == metadata.partitions@[i].size_in_bytes by {
        assert(summarizes_partition(r.partitions@[i], metadata.partitions@[i]));
    }
    lemma_listed_bytes_match(r.partitions@, metadata.partitions@);
}

} // verus!
