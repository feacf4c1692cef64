//! Fetching only the part of a remote payload that one partition needs: the
//! byte range its operations read, the chunks it is downloaded in, and the
//! translation of payload offsets into the downloaded copy.
use vstd::prelude::*;
use crate::structs::{InstallOperation, PartitionUpdate};

verus! {

#[verifier::external_type_specification]
#[verifier::external_body]
pub struct ExPathBuf(std::path::PathBuf);

/// Where a partition's data lies in the payload and in the archive.
#[derive(Debug, Clone)]
pub struct PartitionExtractionConfig {
    pub data_offset: u64,
    pub block_size: u64,
    pub payload_offset: u64,
}

/// Files used while extracting one partition.
pub struct ExtractionPaths {
    pub temp_path: std::path::PathBuf,
    pub output_path: std::path::PathBuf,
}

/// The span of payload bytes a partition's operations read.
#[derive(Debug, Clone)]
pub struct PartitionDataRange {
    pub min_offset: u64,
    pub total_bytes: u64,
}

/// Receives download progress.
pub trait DownloadProgressReporter {
    /// Called when a download starts.
    fn on_download_start(&self, partition_name: &str, total_bytes: u64);

    /// Called after each downloaded chunk.
    fn on_download_progress(&self, partition_name: &str, downloaded: u64, total: u64);

    /// Called when a download completes.
    fn on_download_complete(&self, partition_name: &str, total_bytes: u64);
}

/// A reporter that ignores every event.
pub struct NoOpDownloadReporter;

impl DownloadProgressReporter for NoOpDownloadReporter {
    fn on_download_start(&self, partition_name: &str, total_bytes: u64) {
    }

    fn on_download_progress(&self, partition_name: &str, downloaded: u64, total: u64) {
    }

    fn on_download_complete(&self, partition_name: &str, total_bytes: u64) {
    }
}

// ---------------------------------------------------------------------------
// The data range of a partition

/// The operation reads a nonempty run of payload data.
pub open spec fn reads_data(op: InstallOperation) -> bool {
    op.data_offset is Some && op.data_length is Some && op.data_length.unwrap() > 0
}

/// Absolute offset where the operation's data starts.
pub open spec fn data_start(op: InstallOperation, base: u64) -> int {
    base + op.data_offset.unwrap()
}

/// Absolute offset just past the operation's data.
pub open spec fn data_end(op: InstallOperation, base: u64) -> int {
    base + op.data_offset.unwrap() + op.data_length.unwrap()
}

/// Every operation's data ends within 64-bit offsets.
pub open spec fn range_fits(ops: Seq<InstallOperation>, base: u64) -> bool {
    forall|j: int| 0 <= j < ops.len() && reads_data(#[trigger] ops[j]) ==> data_end(ops[j], base) <= u64::MAX
}

/// Whether the operations' data ends within 64-bit offsets, as
/// `calculate_partition_range` needs.
pub fn partition_range_fits(partition: &PartitionUpdate, data_offset: u64) -> (r: bool)
    ensures
        r == range_fits(partition.operations@, data_offset),
{
    let ops = &partition.operations;
    let mut i: usize = 0;
    while i < ops.len()
        invariant
            i <= ops@.len(),
            ops@ == partition.operations@,
            forall|j: int| 0 <= j < i && reads_data(#[trigger] ops@[j]) ==> data_end(ops@[j], data_offset) <= u64::MAX,
        decreases ops@.len() - i,
    {
        match (ops[i].data_offset, ops[i].data_length) {
            (Some(offset), Some(length)) => {
                if length > 0 {
                    match data_offset.checked_add(offset) {
                        None => {
                            assert(reads_data(partition.operations@[i as int]) && data_end(partition.operations@[i as int], data_offset) > u64::MAX);
                            assert(!range_fits(partition.operations@, data_offset));
                            return false;
                        },
                        Some(a) => {
                            if a.checked_add(length).is_none() {
                                assert(reads_data(partition.operations@[i as int]) && data_end(partition.operations@[i as int], data_offset) > u64::MAX);
                            assert(!range_fits(partition.operations@, data_offset));
                                return false;
                            }
                        },
                    }
                }
            },
            _ => {},
        }
        i = i + 1;
    }
    true
}

/// `r` is the smallest span holding the data of every operation that reads
/// data: it starts where the earliest data starts and ends where the last
/// data ends.
pub open spec fn is_data_range(r: PartitionDataRange, ops: Seq<InstallOperation>, base: u64) -> bool {
    &&& forall|j: int|
        0 <= j < ops.len() && reads_data(#[trigger] ops[j]) ==> r.min_offset <= data_start(ops[j], base)
            && data_end(ops[j], base) <= r.min_offset + r.total_bytes
    &&& exists|j: int| 0 <= j < ops.len() && reads_data(#[trigger] ops[j]) && data_start(ops[j], base) == r.min_offset
    &&& exists|j: int|
        0 <= j < ops.len() && reads_data(#[trigger] ops[j]) && data_end(ops[j], base) == r.min_offset
            + r.total_bytes
}

/// The span of payload bytes the partition's operations read, with offsets
/// counted from the start of the payload; `None` when no operation reads data.
pub fn calculate_partition_range(partition: &PartitionUpdate, data_offset: u64) -> (r: Option<PartitionDataRange>)
    requires
        range_fits(partition.operations@, data_offset),
    ensures
        r is None <==> forall|j: int| 0 <= j < partition.operations@.len() ==> !reads_data(#[trigger] partition.operations@[j]),
        r is Some ==> is_data_range(r.unwrap(), partition.operations@, data_offset),
{
    let ops = &partition.operations;
    let mut min_offset: u64 = u64::MAX;
    let mut max_offset: u64 = 0;
    let mut found = false;
    let ghost mut min_at: int = 0;
    let ghost mut max_at: int = 0;
    let mut i: usize = 0;
    while i < ops.len()
        invariant
            i <= ops@.len(),
            range_fits(ops@, data_offset),
            found <==> exists|j: int| 0 <= j < i && reads_data(#[trigger] ops@[j]),
            forall|j: int|
                0 <= j < i && reads_data(#[trigger] ops@[j]) ==> min_offset <= data_start(ops@[j], data_offset)
                    && data_end(ops@[j], data_offset) <= max_offset,
            found ==> 0 <= min_at < i && reads_data(ops@[min_at]) && data_start(ops@[min_at], data_offset) == min_offset,
            found ==> 0 <= max_at < i && reads_data(ops@[max_at]) && data_end(ops@[max_at], data_offset) == max_offset,
            found ==> min_offset <= max_offset,
        decreases ops@.len() - i,
    {
        let op = &ops[i];
        match (op.data_offset, op.data_length) {
            (Some(offset), Some(length)) => {
                if length > 0 {
                    assert(reads_data(ops@[i as int]));
                    let abs_offset = data_offset + offset;
                    let end_offset = abs_offset + length;
                    if !found || abs_offset < min_offset {
                        min_offset = abs_offset;
                        proof { min_at = i as int; }
                    }
                    if !found || end_offset > max_offset {
                        max_offset = end_offset;
                        proof { max_at = i as int; }
                    }
                    found = true;
                }
            },
            _ => {},
        }
        i = i + 1;
    }
    if !found {
        return None;
    }
    let r = PartitionDataRange { min_offset, total_bytes: max_offset - min_offset };
    assert(reads_data(ops@[min_at]) && data_start(ops@[min_at], data_offset) == r.min_offset);
    assert(reads_data(ops@[max_at]) && data_end(ops@[max_at], data_offset) == r.min_offset + r.total_bytes);
    Some(r)
}

// ---------------------------------------------------------------------------
// Downloading a range in chunks

/// Size of the chunks a range is downloaded in.
pub const DOWNLOAD_CHUNK: u64 = 262144;

/// One request of a download: `length` bytes at `offset` in the archive.
#[derive(Debug, Clone, Copy, PartialEq, Eq, Structural)]
pub struct DownloadChunk {
    pub offset: u64,
    pub length: u64,
}

/// The number of chunks a download of `total` bytes takes.
pub open spec fn chunk_count(total: nat) -> nat {
    (total + DOWNLOAD_CHUNK - 1) as nat / (DOWNLOAD_CHUNK as nat)
}

/// `chunks` fetch the `total` bytes at `start`: full chunks in order, and a
/// shorter last one for what remains.
pub open spec fn is_download_plan(chunks: Seq<DownloadChunk>, start: int, total: int) -> bool {
    &&& chunks.len() == chunk_count(total as nat)
    &&& forall|i: int|
        0 <= i < chunks.len() ==> (#[trigger] chunks[i]).offset == start + i * DOWNLOAD_CHUNK
            && chunks[i].length == if total - i * DOWNLOAD_CHUNK < DOWNLOAD_CHUNK {
                total - i * DOWNLOAD_CHUNK
            } else {
                DOWNLOAD_CHUNK as int
            }
}

/// The chunks that fetch a partition's range from an archive whose payload
/// starts at `payload_offset`.
pub fn download_plan(range: &PartitionDataRange, payload_offset: u64) -> (r: Vec<DownloadChunk>)
    requires
        range.min_offset + payload_offset + range.total_bytes <= u64::MAX,
    ensures
        is_download_plan(r@, range.min_offset + payload_offset, range.total_bytes as int),
{
    let total = range.total_bytes;
    let start = range.min_offset + payload_offset;
    let mut chunks: Vec<DownloadChunk> = Vec::new();
    let mut downloaded: u64 = 0;
    while downloaded < total
        invariant
            downloaded <= total,
            total == range.total_bytes,
            start == range.min_offset + payload_offset,
            start + total <= u64::MAX,
            downloaded == chunks@.len() * DOWNLOAD_CHUNK || downloaded == total,
            downloaded < total ==> downloaded == chunks@.len() * DOWNLOAD_CHUNK,
            chunks@.len() <= chunk_count(total as nat),
            downloaded == total ==> chunks@.len() == chunk_count(total as nat),
            downloaded < total ==> chunks@.len() < chunk_count(total as nat),
            forall|i: int|
                0 <= i < chunks@.len() ==> (#[trigger] chunks@[i]).offset == start + i * DOWNLOAD_CHUNK
                    && chunks@[i].length == if total - i * DOWNLOAD_CHUNK < DOWNLOAD_CHUNK {
                        total - i * DOWNLOAD_CHUNK
                    } else {
                        DOWNLOAD_CHUNK as int
                    },
        decreases total - downloaded,
    {
        let remaining = total - downloaded;
        let length = if remaining < DOWNLOAD_CHUNK { remaining } else { DOWNLOAD_CHUNK };
        let ghost k = chunks@.len();
        chunks.push(DownloadChunk { offset: start + downloaded, length });
        downloaded = downloaded + length;
        proof {
            let c = chunk_count(total as nat);
            assert(downloaded == k * DOWNLOAD_CHUNK + length);
            if downloaded < total {
                assert(downloaded == (k + 1) * DOWNLOAD_CHUNK);
                assert((k + 1) * DOWNLOAD_CHUNK < total);
                assert(k + 1 < c) by (nonlinear_arith)
                    requires
                        (k + 1) * 262144 < total,
                        c == (total + 262144 - 1) as nat / 262144nat,
                ;
            } else {
                assert(k * 262144 < total);
                assert(total <= (k + 1) * 262144);
                assert(c == k + 1) by (nonlinear_arith)
                    requires
                        k * 262144 < total,
                        total <= (k + 1) * 262144,
                        c == (total + 262144 - 1) as nat / 262144nat,
                ;
            }
        }
    }
    proof {
        if total == 0 {
            assert(chunk_count(0) == 0);
        }
    }
    chunks
}

/// A download plan covers its range exactly: the first chunk starts at the
/// range's start, each chunk starts where the previous one ends, no chunk is
/// empty, and the last one ends at the range's end.
pub proof fn law_download_chunks_cover(chunks: Seq<DownloadChunk>, start: int, total: int)
    requires
        is_download_plan(chunks, start, total),
        total >= 0,
    ensures
        total == 0 <==> chunks.len() == 0,
        chunks.len() > 0 ==> chunks[0].offset == start,
        forall|i: int| 0 <= i < chunks.len() ==> (#[trigger] chunks[i]).length > 0,
        forall|i: int| 0 <= i < chunks.len() - 1 ==> #[trigger] chunks[i].offset + chunks[i].length == chunks[i + 1].offset,
        chunks.len() > 0 ==> chunks.last().offset + chunks.last().length == start + total,
{
    let n = chunks.len() as int;
    let c = chunk_count(total as nat) as int;
    assert(c * 262144 >= total && (c - 1) * 262144 < total || total == 0 && c == 0) by (nonlinear_arith)
        requires
            c == (total + 262144 - 1) / 262144,
            total >= 0,
    ;
    assert forall|i: int| 0 <= i < n implies (#[trigger] chunks[i]).length > 0 by {
        assert(i * 262144 <= (c - 1) * 262144) by (nonlinear_arith)
            requires i <= c - 1;
    }
    assert forall|i: int| 0 <= i < n - 1 implies #[trigger] chunks[i].offset + chunks[i].length == chunks[i + 1].offset by {
        assert(chunks[i + 1].offset == start + (i + 1) * 262144);
        assert((i + 1) * 262144 <= (c - 1) * 262144) by (nonlinear_arith)
            requires i + 1 <= c - 1;
        assert((i + 1) * 262144 == i * 262144 + 262144) by (nonlinear_arith);
    }
    if n > 0 {
        assert(chunks.last() == chunks[n - 1]);
        assert(total - (n - 1) * 262144 <= 262144) by (nonlinear_arith)
            requires c * 262144 >= total, n == c;
    }
}

/// Prefetching downloads what extraction reads: the data of every operation
/// of the partition lies within the downloaded chunks, from the first
/// chunk's start to the last chunk's end, and its place in the downloaded
/// copy is its payload offset less the range's start.
pub proof fn law_prefetch_covers_operation_data(
    r: PartitionDataRange,
    ops: Seq<InstallOperation>,
    base: u64,
    payload_offset: u64,
    chunks: Seq<DownloadChunk>,
    j: int,
)
    requires
        is_data_range(r, ops, base),
        is_download_plan(chunks, r.min_offset + payload_offset, r.total_bytes as int),
        0 <= j < ops.len(),
        reads_data(ops[j]),
    ensures
        chunks.len() > 0,
        chunks[0].offset <= payload_offset + data_start(ops[j], base),
        payload_offset + data_end(ops[j], base) <= chunks.last().offset + chunks.last().length,
        0 <= data_start(ops[j], base) - r.min_offset,
        data_end(ops[j], base) - r.min_offset <= r.total_bytes,
{
    law_download_chunks_cover(chunks, r.min_offset + payload_offset, r.total_bytes as int);
    assert(r.min_offset <= data_start(ops[j], base) && data_end(ops[j], base) <= r.min_offset + r.total_bytes);
    assert(data_start(ops[j], base) < data_end(ops[j], base));
}

// ---------------------------------------------------------------------------
// Reading the downloaded copy

/// A payload offset that lies before the start of the downloaded copy.
#[derive(Debug, Clone, Copy, PartialEq, Eq, Structural)]
pub struct OffsetBeforeBase {
    pub offset: u64,
    pub base: u64,
}

/// Where payload offset `offset` lies in a copy of the payload that starts at
/// payload offset `base`.
pub fn translate_offset(offset: u64, base: u64) -> (r: Result<u64, OffsetBeforeBase>)
    ensures
        offset < base ==> r == Err::<u64, OffsetBeforeBase>(OffsetBeforeBase { offset, base }),
        offset >= base ==> r == Ok::<u64, OffsetBeforeBase>((offset - base) as u64),
{
    if offset < base {
        return Err(OffsetBeforeBase { offset, base });
    }
    Ok(offset - base)
}

} // verus!
