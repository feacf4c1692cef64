//! Extracting a partition as a stream: what to do for each operation while
//! the caller reads the payload and writes the image, and what a partition
//! needs before its operations run.
use vstd::prelude::*;
use crate::payload_dumper::{ext_len, ext_start, opt_or_zero};
use crate::structs::{spec_operation_type, Extent, InstallOperation, OperationType, PartitionUpdate};
use crate::codecs::{bz2_stream, stream_bz2, stream_xz, stream_zstd, xz_stream, zstd_stream};
use crate::diff::spec_diff_plan;
use crate::text::push_str;

verus! {

/// Receives extraction progress; implemented by callers.
pub trait ProgressReporter {
    /// Called when the extraction of a partition starts.
    fn on_start(&self, partition_name: &str, total_operations: u64);

    /// Called after each operation.
    fn on_progress(&self, partition_name: &str, current_op: u64, total_ops: u64);

    /// Called when a partition has been extracted.
    fn on_complete(&self, partition_name: &str, total_operations: u64);

    /// Called when an operation is skipped.
    fn on_warning(&self, partition_name: &str, operation_index: usize, message: String);

    /// Whether the caller asked to stop; never, unless the implementor says so.
    fn is_cancelled(&self) -> (r: bool)
        default_ensures
            !r,
    {
        false
    }
}

/// A reporter that ignores every event.
pub struct NoOpReporter;

impl ProgressReporter for NoOpReporter {
    fn on_start(&self, partition_name: &str, total_operations: u64) {
    }

    fn on_progress(&self, partition_name: &str, current_op: u64, total_ops: u64) {
    }

    fn on_complete(&self, partition_name: &str, total_operations: u64) {
    }

    fn on_warning(&self, partition_name: &str, operation_index: usize, message: String) {
    }
}

// ---------------------------------------------------------------------------
// Kinds of operations

/// Operations that need the old image of the partition.
pub open spec fn spec_is_diff_operation(k: OperationType) -> bool {
    k == OperationType::SourceCopy || k == OperationType::SourceBsdiff || k == OperationType::BrotliBsdiff
        || k == OperationType::Lz4diffBsdiff || k == OperationType::Lz4diffPuffdiff || k
        == OperationType::Puffdiff || k == OperationType::Zucchini
}

/// Whether an operation of this kind needs the old image of the partition.
pub fn is_diff_operation(k: OperationType) -> (r: bool)
    ensures
        r == spec_is_diff_operation(k),
{
    match k {
        OperationType::SourceCopy | OperationType::SourceBsdiff | OperationType::BrotliBsdiff
        | OperationType::Lz4diffBsdiff | OperationType::Lz4diffPuffdiff | OperationType::Puffdiff
        | OperationType::Zucchini => true,
        _ => false,
    }
}

// ---------------------------------------------------------------------------
// One operation

/// How the data of an operation is decoded before it is written.
#[derive(Debug, Clone, Copy, PartialEq, Eq, Structural)]
pub enum Codec {
    Raw,
    Xz,
    Bz2,
    Zstd,
}

/// What decoding an operation's data stored with `codec` yields as it
/// streams into the image: the bytes produced (those before the decoder's
/// error, when it reports one) and whether decoding finished without error.
pub open spec fn codec_stream(codec: Codec, data: Seq<u8>) -> (Seq<u8>, bool) {
    match codec {
        Codec::Raw => (data, true),
        Codec::Xz => xz_stream(data),
        Codec::Bz2 => bz2_stream(data),
        Codec::Zstd => zstd_stream(data),
    }
}

/// Decodes an operation's data stored with `codec`: the bytes to write, and
/// whether decoding finished without error (when it did not, the bytes are
/// those produced before the error, and are written all the same).
pub fn decode_with(codec: Codec, data: &[u8]) -> (r: (Vec<u8>, bool))
    ensures
        (r.0@, r.1) == codec_stream(codec, data@),
{
    match codec {
        Codec::Raw => (vstd::slice::slice_to_vec(data), true),
        Codec::Xz => stream_xz(data),
        Codec::Bz2 => stream_bz2(data),
        Codec::Zstd => stream_zstd(data),
    }
}

/// Why an operation is skipped.
#[derive(Debug, Clone, Copy, PartialEq, Eq, Structural)]
pub enum StreamWarning {
    MultiExtentZstd,
    UnknownOperation,
}

pub open spec fn warning_text(w: StreamWarning) -> Seq<char> {
    match w {
        StreamWarning::MultiExtentZstd => "Multi-extent Zstd not supported"@,
        StreamWarning::UnknownOperation => "Unknown operation type"@,
    }
}

impl StreamWarning {
    /// The message handed to the reporter.
    pub fn message(&self) -> (r: String)
        ensures
            r@ == warning_text(*self),
    {
        let mut s = String::new();
        match self {
            StreamWarning::MultiExtentZstd => push_str(&mut s, "Multi-extent Zstd not supported"),
            StreamWarning::UnknownOperation => push_str(&mut s, "Unknown operation type"),
        }
        s
    }
}

/// A run of the image that is left as a hole (reads as zeros).
#[derive(Debug, Clone, Copy, PartialEq, Eq, Structural)]
pub struct HoleRegion {
    pub start: u64,
    pub len: u64,
}

/// What to do for one operation.
#[derive(Debug, Clone)]
pub enum StreamStep {
    /// Read `length` bytes at payload offset `offset`, decode them with
    /// `codec` and write the result at image position `target`, seeking there
    /// first when `seek` holds; the position afterwards is `target` plus the
    /// bytes written.
    Write { offset: u64, length: u64, codec: Codec, target: u64, seek: bool },
    /// Leave the regions as holes; the position afterwards is `end_pos`.
    Holes { regions: Vec<HoleRegion>, end_pos: u64 },
    /// Apply the differential operation against the old image.
    Diff,
    /// Skip the operation with a warning, after opening its data when
    /// `opens_data` holds.
    Skip { warning: StreamWarning, opens_data: bool, offset: u64, length: u64 },
}

/// A fatal problem with an operation.
#[derive(Debug, Clone, Copy, PartialEq, Eq, Structural)]
pub enum StreamError {
    /// A differential operation was met without an old image to apply it to.
    SourceRequired { operation_index: usize },
}

/// Absolute payload offset of the operation's data.
pub open spec fn stream_offset(op: InstallOperation, data_offset: u64) -> int {
    data_offset + opt_or_zero(op.data_offset)
}

/// Nothing the step computes leaves 64-bit range.
pub open spec fn stream_fits(op: InstallOperation, data_offset: u64, bs: u64) -> bool {
    let k = spec_operation_type(op.op_type);
    let dst = op.dst_extents@;
    &&& stream_offset(op, data_offset) <= u64::MAX
    &&& (k == OperationType::Replace || k == OperationType::ReplaceXz || k == OperationType::ReplaceBz)
        ==> dst.len() > 0 && ext_start(dst[0], bs) <= u64::MAX
    &&& (k == OperationType::Zstd && dst.len() == 1) ==> ext_start(dst[0], bs) <= u64::MAX
    &&& k == OperationType::Zero ==> forall|i: int|
        0 <= i < dst.len() ==> ext_start(#[trigger] dst[i], bs) <= u64::MAX && ext_len(dst[i], bs)
            <= u64::MAX && ext_start(dst[i], bs) + ext_len(dst[i], bs) <= u64::MAX
}

/// A write of the operation's data through `codec` at its first extent.
pub open spec fn write_step(s: StreamStep, op: InstallOperation, data_offset: u64, bs: u64, pos: u64, codec: Codec) -> bool {
    let target = ext_start(op.dst_extents@[0], bs);
    match s {
        StreamStep::Write { offset, length, codec: c, target: t, seek } => offset == stream_offset(
            op,
            data_offset,
        ) && length == opt_or_zero(op.data_length) && c == codec && t == target && seek == (pos
            != target),
        _ => false,
    }
}

/// Holes over the extents, ending the position after the last one.
pub open spec fn holes_step(s: StreamStep, dst: Seq<Extent>, bs: u64, pos: u64) -> bool {
    match s {
        StreamStep::Holes { regions, end_pos } => {
            &&& regions@.len() == dst.len()
            &&& forall|i: int|
                0 <= i < dst.len() ==> (#[trigger] regions@[i]).start == ext_start(dst[i], bs)
                    && regions@[i].len == ext_len(dst[i], bs)
            &&& end_pos == if dst.len() == 0 {
                pos as int
            } else {
                ext_start(dst.last(), bs) + ext_len(dst.last(), bs)
            }
        },
        _ => false,
    }
}

/// The step for operation number `index`, with the image position at `pos`.
pub open spec fn is_stream_step(r: Result<StreamStep, StreamError>, index: usize, op: InstallOperation, data_offset: u64, bs: u64, pos: u64, has_source: bool) -> bool {
    let k = spec_operation_type(op.op_type);
    let dst = op.dst_extents@;
    if k == OperationType::Replace {
        r is Ok && write_step(r->Ok_0, op, data_offset, bs, pos, Codec::Raw)
    } else if k == OperationType::ReplaceXz {
        r is Ok && write_step(r->Ok_0, op, data_offset, bs, pos, Codec::Xz)
    } else if k == OperationType::ReplaceBz {
        r is Ok && write_step(r->Ok_0, op, data_offset, bs, pos, Codec::Bz2)
    } else if k == OperationType::Zstd {
        if dst.len() == 1 {
            r is Ok && write_step(r->Ok_0, op, data_offset, bs, pos, Codec::Zstd)
        } else {
            match r {
                Ok(StreamStep::Skip { warning, opens_data, offset, length }) => warning
                    == StreamWarning::MultiExtentZstd && opens_data && offset == stream_offset(op, data_offset)
                    && length == opt_or_zero(op.data_length),
                _ => false,
            }
        }
    } else if k == OperationType::Zero {
        match r {
            Ok(step) => holes_step(step, dst, bs, pos),
            _ => false,
        }
    } else if spec_is_diff_operation(k) {
        if has_source {
            r == Ok::<StreamStep, StreamError>(StreamStep::Diff)
        } else {
            r == Err::<StreamStep, StreamError>(StreamError::SourceRequired { operation_index: index })
        }
    } else {
        match r {
            Ok(StreamStep::Skip { warning, opens_data, .. }) => warning == StreamWarning::UnknownOperation
                && !opens_data,
            _ => false,
        }
    }
}

fn extent_start(e: &Extent, bs: u64) -> (r: u64)
    requires
        ext_start(*e, bs) <= u64::MAX,
    ensures
        r == ext_start(*e, bs),
{
    let s: u64 = match e.start_block {
        Some(v) => v,
        None => 0,
    };
    s * bs
}

fn extent_len(e: &Extent, bs: u64) -> (r: u64)
    requires
        ext_len(*e, bs) <= u64::MAX,
    ensures
        r == ext_len(*e, bs),
{
    let n: u64 = match e.num_blocks {
        Some(v) => v,
        None => 0,
    };
    n * bs
}

fn write_to_first(op: &InstallOperation, data_offset: u64, bs: u64, pos: u64, codec: Codec) -> (r: StreamStep)
    requires
        op.dst_extents@.len() > 0,
        ext_start(op.dst_extents@[0], bs) <= u64::MAX,
        stream_offset(*op, data_offset) <= u64::MAX,
    ensures
        write_step(r, *op, data_offset, bs, pos, codec),
{
    let extra: u64 = match op.data_offset {
        Some(v) => v,
        None => 0,
    };
    let length: u64 = match op.data_length {
        Some(v) => v,
        None => 0,
    };
    let target = extent_start(&op.dst_extents[0], bs);
    StreamStep::Write { offset: data_offset + extra, length, codec, target, seek: pos != target }
}

fn hole_regions(exts: &Vec<Extent>, bs: u64, pos: u64) -> (r: StreamStep)
    requires
        forall|i: int|
            0 <= i < exts@.len() ==> ext_start(#[trigger] exts@[i], bs) <= u64::MAX && ext_len(exts@[i], bs)
                <= u64::MAX && ext_start(exts@[i], bs) + ext_len(exts@[i], bs) <= u64::MAX,
    ensures
        holes_step(r, exts@, bs, pos),
{
    let mut regions: Vec<HoleRegion> = Vec::new();
    let mut end_pos = pos;
    let mut i: usize = 0;
    while i < exts.len()
        invariant
            i <= exts@.len(),
            regions@.len() == i,
            forall|j: int|
                0 <= j < exts@.len() ==> ext_start(#[trigger] exts@[j], bs) <= u64::MAX && ext_len(exts@[j], bs)
                    <= u64::MAX && ext_start(exts@[j], bs) + ext_len(exts@[j], bs) <= u64::MAX,
            forall|j: int|
                0 <= j < i ==> (#[trigger] regions@[j]).start == ext_start(exts@[j], bs) && regions@[j].len
                    == ext_len(exts@[j], bs),
            end_pos == if i == 0 {
                pos as int
            } else {
                ext_start(exts@[i - 1], bs) + ext_len(exts@[i - 1], bs)
            },
        decreases exts@.len() - i,
    {
        let start = extent_start(&exts[i], bs);
        let len = extent_len(&exts[i], bs);
        regions.push(HoleRegion { start, len });
        end_pos = start + len;
        i = i + 1;
    }
    StreamStep::Holes { regions, end_pos }
}

/// Whether `stream_fits` holds, as `plan_stream_step` needs.
pub fn stream_step_fits(op: &InstallOperation, data_offset: u64, block_size: u64) -> (r: bool)
    ensures
        r == stream_fits(*op, data_offset, block_size),
{
    let extra: u64 = match op.data_offset {
        Some(v) => v,
        None => 0,
    };
    if data_offset.checked_add(extra).is_none() {
        return false;
    }
    let dst = &op.dst_extents;
    match op.kind() {
        OperationType::Replace | OperationType::ReplaceXz | OperationType::ReplaceBz => {
            dst.len() > 0 && start_fits(&dst[0], block_size)
        },
        OperationType::Zstd => dst.len() != 1 || start_fits(&dst[0], block_size),
        OperationType::Zero => {
            let mut i: usize = 0;
            while i < dst.len()
                invariant
                    i <= dst@.len(),
                    dst@ == op.dst_extents@,
                    spec_operation_type(op.op_type) == OperationType::Zero,
                    forall|j: int|
                        0 <= j < i ==> ext_start(#[trigger] dst@[j], block_size) <= u64::MAX && ext_len(dst@[j], block_size)
                            <= u64::MAX && ext_start(dst@[j], block_size) + ext_len(dst@[j], block_size) <= u64::MAX,
                decreases dst@.len() - i,
            {
                let s: u64 = match dst[i].start_block {
                    Some(v) => v,
                    None => 0,
                };
                let n: u64 = match dst[i].num_blocks {
                    Some(v) => v,
                    None => 0,
                };
                let ok = match (s.checked_mul(block_size), n.checked_mul(block_size)) {
                    (Some(a), Some(b)) => a.checked_add(b).is_some(),
                    _ => false,
                };
                if !ok {
                    proof {
                        assert(s * block_size >= 0 && n * block_size >= 0) by (nonlinear_arith);
                    }
                    assert(!(ext_start(dst@[i as int], block_size) <= u64::MAX && ext_len(dst@[i as int], block_size)
                        <= u64::MAX && ext_start(dst@[i as int], block_size) + ext_len(dst@[i as int], block_size)
                        <= u64::MAX));
                    assert(!(forall|j: int|
                        0 <= j < op.dst_extents@.len() ==> ext_start(#[trigger] op.dst_extents@[j], block_size) <= u64::MAX
                            && ext_len(op.dst_extents@[j], block_size) <= u64::MAX && ext_start(op.dst_extents@[j], block_size)
                            + ext_len(op.dst_extents@[j], block_size) <= u64::MAX));
                    return false;
                }
                i = i + 1;
            }
            true
        },
        _ => true,
    }
}

fn start_fits(e: &Extent, bs: u64) -> (r: bool)
    ensures
        r == (ext_start(*e, bs) <= u64::MAX),
{
    let s: u64 = match e.start_block {
        Some(v) => v,
        None => 0,
    };
    s.checked_mul(bs).is_some()
}

/// Decides what to do for operation number `operation_index` while
/// extracting a partition, with the image's write position at `current_pos`
/// and `has_source` telling whether an old image is at hand.
pub fn plan_stream_step(
    operation_index: usize,
    op: &InstallOperation,
    data_offset: u64,
    block_size: u64,
    current_pos: u64,
    has_source: bool,
) -> (r: Result<StreamStep, StreamError>)
    requires
        stream_fits(*op, data_offset, block_size),
    ensures
        is_stream_step(r, operation_index, *op, data_offset, block_size, current_pos, has_source),
{
    let k = op.kind();
    match k {
        OperationType::Replace => Ok(write_to_first(op, data_offset, block_size, current_pos, Codec::Raw)),
        OperationType::ReplaceXz => Ok(write_to_first(op, data_offset, block_size, current_pos, Codec::Xz)),
        OperationType::ReplaceBz => Ok(write_to_first(op, data_offset, block_size, current_pos, Codec::Bz2)),
        OperationType::Zstd => {
            if op.dst_extents.len() == 1 {
                Ok(write_to_first(op, data_offset, block_size, current_pos, Codec::Zstd))
            } else {
                let extra: u64 = match op.data_offset {
                    Some(v) => v,
                    None => 0,
                };
                let length: u64 = match op.data_length {
                    Some(v) => v,
                    None => 0,
                };
                Ok(StreamStep::Skip {
                    warning: StreamWarning::MultiExtentZstd,
                    opens_data: true,
                    offset: data_offset + extra,
                    length,
                })
            }
        },
        OperationType::Zero => Ok(hole_regions(&op.dst_extents, block_size, current_pos)),
        OperationType::SourceCopy | OperationType::SourceBsdiff | OperationType::BrotliBsdiff
        | OperationType::Lz4diffBsdiff | OperationType::Lz4diffPuffdiff | OperationType::Puffdiff
        | OperationType::Zucchini => {
            if has_source {
                Ok(StreamStep::Diff)
            } else {
                Err(StreamError::SourceRequired { operation_index })
            }
        },
        _ => Ok(StreamStep::Skip { warning: StreamWarning::UnknownOperation, opens_data: false, offset: 0, length: 0 }),
    }
}

/// How a run of zeros is written without holes: `full_chunks` whole chunks
/// and then `remainder` more bytes.
#[derive(Debug, Clone, Copy, PartialEq, Eq, Structural)]
pub struct ZeroWrites {
    pub full_chunks: u64,
    pub remainder: usize,
}

/// Splits `total_bytes` zeros into writes of a `chunk_len`-byte buffer.
pub fn zero_write_plan(total_bytes: u64, chunk_len: usize) -> (r: ZeroWrites)
    requires
        chunk_len > 0,
    ensures
        r.full_chunks * chunk_len + r.remainder == total_bytes,
        r.remainder < chunk_len,
{
    let c = chunk_len as u64;
    let full = total_bytes / c;
    let rem = total_bytes % c;
    proof {
        assert(full * c + rem == total_bytes) by (nonlinear_arith)
            requires full == total_bytes / c, rem == total_bytes % c, c > 0;
    }
    ZeroWrites { full_chunks: full, remainder: rem as usize }
}

// ---------------------------------------------------------------------------
// A whole partition

/// Why a partition cannot be extracted.
#[derive(Debug, Clone, Copy, PartialEq, Eq, Structural)]
pub enum DumpError {
    /// The partition has differential operations and no old images were given.
    SourceDirMissing,
    /// The partition's new image is described without a size.
    SizeMissing,
}

/// What a partition needs before its operations run.
#[derive(Debug, Clone, Copy, PartialEq, Eq, Structural)]
pub struct DumpSetup {
    /// The old image of the partition must be opened.
    pub uses_source: bool,
    /// The size the image file is set to, when the manifest describes it.
    pub image_size: Option<u64>,
}

/// Some operation of the partition needs the old image.
pub open spec fn has_diff_ops(p: PartitionUpdate) -> bool {
    exists|j: int| 0 <= j < p.operations@.len() && #[trigger] spec_is_diff_operation(spec_operation_type(p.operations@[j].op_type))
}

/// Decides what extracting a partition needs: the old image when an operation
/// is differential (an error when no directory of old images was given), and
/// the size of the new image when the manifest describes it (an error when
/// the description has no size).
pub fn plan_dump(partition: &PartitionUpdate, has_source_dir: bool) -> (r: Result<DumpSetup, DumpError>)
    ensures
        has_diff_ops(*partition) && !has_source_dir ==> r == Err::<DumpSetup, DumpError>(DumpError::SourceDirMissing),
        !(has_diff_ops(*partition) && !has_source_dir) ==> match partition.new_partition_info {
            Some(info) => match info.size {
                Some(s) => r == Ok::<DumpSetup, DumpError>(DumpSetup { uses_source: has_diff_ops(*partition), image_size: Some(s) }),
                None => r == Err::<DumpSetup, DumpError>(DumpError::SizeMissing),
            },
            None => r == Ok::<DumpSetup, DumpError>(DumpSetup { uses_source: has_diff_ops(*partition), image_size: None }),
        },
{
    let mut diff = false;
    let mut j: usize = 0;
    while j < partition.operations.len()
        invariant
            j <= partition.operations@.len(),
            diff <==> exists|i: int| 0 <= i < j && #[trigger] spec_is_diff_operation(spec_operation_type(partition.operations@[i].op_type)),
        decreases partition.operations@.len() - j,
    {
        if is_diff_operation(partition.operations[j].kind()) {
            diff = true;
        }
        j = j + 1;
    }
    if diff && !has_source_dir {
        return Err(DumpError::SourceDirMissing);
    }
    match &partition.new_partition_info {
        Some(info) => match info.size {
            Some(s) => Ok(DumpSetup { uses_source: diff, image_size: Some(s) }),
            None => Err(DumpError::SizeMissing),
        },
        None => Ok(DumpSetup { uses_source: diff, image_size: None }),
    }
}

/// Every operation the differential planner knows how to apply (a source
/// copy, a bsdiff patch stored plain, brotli- or LZ4-compressed, or a
/// PUFFDIFF patch) is one the stream planner hands over to it: with an old
/// image it is planned as a differential step, without one it is refused
/// as needing the old image; it is never skipped or written from the
/// payload.
pub proof fn law_diff_operations_reach_the_diff_planner(
    r: Result<StreamStep, StreamError>,
    index: usize,
    op: InstallOperation,
    data_offset: u64,
    bs: u64,
    pos: u64,
    has_source: bool,
)
    requires
        spec_diff_plan(op, data_offset) is Ok,
        is_stream_step(r, index, op, data_offset, bs, pos, has_source),
    ensures
        spec_is_diff_operation(spec_operation_type(op.op_type)),
        has_source ==> r == Ok::<StreamStep, StreamError>(StreamStep::Diff),
        !has_source ==> r == Err::<StreamStep, StreamError>(StreamError::SourceRequired { operation_index: index }),
{
}

/// The codec a stream step decodes a full operation with is the one its
/// kind is stored with: the data of a REPLACE operation is written as it
/// is, that of REPLACE_XZ goes through the XZ decoder, that of REPLACE_BZ
/// through the bzip2 decoder and that of a single-extent ZSTD operation
/// through the Zstd decoder.
pub proof fn law_write_steps_decode_with_their_kind(
    r: Result<StreamStep, StreamError>,
    index: usize,
    op: InstallOperation,
    data_offset: u64,
    bs: u64,
    pos: u64,
    has_source: bool,
    data: Seq<u8>,
)
    requires
        is_stream_step(r, index, op, data_offset, bs, pos, has_source),
    ensures
        spec_operation_type(op.op_type) == OperationType::Replace ==> (r matches Ok(
            StreamStep::Write { codec, .. },
        ) && codec_stream(codec, data) == (data, true)),
        spec_operation_type(op.op_type) == OperationType::ReplaceXz ==> (r matches Ok(
            StreamStep::Write { codec, .. },
        ) && codec_stream(codec, data) == xz_stream(data)),
        spec_operation_type(op.op_type) == OperationType::ReplaceBz ==> (r matches Ok(
            StreamStep::Write { codec, .. },
        ) && codec_stream(codec, data) == bz2_stream(data)),
        spec_operation_type(op.op_type) == OperationType::Zstd && op.dst_extents@.len() == 1 ==> (r matches Ok(
            StreamStep::Write { codec, .. },
        ) && codec_stream(codec, data) == zstd_stream(data)),
{
}

} // verus!
