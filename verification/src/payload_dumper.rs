//! Applying install operations: from an operation, the bytes it carries in
//! the payload and (for differential operations) the source image bytes, to
//! the writes that produce the partition image.
use vstd::prelude::*;
use crate::codecs::{
    bsdiff_patched, brotli_decoded, bspatch, bz2_decoded, decode_brotli, decode_bz2,
    decode_lz4_block, decode_xz, decode_zstd, lz4_block_decoded, xz_decoded, zstd_decoded,
};
use crate::structs::{spec_operation_type, Extent, InstallOperation, OperationType};

verus! {

/// The largest file offset a seek can reach (file offsets are signed 64-bit
/// numbers); no image position can lie beyond it.
pub const MAX_IMAGE_BYTES: u64 = 0x7FFF_FFFF_FFFF_FFFF;

pub open spec fn opt_or_zero(x: Option<u64>) -> nat {
    match x {
        Some(v) => v as nat,
        None => 0,
    }
}

/// Byte position where an extent starts.
pub open spec fn ext_start(e: Extent, bs: u64) -> int {
    opt_or_zero(e.start_block) * bs
}

/// Number of bytes an extent covers.
pub open spec fn ext_len(e: Extent, bs: u64) -> int {
    opt_or_zero(e.num_blocks) * bs
}

/// The extent's bytes end within `MAX_IMAGE_BYTES`.
pub open spec fn extent_in_range(e: Extent, bs: u64) -> bool {
    ext_start(e, bs) + ext_len(e, bs) <= MAX_IMAGE_BYTES
}

pub open spec fn extents_in_range(exts: Seq<Extent>, bs: u64) -> bool {
    forall|i: int| 0 <= i < exts.len() ==> extent_in_range(#[trigger] exts[i], bs)
}

pub proof fn lemma_extent_bounds(e: Extent, bs: u64)
    requires
        extent_in_range(e, bs),
    ensures
        0 <= ext_start(e, bs) <= MAX_IMAGE_BYTES,
        0 <= ext_len(e, bs) <= MAX_IMAGE_BYTES,
{
    let s = opt_or_zero(e.start_block);
    let n = opt_or_zero(e.num_blocks);
    assert(s * bs >= 0 && n * bs >= 0) by (nonlinear_arith);
}

/// Checks that an extent's bytes end within `MAX_IMAGE_BYTES`.
pub fn extent_fits(e: &Extent, block_size: u64) -> (r: bool)
    ensures
        r == extent_in_range(*e, block_size),
{
    let s: u64 = match e.start_block {
        Some(v) => v,
        None => 0,
    };
    let n: u64 = match e.num_blocks {
        Some(v) => v,
        None => 0,
    };
    let a = s.checked_mul(block_size);
    let b = n.checked_mul(block_size);
    match (a, b) {
        (Some(x), Some(y)) => x <= MAX_IMAGE_BYTES && y <= MAX_IMAGE_BYTES - x,
        _ => {
            proof {
                if a is None {
                    assert(s * block_size > u64::MAX);
                } else {
                    assert(n * block_size > u64::MAX);
                    assert(s * block_size >= 0) by (nonlinear_arith);
                }
            }
            false
        },
    }
}

/// Checks every extent of a list.
pub fn extents_fit(exts: &Vec<Extent>, block_size: u64) -> (r: bool)
    ensures
        r == extents_in_range(exts@, block_size),
{
    let mut i: usize = 0;
    while i < exts.len()
        invariant
            i <= exts@.len(),
            forall|k: int| 0 <= k < i ==> extent_in_range(#[trigger] exts@[k], block_size),
        decreases exts@.len() - i,
    {
        if !extent_fits(&exts[i], block_size) {
            return false;
        }
        i = i + 1;
    }
    true
}

/// The kinds that write their whole result at the first destination extent.
pub open spec fn writes_at_first_extent(k: OperationType) -> bool {
    k == OperationType::Replace || k == OperationType::ReplaceXz || k == OperationType::ReplaceBz || k
        == OperationType::SourceCopy
}

/// The kinds that lay their result (or zeros) over the destination extents.
pub open spec fn writes_over_extents(k: OperationType) -> bool {
    k == OperationType::Zstd || k == OperationType::SourceBsdiff || k == OperationType::BrotliBsdiff || k
        == OperationType::Lz4diffBsdiff || k == OperationType::Zero
}

/// An operation can be applied: the destination extents its kind writes at
/// lie within the reach of file offsets, which for the kinds that write at
/// the first destination extent means that it exists and lies there; the
/// kinds that are skipped need nothing.
pub open spec fn operation_well_formed(op: InstallOperation, bs: u64) -> bool {
    let k = spec_operation_type(op.op_type);
    &&& writes_at_first_extent(k) ==> op.dst_extents@.len() > 0 && extent_in_range(op.dst_extents@[0], bs)
    &&& writes_over_extents(k) ==> extents_in_range(op.dst_extents@, bs)
}

/// Checks `operation_well_formed`.
pub fn operation_fits(op: &InstallOperation, block_size: u64) -> (r: bool)
    ensures
        r == operation_well_formed(*op, block_size),
{
    match op.kind() {
        OperationType::Replace | OperationType::ReplaceXz | OperationType::ReplaceBz
        | OperationType::SourceCopy => op.dst_extents.len() > 0 && extent_fits(&op.dst_extents[0], block_size),
        OperationType::Zstd | OperationType::SourceBsdiff | OperationType::BrotliBsdiff
        | OperationType::Lz4diffBsdiff | OperationType::Zero => extents_fit(&op.dst_extents, block_size),
        _ => true,
    }
}

/// One write into the partition image.
#[derive(Debug, Clone)]
pub enum WriteChunk {
    /// Write `bytes` at byte position `pos`.
    Data { pos: u64, bytes: Vec<u8> },
    /// The `len` bytes at `pos` are zero.
    Zeros { pos: u64, len: u64 },
}

pub enum WriteView {
    Data(int, Seq<u8>),
    Zeros(int, int),
}

impl View for WriteChunk {
    type V = WriteView;

    open spec fn view(&self) -> WriteView {
        match self {
            WriteChunk::Data { pos, bytes } => WriteView::Data(*pos as int, bytes@),
            WriteChunk::Zeros { pos, len } => WriteView::Zeros(*pos as int, *len as int),
        }
    }
}

pub open spec fn writes_view(w: Seq<WriteChunk>) -> Seq<WriteView> {
    w.map_values(|c: WriteChunk| c@)
}

/// A non-fatal problem: the operation (or its remaining extents) is skipped.
#[derive(Debug, Clone, Copy, PartialEq, Eq, Structural)]
pub enum OperationWarning {
    XzDecode,
    ZstdDecode,
    Bz2Decode,
    BrotliDecode,
    Lz4Decode,
    PatchFailed,
    InsufficientDecompressed,
    InsufficientPatched,
    UnknownOperation,
}

/// A fatal problem with an operation.
#[derive(Debug, Clone, Copy, PartialEq, Eq, Structural)]
pub enum OperationError {
    /// A differential operation was met but no source image was given.
    SourceImageRequired,
}

/// The writes an operation produces and the warning it raised, if any.
pub struct OperationOutput {
    pub writes: Vec<WriteChunk>,
    pub warning: Option<OperationWarning>,
}

/// Cuts `data` from `pos` on into consecutive pieces, one per extent from
/// index `i`, each written at its extent's start; stops (reporting it) at the
/// first extent the remaining data cannot fill.
pub open spec fn split_from(exts: Seq<Extent>, i: int, data: Seq<u8>, bs: u64, pos: int) -> (Seq<WriteView>, bool)
    decreases exts.len() - i,
{
    if i < 0 || i >= exts.len() {
        (Seq::empty(), false)
    } else {
        let end = pos + ext_len(exts[i], bs);
        if end <= data.len() {
            let rest = split_from(exts, i + 1, data, bs, end);
            (seq![WriteView::Data(ext_start(exts[i], bs), data.subrange(pos, end))] + rest.0, rest.1)
        } else {
            (Seq::empty(), true)
        }
    }
}

/// Zero regions, one per extent.
pub open spec fn zero_regions(exts: Seq<Extent>, bs: u64) -> Seq<WriteView> {
    Seq::new(exts.len(), |i: int| WriteView::Zeros(ext_start(exts[i], bs), ext_len(exts[i], bs)))
}

/// Writes of `data` split over `exts`, with the warning raised when the data
/// runs out.
pub open spec fn split_outcome(exts: Seq<Extent>, data: Seq<u8>, bs: u64, short: OperationWarning) -> (Seq<WriteView>, Option<OperationWarning>) {
    let s = split_from(exts, 0, data, bs, 0);
    (s.0, if s.1 { Some(short) } else { None })
}

/// Outcome of a bsdiff patch carried by an operation, once the patch bytes
/// are known.
pub open spec fn patch_outcome(dst: Seq<Extent>, old: Seq<u8>, patch: Seq<u8>, bs: u64) -> (Seq<WriteView>, Option<OperationWarning>) {
    match bsdiff_patched(old, patch) {
        None => (Seq::empty(), Some(OperationWarning::PatchFailed)),
        Some(n) => split_outcome(dst, n, bs, OperationWarning::InsufficientPatched),
    }
}

/// What applying an operation yields, given the bytes it carries in the
/// payload (`data`) and the source image bytes of its source extents
/// (`old`, when a source image is available).
pub open spec fn spec_process_operation(op: InstallOperation, data: Seq<u8>, old: Option<Seq<u8>>, bs: u64) -> Result<(Seq<WriteView>, Option<OperationWarning>), OperationError> {
    let dst = op.dst_extents@;
    match spec_operation_type(op.op_type) {
        OperationType::ReplaceXz => match xz_decoded(data) {
            Some(d) => Ok((seq![WriteView::Data(ext_start(dst[0], bs), d)], None)),
            None => Ok((Seq::empty(), Some(OperationWarning::XzDecode))),
        },
        OperationType::Zstd => match zstd_decoded(data) {
            Some(d) => Ok(split_outcome(dst, d, bs, OperationWarning::InsufficientDecompressed)),
            None => Ok((Seq::empty(), Some(OperationWarning::ZstdDecode))),
        },
        OperationType::ReplaceBz => match bz2_decoded(data) {
            Some(d) => Ok((seq![WriteView::Data(ext_start(dst[0], bs), d)], None)),
            None => Ok((Seq::empty(), Some(OperationWarning::Bz2Decode))),
        },
        OperationType::Replace => Ok((seq![WriteView::Data(ext_start(dst[0], bs), data)], None)),
        OperationType::SourceCopy => match old {
            None => Err(OperationError::SourceImageRequired),
            Some(o) => Ok((seq![WriteView::Data(ext_start(dst[0], bs), o)], None)),
        },
        OperationType::SourceBsdiff => match old {
            None => Err(OperationError::SourceImageRequired),
            Some(o) => Ok(patch_outcome(dst, o, data, bs)),
        },
        OperationType::BrotliBsdiff => match old {
            None => Err(OperationError::SourceImageRequired),
            Some(o) => match brotli_decoded(data) {
                None => Ok((Seq::empty(), Some(OperationWarning::BrotliDecode))),
                Some(p) => Ok(patch_outcome(dst, o, p, bs)),
            },
        },
        OperationType::Lz4diffBsdiff => match old {
            None => Err(OperationError::SourceImageRequired),
            Some(o) => match lz4_block_decoded(data) {
                None => Ok((Seq::empty(), Some(OperationWarning::Lz4Decode))),
                Some(p) => Ok(patch_outcome(dst, o, p, bs)),
            },
        },
        OperationType::Zero => Ok((zero_regions(dst, bs), None)),
        _ => Ok((Seq::empty(), Some(OperationWarning::UnknownOperation))),
    }
}

fn extent_start_exec(e: &Extent, block_size: u64) -> (r: u64)
    requires
        extent_in_range(*e, block_size),
    ensures
        r == ext_start(*e, block_size),
{
    proof {
        lemma_extent_bounds(*e, block_size);
    }
    let s: u64 = match e.start_block {
        Some(v) => v,
        None => 0,
    };
    s * block_size
}

fn extent_len_exec(e: &Extent, block_size: u64) -> (r: u64)
    requires
        extent_in_range(*e, block_size),
    ensures
        r == ext_len(*e, block_size),
{
    proof {
        lemma_extent_bounds(*e, block_size);
    }
    let n: u64 = match e.num_blocks {
        Some(v) => v,
        None => 0,
    };
    n * block_size
}

fn slice_to_vec(s: &[u8]) -> (v: Vec<u8>)
    ensures
        v@ == s@,
{
    vstd::slice::slice_to_vec(s)
}

/// Splits `data` over the extents (see `split_from`).
fn split_into_extents(exts: &Vec<Extent>, data: &[u8], block_size: u64) -> (r: (Vec<WriteChunk>, bool))
    requires
        extents_in_range(exts@, block_size),
    ensures
        (writes_view(r.0@), r.1) == split_from(exts@, 0, data@, block_size, 0),
{
    let mut writes: Vec<WriteChunk> = Vec::new();
    let mut pos: usize = 0;
    let mut i: usize = 0;
    let n: usize = data.len();
    while i < exts.len()
        invariant
            extents_in_range(exts@, block_size),
            n == data@.len(),
            i <= exts@.len(),
            pos <= n,
            split_from(exts@, 0, data@, block_size, 0) == (
                writes_view(writes@) + split_from(exts@, i as int, data@, block_size, pos as int).0,
                split_from(exts@, i as int, data@, block_size, pos as int).1,
            ),
        decreases exts@.len() - i,
    {
        let e = &exts[i];
        assert(extent_in_range(exts@[i as int], block_size));
        let len = extent_len_exec(e, block_size);
        if len > (n - pos) as u64 {
            return (writes, true);
        }
        let end: usize = pos + len as usize;
        let start = extent_start_exec(e, block_size);
        let piece = slice_to_vec(vstd::slice::slice_subrange(data, pos, end));
        let ghost old_writes = writes@;
        writes.push(WriteChunk::Data { pos: start, bytes: piece });
        assert(writes_view(writes@) =~= writes_view(old_writes) + seq![
            WriteView::Data(ext_start(exts@[i as int], block_size), data@.subrange(pos as int, end as int)),
        ]);
        pos = end;
        i = i + 1;
    }
    (writes, false)
}

fn zero_writes(exts: &Vec<Extent>, block_size: u64) -> (r: Vec<WriteChunk>)
    requires
        extents_in_range(exts@, block_size),
    ensures
        writes_view(r@) == zero_regions(exts@, block_size),
{
    let mut writes: Vec<WriteChunk> = Vec::new();
    let mut i: usize = 0;
    while i < exts.len()
        invariant
            extents_in_range(exts@, block_size),
            i <= exts@.len(),
            writes_view(writes@) =~= zero_regions(exts@, block_size).subrange(0, i as int),
        decreases exts@.len() - i,
    {
        assert(extent_in_range(exts@[i as int], block_size));
        let start = extent_start_exec(&exts[i], block_size);
        let len = extent_len_exec(&exts[i], block_size);
        let ghost old_writes = writes@;
        writes.push(WriteChunk::Zeros { pos: start, len });
        assert(writes_view(writes@) =~= writes_view(old_writes) + seq![
            WriteView::Zeros(ext_start(exts@[i as int], block_size), ext_len(exts@[i as int], block_size)),
        ]);
        assert(zero_regions(exts@, block_size).subrange(0, i + 1) =~= zero_regions(exts@, block_size).subrange(0, i as int) + seq![
            WriteView::Zeros(ext_start(exts@[i as int], block_size), ext_len(exts@[i as int], block_size)),
        ]);
        i = i + 1;
    }
    assert(zero_regions(exts@, block_size).subrange(0, i as int) =~= zero_regions(exts@, block_size));
    writes
}

fn single_write(pos: u64, bytes: Vec<u8>) -> (r: Vec<WriteChunk>)
    ensures
        writes_view(r@) == seq![WriteView::Data(pos as int, bytes@)],
{
    let mut v: Vec<WriteChunk> = Vec::new();
    v.push(WriteChunk::Data { pos, bytes });
    assert(writes_view(v@) =~= seq![WriteView::Data(pos as int, bytes@)]);
    v
}

fn no_writes(warning: OperationWarning) -> (r: OperationOutput)
    ensures
        writes_view(r.writes@) == Seq::<WriteView>::empty(),
        r.warning == Some(warning),
{
    let v: Vec<WriteChunk> = Vec::new();
    assert(writes_view(v@) =~= Seq::<WriteView>::empty());
    OperationOutput { writes: v, warning: Some(warning) }
}

fn split_output(exts: &Vec<Extent>, data: &[u8], block_size: u64, short: OperationWarning) -> (r: OperationOutput)
    requires
        extents_in_range(exts@, block_size),
    ensures
        (writes_view(r.writes@), r.warning) == split_outcome(exts@, data@, block_size, short),
{
    let (writes, insufficient) = split_into_extents(exts, data, block_size);
    OperationOutput { writes, warning: if insufficient { Some(short) } else { None } }
}

fn patch_output(dst: &Vec<Extent>, old: &[u8], patch: &[u8], block_size: u64) -> (r: OperationOutput)
    requires
        extents_in_range(dst@, block_size),
    ensures
        (writes_view(r.writes@), r.warning) == patch_outcome(dst@, old@, patch@, block_size),
{
    match bspatch(old, patch) {
        Ok(new_data) => split_output(dst, new_data.as_slice(), block_size, OperationWarning::InsufficientPatched),
        Err(_) => no_writes(OperationWarning::PatchFailed),
    }
}

/// Applies one install operation.
///
/// `data` is the operation's bytes from the payload (`data_length` bytes at
/// `data_offset` past the start of the payload data); `old_data`, when a
/// source image is available, is the concatenation of the source image's
/// bytes under the operation's source extents.
pub fn process_operation(
    operation_index: usize,
    op: &InstallOperation,
    data: &[u8],
    old_data: Option<&[u8]>,
    block_size: u64,
) -> (r: Result<OperationOutput, OperationError>)
    requires
        operation_well_formed(*op, block_size),
    ensures
        match r {
            Ok(out) => spec_process_operation(
                *op,
                data@,
                match old_data {
                    Some(o) => Some(o@),
                    None => None,
                },
                block_size,
            ) == Ok::<(Seq<WriteView>, Option<OperationWarning>), OperationError>(
                (writes_view(out.writes@), out.warning),
            ),
            Err(e) => spec_process_operation(
                *op,
                data@,
                match old_data {
                    Some(o) => Some(o@),
                    None => None,
                },
                block_size,
            ) == Err::<(Seq<WriteView>, Option<OperationWarning>), OperationError>(e),
        },
{
    let dst = &op.dst_extents;
    match op.kind() {
        OperationType::ReplaceXz => match decode_xz(data) {
            Some(d) => {
                let pos = extent_start_exec(&dst[0], block_size);
                Ok(OperationOutput { writes: single_write(pos, d), warning: None })
            },
            None => Ok(no_writes(OperationWarning::XzDecode)),
        },
        OperationType::Zstd => match decode_zstd(data) {
            Some(d) => Ok(split_output(dst, d.as_slice(), block_size, OperationWarning::InsufficientDecompressed)),
            None => Ok(no_writes(OperationWarning::ZstdDecode)),
        },
        OperationType::ReplaceBz => match decode_bz2(data) {
            Some(d) => {
                let pos = extent_start_exec(&dst[0], block_size);
                Ok(OperationOutput { writes: single_write(pos, d), warning: None })
            },
            None => Ok(no_writes(OperationWarning::Bz2Decode)),
        },
        OperationType::Replace => {
            let pos = extent_start_exec(&dst[0], block_size);
            Ok(OperationOutput { writes: single_write(pos, slice_to_vec(data)), warning: None })
        },
        OperationType::SourceCopy => match old_data {
            None => Err(OperationError::SourceImageRequired),
            Some(o) => {
                let pos = extent_start_exec(&dst[0], block_size);
                Ok(OperationOutput { writes: single_write(pos, slice_to_vec(o)), warning: None })
            },
        },
        OperationType::SourceBsdiff => match old_data {
            None => Err(OperationError::SourceImageRequired),
            Some(o) => Ok(patch_output(dst, o, data, block_size)),
        },
        OperationType::BrotliBsdiff => match old_data {
            None => Err(OperationError::SourceImageRequired),
            Some(o) => match decode_brotli(data) {
                None => Ok(no_writes(OperationWarning::BrotliDecode)),
                Some(p) => Ok(patch_output(dst, o, p.as_slice(), block_size)),
            },
        },
        OperationType::Lz4diffBsdiff => match old_data {
            None => Err(OperationError::SourceImageRequired),
            Some(o) => match decode_lz4_block(data) {
                None => Ok(no_writes(OperationWarning::Lz4Decode)),
                Some(p) => Ok(patch_output(dst, o, p.as_slice(), block_size)),
            },
        },
        OperationType::Zero => Ok(OperationOutput { writes: zero_writes(dst, block_size), warning: None }),
        _ => Ok(no_writes(OperationWarning::UnknownOperation)),
    }
}

} // verus!
