//! Differential operations: what they read of the old image, how their patch
//! is decoded and applied, and where the result is written.
use futures::io::AsyncReadExt;
use vstd::prelude::*;
use crate::codecs::{bsdiff_patched, bspatch};
use crate::puf1::{check_puf1_header, puf1_header_sound};
use crate::payload_dumper::{ext_len, ext_start, opt_or_zero};
use crate::structs::{spec_operation_type, Extent, InstallOperation, OperationType};
use crate::text::push_str;

verus! {

/// Where the old images are and the block size they are addressed in.
pub struct DiffContext {
    pub source_dir: std::path::PathBuf,
    pub block_size: u64,
}

/// One read of the old image: `length` bytes at `offset`.
#[derive(Debug, Clone, Copy, PartialEq, Eq, Structural)]
pub struct SourceRead {
    pub offset: u64,
    pub length: u64,
}

/// One write of the new image: `length` bytes of the result, starting at
/// `data_start` in it, written at image position `file_offset`.
#[derive(Debug, Clone, Copy, PartialEq, Eq, Structural)]
pub struct DstWrite {
    pub file_offset: u64,
    pub data_start: usize,
    pub length: usize,
}

/// Each extent's start and length are within 64 bits.
pub open spec fn extents_addressable(exts: Seq<Extent>, bs: u64) -> bool {
    forall|i: int| 0 <= i < exts.len() ==> ext_start(#[trigger] exts[i], bs) <= u64::MAX && ext_len(exts[i], bs) <= u64::MAX
}

/// Total length of the first `n` extents.
pub open spec fn extents_prefix(exts: Seq<Extent>, bs: u64, n: int) -> int
    decreases n,
{
    if n <= 0 {
        0
    } else {
        extents_prefix(exts, bs, n - 1) + ext_len(exts[n - 1], bs)
    }
}

proof fn lemma_prefix_mono(exts: Seq<Extent>, bs: u64, a: int, b: int)
    requires
        0 <= a <= b <= exts.len(),
    ensures
        extents_prefix(exts, bs, a) <= extents_prefix(exts, bs, b),
    decreases b - a,
{
    if a < b {
        lemma_prefix_mono(exts, bs, a, b - 1);
        assert(ext_len(exts[b - 1], bs) >= 0) by (nonlinear_arith)
            requires ext_len(exts[b - 1], bs) == opt_or_zero(exts[b - 1].num_blocks) * bs;
    }
}

/// `w` writes consecutive pieces of a result, one per extent, each at its
/// extent's start.
pub open spec fn is_dst_plan(w: Seq<DstWrite>, exts: Seq<Extent>, bs: u64) -> bool {
    &&& w.len() == exts.len()
    &&& forall|i: int|
        0 <= i < w.len() ==> (#[trigger] w[i]).file_offset == ext_start(exts[i], bs) && w[i].data_start
            == extents_prefix(exts, bs, i) && w[i].length == ext_len(exts[i], bs)
}

/// The writes of a result take it piece after piece: the first piece starts
/// at its beginning, each piece starts where the previous one ends, and
/// together they take as many bytes as the extents hold.
pub proof fn law_dst_writes_consecutive(w: Seq<DstWrite>, exts: Seq<Extent>, bs: u64)
    requires
        is_dst_plan(w, exts, bs),
    ensures
        w.len() > 0 ==> w[0].data_start == 0,
        forall|i: int| 0 <= i < w.len() - 1 ==> #[trigger] w[i].data_start + w[i].length == w[i + 1].data_start,
        w.len() > 0 ==> w.last().data_start + w.last().length == extents_prefix(exts, bs, exts.len() as int),
{
    if w.len() > 0 {
        assert(w.last() == w[w.len() - 1]);
    }
}

/// Whether every extent's start and length are within 64 bits.
pub fn extents_addressable_exec(extents: &Vec<Extent>, bs: u64) -> (r: bool)
    ensures
        r == extents_addressable(extents@, bs),
{
    let mut i: usize = 0;
    while i < extents.len()
        invariant
            i <= extents@.len(),
            forall|k: int| 0 <= k < i ==> ext_start(#[trigger] extents@[k], bs) <= u64::MAX && ext_len(extents@[k], bs) <= u64::MAX,
        decreases extents@.len() - i,
    {
        let s: u64 = match extents[i].start_block {
            Some(v) => v,
            None => 0,
        };
        let n: u64 = match extents[i].num_blocks {
            Some(v) => v,
            None => 0,
        };
        if s.checked_mul(bs).is_none() || n.checked_mul(bs).is_none() {
            assert(!(ext_start(extents@[i as int], bs) <= u64::MAX && ext_len(extents@[i as int], bs) <= u64::MAX));
            return false;
        }
        i = i + 1;
    }
    true
}

/// Whether `dst_writes` can place `data_len` bytes over the extents: they
/// are addressable and hold no more than `data_len` bytes.
pub fn dst_writes_fit(extents: &Vec<Extent>, bs: u64, data_len: usize) -> (r: bool)
    ensures
        r == (extents_addressable(extents@, bs) && extents_prefix(extents@, bs, extents@.len() as int) <= data_len),
{
    if !extents_addressable_exec(extents, bs) {
        return false;
    }
    let mut total: usize = 0;
    let mut i: usize = 0;
    while i < extents.len()
        invariant
            i <= extents@.len(),
            extents_addressable(extents@, bs),
            total == extents_prefix(extents@, bs, i as int),
            total <= data_len,
        decreases extents@.len() - i,
    {
        let n: u64 = match extents[i].num_blocks {
            Some(v) => v,
            None => 0,
        };
        assert(ext_len(extents@[i as int], bs) <= u64::MAX);
        let len = n * bs;
        if len > (data_len - total) as u64 {
            proof { lemma_prefix_mono(extents@, bs, (i + 1) as int, extents@.len() as int); }
            return false;
        }
        total = total + len as usize;
        i = i + 1;
    }
    true
}

impl DiffContext {
    /// A context for old images in `source_dir`, addressed in blocks of
    /// `block_size` bytes.
    pub fn new(source_dir: std::path::PathBuf, block_size: u64) -> (r: Self)
        ensures
            r.source_dir == source_dir,
            r.block_size == block_size,
    {
        DiffContext { source_dir, block_size }
    }

    /// The reads that gather an operation's source data from the old image:
    /// one per extent, in order; their bytes, concatenated, are the source
    /// data.
    pub fn source_reads(&self, extents: &Vec<Extent>) -> (r: Vec<SourceRead>)
        requires
            extents_addressable(extents@, self.block_size),
        ensures
            r@.len() == extents@.len(),
            forall|i: int|
                0 <= i < r@.len() ==> (#[trigger] r@[i]).offset == ext_start(extents@[i], self.block_size)
                    && r@[i].length == ext_len(extents@[i], self.block_size),
    {
        let bs = self.block_size;
        let mut reads: Vec<SourceRead> = Vec::new();
        let mut i: usize = 0;
        while i < extents.len()
            invariant
                i <= extents@.len(),
                bs == self.block_size,
                extents_addressable(extents@, bs),
                reads@.len() == i,
                forall|k: int|
                    0 <= k < i ==> (#[trigger] reads@[k]).offset == ext_start(extents@[k], bs)
                        && reads@[k].length == ext_len(extents@[k], bs),
            decreases extents@.len() - i,
        {
            assert(ext_start(extents@[i as int], bs) <= u64::MAX);
            let s: u64 = match extents[i].start_block {
                Some(v) => v,
                None => 0,
            };
            let n: u64 = match extents[i].num_blocks {
                Some(v) => v,
                None => 0,
            };
            reads.push(SourceRead { offset: s * bs, length: n * bs });
            i = i + 1;
        }
        reads
    }

    /// The writes that put the result of an operation (`data_len` bytes) into
    /// the new image: consecutive pieces of the result, one per extent, each
    /// at its extent's start.
    pub fn dst_writes(&self, extents: &Vec<Extent>, data_len: usize) -> (r: Vec<DstWrite>)
        requires
            extents_addressable(extents@, self.block_size),
            extents_prefix(extents@, self.block_size, extents@.len() as int) <= data_len,
        ensures
            is_dst_plan(r@, extents@, self.block_size),
    {
        let bs = self.block_size;
        let mut writes: Vec<DstWrite> = Vec::new();
        let mut pos: usize = 0;
        let mut i: usize = 0;
        while i < extents.len()
            invariant
                i <= extents@.len(),
                bs == self.block_size,
                extents_addressable(extents@, bs),
                extents_prefix(extents@, bs, extents@.len() as int) <= data_len,
                pos == extents_prefix(extents@, bs, i as int),
                writes@.len() == i,
                forall|k: int|
                    0 <= k < i ==> (#[trigger] writes@[k]).file_offset == ext_start(extents@[k], bs)
                        && writes@[k].data_start == extents_prefix(extents@, bs, k)
                        && writes@[k].length == ext_len(extents@[k], bs),
            decreases extents@.len() - i,
        {
            proof { lemma_prefix_mono(extents@, bs, (i + 1) as int, extents@.len() as int); }
            assert(ext_start(extents@[i as int], bs) <= u64::MAX);
            let s: u64 = match extents[i].start_block {
                Some(v) => v,
                None => 0,
            };
            let n: u64 = match extents[i].num_blocks {
                Some(v) => v,
                None => 0,
            };
            let length = (n * bs) as usize;
            writes.push(DstWrite { file_offset: s * bs, data_start: pos, length });
            pos = pos + length;
            i = i + 1;
        }
        writes
    }
}

// ---------------------------------------------------------------------------
// Planning and applying a differential operation

/// How a patch is stored in the payload.
#[derive(Debug, Clone, Copy, PartialEq, Eq, Structural)]
pub enum PatchEncoding {
    Plain,
    Brotli,
    Lz4Frame,
}

/// What a differential operation does.
#[derive(Debug, Clone, Copy, PartialEq, Eq, Structural)]
pub enum DiffPlan {
    /// Copy the source data unchanged.
    Copy,
    /// Read `length` bytes of patch at payload offset `offset`, decode them
    /// and apply them to the source data with bsdiff.
    Patch { encoding: PatchEncoding, offset: u64, length: u64 },
    /// Read the `length` bytes of a PUF1 patch at payload offset `offset`
    /// and apply it to the source data with puffdiff.
    Puffdiff { offset: u64, length: u64 },
}

/// Why a differential operation is not applied.
#[derive(Debug, Clone, Copy, PartialEq, Eq, Structural)]
pub enum DiffError {
    /// Puffdiff patches over LZ4-compressed data are not supported.
    PuffdiffUnsupported,
    /// Zucchini patches are not supported.
    ZucchiniUnsupported,
    /// The operation is not differential.
    NotDiff,
    /// The patch could not be decoded.
    PatchDecode,
    /// The patch could not be applied.
    PatchFailed,
}

pub open spec fn diff_warning_text(e: DiffError) -> Option<Seq<char>> {
    match e {
        DiffError::PuffdiffUnsupported => Some("PUFFDIFF not supported yet"@),
        DiffError::ZucchiniUnsupported => Some("ZUCCHINI not supported yet"@),
        _ => None,
    }
}

impl DiffError {
    /// The warning reported before the error, for the kinds that are
    /// recognised but not supported.
    pub fn warning(&self) -> (r: Option<String>)
        ensures
            match diff_warning_text(*self) {
                Some(t) => r is Some && r.unwrap()@ == t,
                None => r is None,
            },
    {
        match self {
            DiffError::PuffdiffUnsupported => {
                let mut s = String::new();
                push_str(&mut s, "PUFFDIFF not supported yet");
                Some(s)
            },
            DiffError::ZucchiniUnsupported => {
                let mut s = String::new();
                push_str(&mut s, "ZUCCHINI not supported yet");
                Some(s)
            },
            _ => None,
        }
    }
}

/// The plan of a differential operation.
pub open spec fn spec_diff_plan(op: InstallOperation, data_offset: u64) -> Result<DiffPlan, DiffError> {
    let k = spec_operation_type(op.op_type);
    let offset = (data_offset + opt_or_zero(op.data_offset)) as u64;
    let length = opt_or_zero(op.data_length) as u64;
    if k == OperationType::SourceCopy {
        Ok(DiffPlan::Copy)
    } else if k == OperationType::SourceBsdiff {
        Ok(DiffPlan::Patch { encoding: PatchEncoding::Plain, offset, length })
    } else if k == OperationType::BrotliBsdiff {
        Ok(DiffPlan::Patch { encoding: PatchEncoding::Brotli, offset, length })
    } else if k == OperationType::Lz4diffBsdiff {
        Ok(DiffPlan::Patch { encoding: PatchEncoding::Lz4Frame, offset, length })
    } else if k == OperationType::Puffdiff {
        Ok(DiffPlan::Puffdiff { offset, length })
    } else if k == OperationType::Lz4diffPuffdiff {
        Err(DiffError::PuffdiffUnsupported)
    } else if k == OperationType::Zucchini {
        Err(DiffError::ZucchiniUnsupported)
    } else {
        Err(DiffError::NotDiff)
    }
}

/// The patch kinds compute the offset of their patch in the payload.
pub open spec fn diff_offset_fits(op: InstallOperation, data_offset: u64) -> bool {
    let k = spec_operation_type(op.op_type);
    (k == OperationType::SourceBsdiff || k == OperationType::BrotliBsdiff || k == OperationType::Lz4diffBsdiff
        || k == OperationType::Puffdiff) ==> data_offset + opt_or_zero(op.data_offset) <= u64::MAX
}

/// Decides how a differential operation is applied.
pub fn plan_diff_operation(op: &InstallOperation, data_offset: u64) -> (r: Result<DiffPlan, DiffError>)
    requires
        diff_offset_fits(*op, data_offset),
    ensures
        r == spec_diff_plan(*op, data_offset),
{
    let extra: u64 = match op.data_offset {
        Some(v) => v,
        None => 0,
    };
    let length: u64 = match op.data_length {
        Some(v) => v,
        None => 0,
    };
    match op.kind() {
        OperationType::SourceCopy => Ok(DiffPlan::Copy),
        OperationType::SourceBsdiff => Ok(DiffPlan::Patch { encoding: PatchEncoding::Plain, offset: data_offset + extra, length }),
        OperationType::BrotliBsdiff => Ok(DiffPlan::Patch { encoding: PatchEncoding::Brotli, offset: data_offset + extra, length }),
        OperationType::Lz4diffBsdiff => Ok(DiffPlan::Patch { encoding: PatchEncoding::Lz4Frame, offset: data_offset + extra, length }),
        OperationType::Puffdiff => Ok(DiffPlan::Puffdiff { offset: data_offset + extra, length }),
        OperationType::Lz4diffPuffdiff => Err(DiffError::PuffdiffUnsupported),
        OperationType::Zucchini => Err(DiffError::ZucchiniUnsupported),
        _ => Err(DiffError::NotDiff),
    }
}

/// What reading `async_compression`'s futures `Lz4Decoder` over the bytes
/// to its end yields for LZ4 frames; `None` when reading reports an error.
pub uninterp spec fn lz4_frame_decoded(data: Seq<u8>) -> Option<Seq<u8>>;

/// What reading `async_compression`'s futures `BrotliDecoder` over the bytes
/// to its end yields; `None` when reading reports an error.
pub uninterp spec fn brotli_patch_decoded(data: Seq<u8>) -> Option<Seq<u8>>;

/// Reads `async_compression`'s futures `Lz4Decoder` over the bytes to its
/// end (driven by `futures::executor::block_on`); `None` when reading
/// reports an error.
#[verifier::external_body]
fn decode_lz4_frame(data: &[u8]) -> (r: Option<Vec<u8>>)
    ensures
        match r {
            Some(v) => lz4_frame_decoded(data@) == Some(v@),
            None => lz4_frame_decoded(data@) is None,
        },
{
    let mut out = Vec::new();
    let mut decoder = async_compression::futures::bufread::Lz4Decoder::new(data);
    match futures::executor::block_on(decoder.read_to_end(&mut out)) {
        Ok(_) => Some(out),
        Err(_) => None,
    }
}

/// Reads `async_compression`'s futures `BrotliDecoder` over the bytes to its
/// end (driven by `futures::executor::block_on`); `None` when reading
/// reports an error.
#[verifier::external_body]
fn decode_brotli_patch(data: &[u8]) -> (r: Option<Vec<u8>>)
    ensures
        match r {
            Some(v) => brotli_patch_decoded(data@) == Some(v@),
            None => brotli_patch_decoded(data@) is None,
        },
{
    let mut out = Vec::new();
    let mut decoder = async_compression::futures::bufread::BrotliDecoder::new(data);
    match futures::executor::block_on(decoder.read_to_end(&mut out)) {
        Ok(_) => Some(out),
        Err(_) => None,
    }
}

/// The patch bytes a stored patch decodes to.
pub open spec fn decoded_patch(encoding: PatchEncoding, stored: Seq<u8>) -> Option<Seq<u8>> {
    match encoding {
        PatchEncoding::Plain => Some(stored),
        PatchEncoding::Brotli => brotli_patch_decoded(stored),
        PatchEncoding::Lz4Frame => lz4_frame_decoded(stored),
    }
}

/// The new data a differential operation yields from the source data and
/// the stored patch.
pub open spec fn spec_diff_output(plan: DiffPlan, source: Seq<u8>, stored: Seq<u8>) -> Result<Seq<u8>, DiffError> {
    match plan {
        DiffPlan::Copy => Ok(source),
        DiffPlan::Patch { encoding, .. } => match decoded_patch(encoding, stored) {
            None => Err(DiffError::PatchDecode),
            Some(p) => match bsdiff_patched(source, p) {
                None => Err(DiffError::PatchFailed),
                Some(n) => Ok(n),
            },
        },
        DiffPlan::Puffdiff { .. } => Err(DiffError::PatchFailed),
    }
}

/// The new data of a PUFFDIFF operation, given its stored PUF1 patch and
/// what applying that patch to the source data gave (`None` for an error):
/// refused when the patch's header is not sound, whatever was given.
pub open spec fn spec_puffdiff_output(stored: Seq<u8>, patched: Option<Seq<u8>>) -> Result<Seq<u8>, DiffError> {
    if !puf1_header_sound(stored) {
        Err(DiffError::PatchFailed)
    } else {
        match patched {
            None => Err(DiffError::PatchFailed),
            Some(n) => Ok(n),
        }
    }
}

fn bytes_to_vec(s: &[u8]) -> (r: Vec<u8>)
    ensures
        r@ == s@,
{
    let mut v: Vec<u8> = Vec::new();
    let mut i: usize = 0;
    while i < s.len()
        invariant
            i <= s@.len(),
            v@ == s@.subrange(0, i as int),
        decreases s@.len() - i,
    {
        v.push(s[i]);
        i = i + 1;
        assert(v@ =~= s@.subrange(0, i as int));
    }
    assert(s@.subrange(0, s@.len() as int) =~= s@);
    v
}

/// Applies a differential operation: `source` is the old image's bytes under
/// the operation's source extents, `stored` its patch as read from the
/// payload (unused when the plan copies). PUFFDIFF operations are finished
/// by `puffdiff_output` instead.
pub fn diff_output(plan: DiffPlan, source: &[u8], stored: &[u8]) -> (r: Result<Vec<u8>, DiffError>)
    requires
        !(plan is Puffdiff),
    ensures
        match r {
            Ok(v) => spec_diff_output(plan, source@, stored@) == Ok::<Seq<u8>, DiffError>(v@),
            Err(e) => spec_diff_output(plan, source@, stored@) == Err::<Seq<u8>, DiffError>(e),
        },
{
    match plan {
        DiffPlan::Copy => Ok(bytes_to_vec(source)),
        DiffPlan::Patch { encoding, .. } => {
            let patched = match encoding {
                PatchEncoding::Plain => bspatch(source, stored),
                PatchEncoding::Brotli => match decode_brotli_patch(stored) {
                    None => {
                        return Err(DiffError::PatchDecode);
                    },
                    Some(p) => bspatch(source, p.as_slice()),
                },
                PatchEncoding::Lz4Frame => match decode_lz4_frame(stored) {
                    None => {
                        return Err(DiffError::PatchDecode);
                    },
                    Some(p) => bspatch(source, p.as_slice()),
                },
            };
            match patched {
                Ok(n) => Ok(n),
                Err(_) => Err(DiffError::PatchFailed),
            }
        },
        DiffPlan::Puffdiff { .. } => Err(DiffError::PatchFailed),
    }
}

/// Finishes a PUFFDIFF operation: `patched` is what applying the stored
/// PUF1 patch to the source data gave, which the caller computes only for
/// a patch whose header `check_puf1_header` accepts.
pub fn puffdiff_output(stored: &[u8], patched: Option<Vec<u8>>) -> (r: Result<Vec<u8>, DiffError>)
    ensures
        match r {
            Ok(v) => spec_puffdiff_output(stored@, match patched {
                Some(p) => Some(p@),
                None => None,
            }) == Ok::<Seq<u8>, DiffError>(v@),
            Err(e) => spec_puffdiff_output(stored@, match patched {
                Some(p) => Some(p@),
                None => None,
            }) == Err::<Seq<u8>, DiffError>(e),
        },
{
    if !check_puf1_header(stored) {
        return Err(DiffError::PatchFailed);
    }
    match patched {
        Some(n) => Ok(n),
        None => Err(DiffError::PatchFailed),
    }
}

} // verus!
