//! The fixed header at the start of a payload, and finding where a payload
//! starts inside other data.
use vstd::prelude::*;
use crate::bytes::{be32, be64, read_be32, read_be64};
use crate::constants::{PAYLOAD_MAGIC, SUPPORTED_PAYLOAD_VERSION};

verus! {

/// Bytes of the fixed header: magic, version, manifest size, signature size.
pub const PAYLOAD_HEADER_SIZE: usize = 24;

/// The fixed header of a payload.
#[derive(Debug, Clone, Copy, PartialEq, Eq, Structural)]
pub struct PayloadHeader {
    pub version: u64,
    pub manifest_size: u64,
    pub metadata_signature_size: u32,
}

/// Why a payload header is refused.
#[derive(Debug, Clone, Copy, PartialEq, Eq, Structural)]
pub enum HeaderError {
    /// The data ends inside the header.
    Truncated,
    /// The data does not start with "CrAU".
    BadMagic,
    /// The format version is not the supported one.
    UnsupportedVersion(u64),
}

/// Outcome of reading a payload header from the start of `b`, field by field
/// as a reader meets them.
pub open spec fn spec_parse_header(b: Seq<u8>) -> Result<PayloadHeader, HeaderError> {
    if b.len() < 4 {
        Err(HeaderError::Truncated)
    } else if be32(b, 0) != PAYLOAD_MAGIC {
        Err(HeaderError::BadMagic)
    } else if b.len() < 12 {
        Err(HeaderError::Truncated)
    } else if be64(b, 4) != SUPPORTED_PAYLOAD_VERSION {
        Err(HeaderError::UnsupportedVersion(be64(b, 4) as u64))
    } else if b.len() < 24 {
        Err(HeaderError::Truncated)
    } else {
        Ok(
            PayloadHeader {
                version: be64(b, 4) as u64,
                manifest_size: be64(b, 12) as u64,
                metadata_signature_size: be32(b, 20) as u32,
            },
        )
    }
}

/// Reads the payload header at the start of `bytes`.
pub fn parse_payload_header(bytes: &[u8]) -> (r: Result<PayloadHeader, HeaderError>)
    ensures
        r == spec_parse_header(bytes@),
{
    if bytes.len() < 4 {
        return Err(HeaderError::Truncated);
    }
    if read_be32(bytes, 0) != PAYLOAD_MAGIC {
        return Err(HeaderError::BadMagic);
    }
    if bytes.len() < 12 {
        return Err(HeaderError::Truncated);
    }
    let version = read_be64(bytes, 4);
    if version != SUPPORTED_PAYLOAD_VERSION {
        return Err(HeaderError::UnsupportedVersion(version));
    }
    if bytes.len() < 24 {
        return Err(HeaderError::Truncated);
    }
    Ok(PayloadHeader {
        version,
        manifest_size: read_be64(bytes, 12),
        metadata_signature_size: read_be32(bytes, 20),
    })
}

impl PayloadHeader {
    /// Offset of the operation data from the start of the payload: past the
    /// header, the manifest and the metadata signature; `None` when that is
    /// beyond 64-bit offsets.
    pub fn data_offset(&self) -> (r: Option<u64>)
        ensures
            PAYLOAD_HEADER_SIZE + self.manifest_size + self.metadata_signature_size <= u64::MAX ==> r
                == Some((PAYLOAD_HEADER_SIZE + self.manifest_size + self.metadata_signature_size) as u64),
            PAYLOAD_HEADER_SIZE + self.manifest_size + self.metadata_signature_size > u64::MAX ==> r is None,
    {
        match self.manifest_size.checked_add(self.metadata_signature_size as u64) {
            Some(s) => s.checked_add(PAYLOAD_HEADER_SIZE as u64),
            None => None,
        }
    }
}

/// The big-endian bytes of a 32-bit value.
pub open spec fn be32_bytes(x: u32) -> Seq<u8> {
    seq![(x >> 24u32) as u8, (x >> 16u32) as u8, (x >> 8u32) as u8, x as u8]
}

/// The big-endian bytes of a 64-bit value.
pub open spec fn be64_bytes(x: u64) -> Seq<u8> {
    be32_bytes((x >> 32u64) as u32) + be32_bytes(x as u32)
}

/// A payload header as stored: the magic, then the fields in big-endian order.
pub open spec fn encode_header(h: PayloadHeader) -> Seq<u8> {
    seq![0x43u8, 0x72u8, 0x41u8, 0x55u8] + be64_bytes(h.version) + be64_bytes(h.manifest_size)
        + be32_bytes(h.metadata_signature_size)
}

proof fn lemma_be32_bytes(x: u32)
    ensures
        be32(be32_bytes(x), 0) == x,
{
    let b0 = (x >> 24u32) as u8;
    let b1 = (x >> 16u32) as u8;
    let b2 = (x >> 8u32) as u8;
    let b3 = x as u8;
    assert(((b0 as u64 * 256 + b1 as u64) * 256 + b2 as u64) * 256 + b3 as u64 == x as u64) by (bit_vector)
        requires
            b0 == (x >> 24u32) as u8,
            b1 == (x >> 16u32) as u8,
            b2 == (x >> 8u32) as u8,
            b3 == x as u8,
    ;
}

proof fn lemma_be64_bytes(x: u64)
    ensures
        be64(be64_bytes(x), 0) == x,
{
    let hi = (x >> 32u64) as u32;
    let lo = x as u32;
    lemma_be32_bytes(hi);
    lemma_be32_bytes(lo);
    let s = be64_bytes(x);
    assert(be32(s, 0) == be32(be32_bytes(hi), 0));
    assert(be32(s, 4) == be32(be32_bytes(lo), 0));
    assert(hi as u64 * 4294967296 + lo as u64 == x) by (bit_vector)
        requires
            hi == (x >> 32u64) as u32,
            lo == x as u32,
    ;
}

/// Reading a stored header gives back its fields, for the supported version.
pub proof fn law_header_round_trip(h: PayloadHeader)
    requires
        h.version == SUPPORTED_PAYLOAD_VERSION,
    ensures
        spec_parse_header(encode_header(h)) == Ok::<PayloadHeader, HeaderError>(h),
{
    let b = encode_header(h);
    let v = be64_bytes(h.version);
    let m = be64_bytes(h.manifest_size);
    let g = be32_bytes(h.metadata_signature_size);
    lemma_be64_bytes(h.version);
    lemma_be64_bytes(h.manifest_size);
    lemma_be32_bytes(h.metadata_signature_size);
    assert(b.len() == 24);
    assert(be32(b, 0) == PAYLOAD_MAGIC);
    assert(be64(b, 4) == be64(v, 0));
    assert(be64(b, 12) == be64(m, 0));
    assert(be32(b, 20) == be32(g, 0));
}

// ---------------------------------------------------------------------------
// Finding the payload's start

/// "CrAU" is stored at `i`.
pub open spec fn magic_at(b: Seq<u8>, i: int) -> bool {
    0 <= i && i + 4 <= b.len() && be32(b, i) == PAYLOAD_MAGIC
}

/// Finds the first "CrAU" that starts in `chunk` and fits in it.
pub fn find_magic(chunk: &[u8]) -> (r: Option<usize>)
    requires
        chunk@.len() >= 3,
    ensures
        match r {
            Some(i) => i < chunk@.len() - 3 && magic_at(chunk@, i as int) && forall|j: int| 0 <= j < i ==> !#[trigger] magic_at(chunk@, j),
            None => forall|j: int| 0 <= j < chunk@.len() - 3 ==> !#[trigger] magic_at(chunk@, j),
        },
{
    let n = chunk.len() - 3;
    let mut i: usize = 0;
    while i < n
        invariant
            n == chunk@.len() - 3,
            i <= n,
            forall|j: int| 0 <= j < i ==> !#[trigger] magic_at(chunk@, j),
        decreases n - i,
    {
        if read_be32(chunk, i) == PAYLOAD_MAGIC {
            return Some(i);
        }
        i = i + 1;
    }
    None
}

} // verus!
