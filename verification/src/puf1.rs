//! The PUF1 container of a PUFFDIFF patch: its magic, its header size and
//! the protobuf header that describes the deflate and puff streams on either
//! side of the patch. A patch is accepted for application only when its
//! header is well formed and every stream length it declares stays within
//! `PUFF_LENGTH_LIMIT` bytes.
use vstd::prelude::*;

verus! {

/// The largest puffed stream, in bytes, a patch may declare.
pub const PUFF_LENGTH_LIMIT: u64 = 0x8000_0000;

/// The largest extent offset or length, in bits, a patch may declare.
pub const EXTENT_BITS_LIMIT: u64 = 0x4_0000_0000;

/// The longest varint accepted, in bytes.
pub const VARINT_MAX_BYTES: usize = 9;

/// The three kinds of protobuf message in the header.
#[derive(Debug, Clone, Copy, PartialEq, Eq, Structural)]
pub enum MessageKind {
    /// The patch header: version, source and destination streams, type.
    Header,
    /// A stream description: deflate extents, puff extents, puff length.
    Stream,
    /// A bit extent: offset and length.
    Extent,
}

/// The varint at `pos + n` on, with `acc` gathered from the `n` bytes
/// before it and `scale` the weight of the next 7 bits: its value and the
/// position just past it; `None` when it is cut off or longer than
/// `VARINT_MAX_BYTES` bytes.
pub open spec fn varint_from(buf: Seq<u8>, pos: int, n: nat, acc: nat, scale: nat) -> Option<(nat, int)>
    decreases VARINT_MAX_BYTES - n,
{
    if n >= VARINT_MAX_BYTES || pos < 0 || pos + n >= buf.len() {
        None
    } else {
        let b = buf[pos + n];
        let acc2 = acc + (b % 128) as nat * scale;
        if b < 128 {
            Some((acc2, pos + n + 1))
        } else {
            varint_from(buf, pos, n + 1, acc2, scale * 128)
        }
    }
}

/// The varint at `pos`: its value and the position just past it.
pub open spec fn varint_at(buf: Seq<u8>, pos: int) -> Option<(nat, int)> {
    varint_from(buf, pos, 0, 0, 1)
}

/// A number field of a message is acceptable: stream and extent lengths
/// stay within their limits; other numbers are free.
pub open spec fn number_ok(kind: MessageKind, field: nat, v: nat) -> bool {
    match kind {
        MessageKind::Stream => field == 3 ==> v <= PUFF_LENGTH_LIMIT,
        MessageKind::Extent => (field == 1 || field == 2) ==> v <= EXTENT_BITS_LIMIT,
        MessageKind::Header => true,
    }
}

/// The message kind a length-delimited field holds, if it is read.
pub open spec fn nested_kind(kind: MessageKind, field: nat) -> Option<MessageKind> {
    match kind {
        MessageKind::Header => if field == 2 || field == 3 {
            Some(MessageKind::Stream)
        } else {
            None
        },
        MessageKind::Stream => if field == 1 || field == 2 {
            Some(MessageKind::Extent)
        } else {
            None
        },
        MessageKind::Extent => None,
    }
}

/// The fields of a `kind` message in `buf` from `pos` on are well formed:
/// each is a varint key followed by a varint (wire type 0), 8 bytes (1), a
/// varint length and that many bytes (2) or 4 bytes (5), all within `buf`;
/// numbers are acceptable and nested messages well formed.
pub open spec fn fields_ok(buf: Seq<u8>, pos: int, kind: MessageKind) -> bool
    decreases buf.len() - pos,
{
    if pos < 0 || pos > buf.len() {
        false
    } else if pos == buf.len() {
        true
    } else {
        match varint_at(buf, pos) {
            None => false,
            Some((key, p1)) => {
                let field = key / 8;
                let wire = key % 8;
                if !(pos < p1 <= buf.len()) {
                    false
                } else if wire == 0 {
                    match varint_at(buf, p1) {
                        None => false,
                        Some((v, p2)) => p1 < p2 <= buf.len() && number_ok(kind, field, v) && fields_ok(
                            buf,
                            p2,
                            kind,
                        ),
                    }
                } else if wire == 1 {
                    p1 + 8 <= buf.len() && fields_ok(buf, p1 + 8, kind)
                } else if wire == 5 {
                    p1 + 4 <= buf.len() && fields_ok(buf, p1 + 4, kind)
                } else if wire == 2 {
                    match varint_at(buf, p1) {
                        None => false,
                        Some((l, p2)) => p1 < p2 && p2 + l <= buf.len() && (match nested_kind(kind, field) {
                            Some(k) => fields_ok(buf.subrange(p2, p2 + l), 0, k),
                            None => true,
                        }) && fields_ok(buf, p2 + l, kind),
                    }
                } else {
                    false
                }
            },
        }
    }
}

/// The PUF1 magic.
pub open spec fn is_puf1_magic(p: Seq<u8>) -> bool {
    p.len() >= 4 && p[0] == 0x50 && p[1] == 0x55 && p[2] == 0x46 && p[3] == 0x31
}

/// Size of the header, stored big-endian after the magic.
pub open spec fn header_size(p: Seq<u8>) -> nat {
    p[4] as nat * 0x1000000 + p[5] as nat * 0x10000 + p[6] as nat * 0x100 + p[7] as nat
}

/// A PUF1 patch whose container and header are sound: the magic, a header
/// that lies within the patch, and well-formed header fields.
pub open spec fn puf1_header_sound(p: Seq<u8>) -> bool {
    &&& p.len() >= 8
    &&& is_puf1_magic(p)
    &&& 8 + header_size(p) <= p.len()
    &&& fields_ok(p.subrange(8, (8 + header_size(p)) as int), 0, MessageKind::Header)
}

/// Reads the varint at `pos`.
fn read_varint(buf: &[u8], pos: usize) -> (r: Option<(u64, usize)>)
    requires
        buf@.len() <= usize::MAX,
    ensures
        match r {
            Some((v, p)) => varint_at(buf@, pos as int) == Some((v as nat, p as int)),
            None => varint_at(buf@, pos as int) is None,
        },
{
    let mut n: usize = 0;
    let mut acc: u64 = 0;
    let mut scale: u64 = 1;
    proof {
        vstd::arithmetic::power::lemma_pow0(128);
    }
    while n < VARINT_MAX_BYTES
        invariant
            n <= VARINT_MAX_BYTES,
            scale == vstd::arithmetic::power::pow(128, n as nat),
            acc < scale,
            varint_at(buf@, pos as int) == varint_from(buf@, pos as int, n as nat, acc as nat, scale as nat),
        decreases VARINT_MAX_BYTES - n,
    {
        if pos >= buf.len() || n >= buf.len() - pos {
            return None;
        }
        let b = buf[pos + n];
        proof {
            vstd::arithmetic::power::lemma_pow_positive(128, n as nat);
            vstd::arithmetic::power::lemma_pow_increases(128, n as nat, 8);
            reveal_with_fuel(vstd::arithmetic::power::pow, 9);
            assert(vstd::arithmetic::power::pow(128, 8) == 0x100000000000000);
            assert((b % 128) as int * scale + acc < 128 * scale) by (nonlinear_arith)
                requires
                    acc < scale,
                    (b % 128) < 128,
            ;
            assert(128 * scale <= 128 * 0x100000000000000) by (nonlinear_arith)
                requires
                    scale <= 0x100000000000000,
            ;
        }
        let acc2: u64 = acc + (b % 128) as u64 * scale;
        if b < 128 {
            return Some((acc2, pos + n + 1));
        }
        acc = acc2;
        proof {
            vstd::arithmetic::power::lemma_pow_adds(128, n as nat, 1);
            reveal_with_fuel(vstd::arithmetic::power::pow, 2);
        }
        if n + 1 < VARINT_MAX_BYTES {
            scale = scale * 128;
        } else {
            proof {
                assert(varint_from(buf@, pos as int, (n + 1) as nat, acc as nat, (scale * 128) as nat) is None);
            }
            return None;
        }
        n = n + 1;
    }
    None
}

pub open spec fn kind_rank(kind: MessageKind) -> nat {
    match kind {
        MessageKind::Header => 2,
        MessageKind::Stream => 1,
        MessageKind::Extent => 0,
    }
}

fn number_ok_exec(kind: MessageKind, field: u64, v: u64) -> (r: bool)
    ensures
        r == number_ok(kind, field as nat, v as nat),
{
    match kind {
        MessageKind::Stream => field != 3 || v <= PUFF_LENGTH_LIMIT,
        MessageKind::Extent => (field != 1 && field != 2) || v <= EXTENT_BITS_LIMIT,
        MessageKind::Header => true,
    }
}

fn nested_kind_exec(kind: MessageKind, field: u64) -> (r: Option<MessageKind>)
    ensures
        r == nested_kind(kind, field as nat),
        r matches Some(k) ==> kind_rank(k) < kind_rank(kind),
{
    match kind {
        MessageKind::Header => if field == 2 || field == 3 {
            Some(MessageKind::Stream)
        } else {
            None
        },
        MessageKind::Stream => if field == 1 || field == 2 {
            Some(MessageKind::Extent)
        } else {
            None
        },
        MessageKind::Extent => None,
    }
}

/// Checks that `buf` holds well-formed fields of a `kind` message.
pub fn check_fields(buf: &[u8], kind: MessageKind) -> (r: bool)
    ensures
        r == fields_ok(buf@, 0, kind),
    decreases kind_rank(kind),
{
    let len = buf.len();
    let mut pos: usize = 0;
    while pos < len
        invariant
            pos <= len,
            len == buf@.len(),
            fields_ok(buf@, 0, kind) == fields_ok(buf@, pos as int, kind),
        decreases len - pos,
    {
        let (key, p1) = match read_varint(buf, pos) {
            Some(x) => x,
            None => {
                return false;
            },
        };
        if !(pos < p1 && p1 <= len) {
            return false;
        }
        let field = key / 8;
        let wire = key % 8;
        if wire == 0 {
            let (v, p2) = match read_varint(buf, p1) {
                Some(x) => x,
                None => {
                    return false;
                },
            };
            if !(p1 < p2 && p2 <= len) || !number_ok_exec(kind, field, v) {
                return false;
            }
            pos = p2;
        } else if wire == 1 {
            if len - p1 < 8 {
                return false;
            }
            pos = p1 + 8;
        } else if wire == 5 {
            if len - p1 < 4 {
                return false;
            }
            pos = p1 + 4;
        } else if wire == 2 {
            let (l, p2) = match read_varint(buf, p1) {
                Some(x) => x,
                None => {
                    return false;
                },
            };
            if !(p1 < p2 && p2 <= len) || l > (len - p2) as u64 {
                return false;
            }
            let end: usize = p2 + l as usize;
            match nested_kind_exec(kind, field) {
                Some(k) => {
                    let inner = vstd::slice::slice_subrange(buf, p2, end);
                    if !check_fields(inner, k) {
                        return false;
                    }
                },
                None => {},
            }
            pos = end;
        } else {
            return false;
        }
    }
    true
}

/// Checks that a PUF1 patch's container and header are sound.
pub fn check_puf1_header(patch: &[u8]) -> (r: bool)
    ensures
        r == puf1_header_sound(patch@),
{
    let len = patch.len();
    if len < 8 {
        return false;
    }
    if !(patch[0] == 0x50 && patch[1] == 0x55 && patch[2] == 0x46 && patch[3] == 0x31) {
        return false;
    }
    let size: u64 = patch[4] as u64 * 0x1000000 + patch[5] as u64 * 0x10000 + patch[6] as u64 * 0x100
        + patch[7] as u64;
    if size > (len - 8) as u64 {
        return false;
    }
    let header = vstd::slice::slice_subrange(patch, 8, 8 + size as usize);
    check_fields(header, MessageKind::Header)
}

} // verus!
