//! Little- and big-endian integer decoding over byte sequences.
use vstd::prelude::*;

verus! {

/// Little-endian 16-bit value stored at `s[i..i+2]`.
pub open spec fn le16(s: Seq<u8>, i: int) -> nat {
    s[i] as nat + s[i + 1] as nat * 256
}

/// Little-endian 32-bit value stored at `s[i..i+4]`.
pub open spec fn le32(s: Seq<u8>, i: int) -> nat {
    le16(s, i) + le16(s, i + 2) * 65536
}

/// Little-endian 64-bit value stored at `s[i..i+8]`.
pub open spec fn le64(s: Seq<u8>, i: int) -> nat {
    le32(s, i) + le32(s, i + 4) * 4294967296
}

/// Big-endian 32-bit value stored at `s[i..i+4]`.
pub open spec fn be32(s: Seq<u8>, i: int) -> nat {
    ((s[i] as nat * 256 + s[i + 1] as nat) * 256 + s[i + 2] as nat) * 256 + s[i + 3] as nat
}

/// Big-endian 64-bit value stored at `s[i..i+8]`.
pub open spec fn be64(s: Seq<u8>, i: int) -> nat {
    be32(s, i) * 4294967296 + be32(s, i + 4)
}

pub proof fn lemma_le16_sub(d: Seq<u8>, a: int, b: int, i: int)
    requires
        0 <= a <= b <= d.len(),
        0 <= i,
        i + 2 <= b - a,
    ensures
        le16(d.subrange(a, b), i) == le16(d, a + i),
{
}

pub proof fn lemma_le32_sub(d: Seq<u8>, a: int, b: int, i: int)
    requires
        0 <= a <= b <= d.len(),
        0 <= i,
        i + 4 <= b - a,
    ensures
        le32(d.subrange(a, b), i) == le32(d, a + i),
{
    lemma_le16_sub(d, a, b, i);
    lemma_le16_sub(d, a, b, i + 2);
}

pub proof fn lemma_le64_sub(d: Seq<u8>, a: int, b: int, i: int)
    requires
        0 <= a <= b <= d.len(),
        0 <= i,
        i + 8 <= b - a,
    ensures
        le64(d.subrange(a, b), i) == le64(d, a + i),
{
    lemma_le32_sub(d, a, b, i);
    lemma_le32_sub(d, a, b, i + 4);
}

pub fn read_le16(data: &[u8], i: usize) -> (r: u16)
    requires
        i + 2 <= data@.len(),
    ensures
        r as nat == le16(data@, i as int),
{
    data[i] as u16 + (data[i + 1] as u16) * 256
}

pub fn read_le32(data: &[u8], i: usize) -> (r: u32)
    requires
        i + 4 <= data@.len(),
    ensures
        r as nat == le32(data@, i as int),
{
    let _n: usize = data.len();
    let lo = read_le16(data, i);
    let hi = read_le16(data, i + 2);
    lo as u32 + (hi as u32) * 65536
}

pub fn read_le64(data: &[u8], i: usize) -> (r: u64)
    requires
        i + 8 <= data@.len(),
    ensures
        r as nat == le64(data@, i as int),
{
    let _n: usize = data.len();
    let lo = read_le32(data, i);
    let hi = read_le32(data, i + 4);
    lo as u64 + (hi as u64) * 4294967296
}

pub fn read_be32(data: &[u8], i: usize) -> (r: u32)
    requires
        i + 4 <= data@.len(),
    ensures
        r as nat == be32(data@, i as int),
{
    ((data[i] as u32 * 256 + data[i + 1] as u32) * 256 + data[i + 2] as u32) * 256
        + data[i + 3] as u32
}

pub fn read_be64(data: &[u8], i: usize) -> (r: u64)
    requires
        i + 8 <= data@.len(),
    ensures
        r as nat == be64(data@, i as int),
{
    let _n: usize = data.len();
    let hi = read_be32(data, i);
    let lo = read_be32(data, i + 4);
    (hi as u64) * 4294967296 + lo as u64
}

} // verus!
