//! Decompressors and the binary patcher, as functions from bytes to bytes.
//!
//! Each result is named by an uninterpreted function of the input bytes:
//! decoding is deterministic, so the same input always decodes the same way,
//! and `None` stands for input the decoder rejects.
use futures::io::AsyncReadExt;
use std::io::Read;
use vstd::prelude::*;

verus! {

/// What `liblzma::decode_all` yields for an xz stream.
pub uninterp spec fn xz_decoded(data: Seq<u8>) -> Option<Seq<u8>>;

/// What `zstd::decode_all` yields for zstd frames.
pub uninterp spec fn zstd_decoded(data: Seq<u8>) -> Option<Seq<u8>>;

/// What reading `bzip2::read::BzDecoder` to its end yields for a bzip2 stream.
pub uninterp spec fn bz2_decoded(data: Seq<u8>) -> Option<Seq<u8>>;

/// What reading `async_compression`'s `XzDecoder` (futures `bufread`) over
/// the bytes to its end yields: the bytes read (up to the error, if reading
/// stopped at one) and whether reading reached the end without error.
pub uninterp spec fn xz_stream(data: Seq<u8>) -> (Seq<u8>, bool);

/// As `xz_stream`, for `async_compression`'s `BzDecoder`.
pub uninterp spec fn bz2_stream(data: Seq<u8>) -> (Seq<u8>, bool);

/// As `xz_stream`, for `async_compression`'s `ZstdDecoder`.
pub uninterp spec fn zstd_stream(data: Seq<u8>) -> (Seq<u8>, bool);

/// What reading `brotli::Decompressor` to its end yields for a brotli stream.
pub uninterp spec fn brotli_decoded(data: Seq<u8>) -> Option<Seq<u8>>;

/// What `lz4_flex::block::decompress_size_prepended` yields for an LZ4 block
/// preceded by its little-endian 32-bit uncompressed size.
pub uninterp spec fn lz4_block_decoded(data: Seq<u8>) -> Option<Seq<u8>>;

/// What `bsdiff::patch` writes when applying `patch` to `old`.
pub uninterp spec fn bsdiff_patched(old: Seq<u8>, patch: Seq<u8>) -> Option<Seq<u8>>;

/// Calls `liblzma::decode_all` on the bytes; `None` when it reports an error.
#[verifier::external_body]
pub(crate) fn decode_xz(data: &[u8]) -> (r: Option<Vec<u8>>)
    ensures
        match r {
            Some(v) => xz_decoded(data@) == Some(v@),
            None => xz_decoded(data@) is None,
        },
{
    liblzma::decode_all(std::io::Cursor::new(data)).ok()
}

/// Calls `zstd::decode_all` on the bytes; `None` when it reports an error.
#[verifier::external_body]
pub(crate) fn decode_zstd(data: &[u8]) -> (r: Option<Vec<u8>>)
    ensures
        match r {
            Some(v) => zstd_decoded(data@) == Some(v@),
            None => zstd_decoded(data@) is None,
        },
{
    zstd::decode_all(std::io::Cursor::new(data)).ok()
}

/// Reads `async_compression`'s futures `XzDecoder` over the bytes to its
/// end (driven by `futures::executor::block_on`), keeping what was read
/// before an error; the flag tells whether reading ended without error.
#[verifier::external_body]
pub(crate) fn stream_xz(data: &[u8]) -> (r: (Vec<u8>, bool))
    ensures
        (r.0@, r.1) == xz_stream(data@),
{
    let mut out = Vec::new();
    let mut decoder = async_compression::futures::bufread::XzDecoder::new(data);
    let complete = futures::executor::block_on(decoder.read_to_end(&mut out)).is_ok();
    (out, complete)
}

/// As `stream_xz`, with `async_compression`'s futures `BzDecoder`.
#[verifier::external_body]
pub(crate) fn stream_bz2(data: &[u8]) -> (r: (Vec<u8>, bool))
    ensures
        (r.0@, r.1) == bz2_stream(data@),
{
    let mut out = Vec::new();
    let mut decoder = async_compression::futures::bufread::BzDecoder::new(data);
    let complete = futures::executor::block_on(decoder.read_to_end(&mut out)).is_ok();
    (out, complete)
}

/// As `stream_xz`, with `async_compression`'s futures `ZstdDecoder`.
#[verifier::external_body]
pub(crate) fn stream_zstd(data: &[u8]) -> (r: (Vec<u8>, bool))
    ensures
        (r.0@, r.1) == zstd_stream(data@),
{
    let mut out = Vec::new();
    let mut decoder = async_compression::futures::bufread::ZstdDecoder::new(data);
    let complete = futures::executor::block_on(decoder.read_to_end(&mut out)).is_ok();
    (out, complete)
}

/// Reads a `bzip2::read::BzDecoder` over the bytes to its end; `None` when
/// reading reports an error.
#[verifier::external_body]
pub(crate) fn decode_bz2(data: &[u8]) -> (r: Option<Vec<u8>>)
    ensures
        match r {
            Some(v) => bz2_decoded(data@) == Some(v@),
            None => bz2_decoded(data@) is None,
        },
{
    let mut out = Vec::new();
    match bzip2::read::BzDecoder::new(data).read_to_end(&mut out) {
        Ok(_) => Some(out),
        Err(_) => None,
    }
}

/// Reads a `brotli::Decompressor` (4096-byte buffer) over the bytes to its
/// end; `None` when reading reports an error.
#[verifier::external_body]
pub(crate) fn decode_brotli(data: &[u8]) -> (r: Option<Vec<u8>>)
    ensures
        match r {
            Some(v) => brotli_decoded(data@) == Some(v@),
            None => brotli_decoded(data@) is None,
        },
{
    let mut out = Vec::new();
    match brotli::Decompressor::new(data, 4096).read_to_end(&mut out) {
        Ok(_) => Some(out),
        Err(_) => None,
    }
}

/// Calls `lz4_flex::block::decompress_size_prepended`; `None` when it
/// reports an error.
#[verifier::external_body]
pub(crate) fn decode_lz4_block(data: &[u8]) -> (r: Option<Vec<u8>>)
    ensures
        match r {
            Some(v) => lz4_block_decoded(data@) == Some(v@),
            None => lz4_block_decoded(data@) is None,
        },
{
    lz4_flex::block::decompress_size_prepended(data).ok()
}

/// Calls `bsdiff::patch` with `old` and a reader over `patch`, collecting
/// the new bytes; `None` when it reports an error (what it had written by
/// then is dropped).
#[verifier::external_body]
fn apply_bsdiff(old: &[u8], patch: &[u8]) -> (r: Option<Vec<u8>>)
    ensures
        match r {
            Some(v) => bsdiff_patched(old@, patch@) == Some(v@),
            None => bsdiff_patched(old@, patch@) is None,
        },
{
    let mut new_data = Vec::new();
    match bsdiff::patch(old, &mut std::io::Cursor::new(patch), &mut new_data) {
        Ok(()) => Some(new_data),
        Err(_) => None,
    }
}

/// Why a patch could not be applied.
#[derive(Debug, Clone, Copy, PartialEq, Eq, Structural)]
pub enum PatchError {
    Malformed,
}

/// Applies a bsdiff patch to `old_data`, producing the new data.
pub fn bspatch(old_data: &[u8], patch_data: &[u8]) -> (r: Result<Vec<u8>, PatchError>)
    ensures
        match r {
            Ok(v) => bsdiff_patched(old_data@, patch_data@) == Some(v@),
            Err(e) => bsdiff_patched(old_data@, patch_data@) is None && e == PatchError::Malformed,
        },
{
    match apply_bsdiff(old_data, patch_data) {
        Some(v) => Ok(v),
        None => Err(PatchError::Malformed),
    }
}

} // verus!
