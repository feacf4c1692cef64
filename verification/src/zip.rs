//! Locating the central directory and the payload entry of a ZIP archive.
use vstd::prelude::*;
use vstd::utf8::{decode_utf8, valid_utf8};
use crate::bytes::{be32, le16, le32, le64, lemma_le32_sub, lemma_le64_sub, read_be32, read_le16, read_le32, read_le64};
use vstd::string::StrSliceExecFns;
use crate::constants::{
    CENTRAL_DIR_HEADER_SIGNATURE, EOCD_SIGNATURE, LOCAL_FILE_HEADER_SIGNATURE,
    PAYLOAD_MAGIC, ZIP64_EOCD_LOCATOR_SIGNATURE, ZIP64_EOCD_SIGNATURE,
};
use crate::zip_io::{is_read_failure, read_exact_at, AdvancedReader, ZipError, ZipIO, MAX_ARCHIVE_SIZE};

verus! {

/// Largest span at the end of an archive that can hold the end-of-central-
/// directory record: the 22-byte record plus a comment of up to 65535 bytes.
pub const EOCD_SEARCH_SPAN: u64 = 65557;

/// Size of the chunks the tail of the archive is scanned in.
pub const EOCD_CHUNK: u64 = 8192;

/// Value of a 32-bit ZIP field that defers to the ZIP64 extra field.
pub const ZIP64_MARKER: u64 = 0xFFFF_FFFF;

// ---------------------------------------------------------------------------
// Signature search

/// The highest position `q` in `a..=p` at which `sig` is stored (as a
/// little-endian word fully inside `s`) and `q < limit`.
pub open spec fn last_sig(s: Seq<u8>, a: int, p: int, sig: u32, limit: int) -> Option<int>
    decreases p - a + 1,
{
    if p < a {
        None
    } else if 0 <= p && p + 4 <= s.len() && le32(s, p) == sig && p < limit {
        Some(p)
    } else {
        last_sig(s, a, p - 1, sig, limit)
    }
}

pub proof fn lemma_last_sig_found(s: Seq<u8>, a: int, p: int, sig: u32, limit: int)
    ensures
        last_sig(s, a, p, sig, limit) matches Some(q) ==> a <= q <= p && q + 4 <= s.len()
            && le32(s, q) == sig && q < limit && q >= 0,
    decreases p - a + 1,
{
    if p >= a {
        lemma_last_sig_found(s, a, p - 1, sig, limit);
    }
}

/// Scans `buf` from its end for the last stored `sig` at a position below
/// `limit`.
pub(crate) fn scan_back_pub(buf: &[u8], sig: u32, limit: usize) -> (r: Option<usize>)
    ensures
        match r {
            Some(j) => last_sig(buf@, 0, buf@.len() - 4, sig, limit as int) == Some(j as int),
            None => last_sig(buf@, 0, buf@.len() - 4, sig, limit as int) is None,
        },
{
    scan_back(buf, sig, limit)
}

fn scan_back(buf: &[u8], sig: u32, limit: usize) -> (r: Option<usize>)
    ensures
        match r {
            Some(j) => last_sig(buf@, 0, buf@.len() - 4, sig, limit as int) == Some(j as int),
            None => last_sig(buf@, 0, buf@.len() - 4, sig, limit as int) is None,
        },
{
    let n: usize = buf.len();
    if n < 4 {
        return None;
    }
    let mut j: usize = n - 4;
    loop
        invariant
            n == buf@.len(),
            n >= 4,
            j + 4 <= n,
            last_sig(buf@, 0, n - 4, sig, limit as int) == last_sig(buf@, 0, j as int, sig, limit as int),
        decreases j,
    {
        let w = read_le32(buf, j);
        if w == sig && j < limit {
            return Some(j);
        }
        if j == 0 {
            assert(last_sig(buf@, 0, -1, sig, limit as int) is None);
            return None;
        }
        j = j - 1;
    }
}

// ---------------------------------------------------------------------------
// End of central directory

/// The chunked backward scan of the archive tail: chunks of up to 8192 bytes
/// ending at `cur`, each searched from its end, the next chunk ending three
/// bytes before the start of the previous one.
pub open spec fn chunk_scan(d: Seq<u8>, lower: nat, cur: nat) -> Option<int>
    decreases cur,
{
    if cur <= lower || cur > d.len() {
        None
    } else {
        let rs: int = if cur - lower < EOCD_CHUNK { cur - lower } else { EOCD_CHUNK as int };
        let rp: int = cur - rs;
        match last_sig(d.subrange(rp, cur as int), 0, rs - 4, EOCD_SIGNATURE, rs) {
            Some(i) => Some(rp + i),
            None => chunk_scan(d, lower, if rp > 3 { (rp - 3) as nat } else { rp as nat }),
        }
    }
}

pub proof fn lemma_chunk_scan_bounds(d: Seq<u8>, lower: nat, cur: nat)
    ensures
        chunk_scan(d, lower, cur) matches Some(p) ==> 0 <= p && p + 4 <= d.len() && le32(d, p)
            == EOCD_SIGNATURE,
    decreases cur,
{
    if cur <= lower || cur > d.len() {
    } else {
        let rs: int = if cur - lower < EOCD_CHUNK { cur - lower } else { EOCD_CHUNK as int };
        let rp: int = cur - rs;
        let sub = d.subrange(rp, cur as int);
        lemma_last_sig_found(sub, 0, rs - 4, EOCD_SIGNATURE, rs);
        match last_sig(sub, 0, rs - 4, EOCD_SIGNATURE, rs) {
            Some(i) => {
                assert(le32(sub, i) == le32(d, rp + i));
            },
            None => {
                lemma_chunk_scan_bounds(d, lower, if rp > 3 { (rp - 3) as nat } else { rp as nat });
            },
        }
    }
}

pub open spec fn eocd_search_lower(n: nat) -> nat {
    if n < EOCD_SEARCH_SPAN { 0 } else { (n - EOCD_SEARCH_SPAN) as nat }
}

/// Outcome of the streaming search for the end-of-central-directory record:
/// its offset and the 16-bit entry count stored 10 bytes into it.
pub open spec fn spec_find_eocd(d: Seq<u8>) -> Result<(u64, u16), ZipError> {
    match chunk_scan(d, eocd_search_lower(d.len()), d.len()) {
        None => Err(ZipError::EocdNotFound),
        Some(p) => if p + 12 <= d.len() {
            Ok((p as u64, le16(d, p + 10) as u16))
        } else {
            Err(ZipError::Io)
        },
    }
}

/// Outcome of the in-memory search: the last signature in the tail that
/// leaves more than 14 bytes after it.
pub open spec fn spec_find_eocd_zero_copy(d: Seq<u8>) -> Result<(u64, u16), ZipError> {
    let lower = eocd_search_lower(d.len());
    let data = d.subrange(lower as int, d.len() as int);
    let limit: int = if data.len() > 14 { data.len() - 14 } else { 0 };
    match last_sig(data, 0, data.len() - 4, EOCD_SIGNATURE, limit) {
        None => Err(ZipError::EocdNotFound),
        Some(i) => Ok(((lower + i) as u64, le16(data, i + 10) as u16)),
    }
}

pub open spec fn spec_find_eocd_optimized(d: Seq<u8>, zero_copy: bool) -> Result<(u64, u16), ZipError> {
    if zero_copy && d.len() > 0 {
        spec_find_eocd_zero_copy(d)
    } else {
        spec_find_eocd(d)
    }
}


/// Parser for the parts of a ZIP archive needed to find an uncompressed
/// `payload.bin` inside it.
pub struct ZipParser;

impl ZipParser {
    /// Finds the end-of-central-directory record by scanning the last
    /// 65557 bytes of the archive backwards in chunks, and reads its entry
    /// count.
    pub fn find_eocd<R: ZipIO>(reader: &R) -> (r: Result<(u64, u16), ZipError>)
        requires
            reader.spec_content().len() <= MAX_ARCHIVE_SIZE,
        ensures
            r == spec_find_eocd(reader.spec_content()) || (r matches Err(e) && is_read_failure(e)),
            reader.spec_reliable() ==> r == spec_find_eocd(reader.spec_content()),
    {
        let ghost d = reader.spec_content();
        let file_size = match reader.size() {
            Ok(n) => n,
            Err(e) => return Err(e),
        };
        let max_search: u64 = if file_size < EOCD_SEARCH_SPAN { file_size } else { EOCD_SEARCH_SPAN };
        let lower: u64 = file_size - max_search;
        assert(lower == eocd_search_lower(d.len()));
        let mut current_pos: u64 = file_size;
        let mut eocd_pos: Option<u64> = None;
        while current_pos > lower && eocd_pos.is_none()
            invariant
                d == reader.spec_content(),
                file_size == d.len(),
                file_size <= MAX_ARCHIVE_SIZE,
                lower == eocd_search_lower(d.len()),
                current_pos <= file_size,
                match eocd_pos {
                    Some(p) => chunk_scan(d, lower as nat, file_size as nat) == Some(p as int)
                        && p + 4 <= file_size,
                    None => chunk_scan(d, lower as nat, file_size as nat) == chunk_scan(
                        d,
                        lower as nat,
                        current_pos as nat,
                    ),
                },
            decreases current_pos,
        {
            let read_size: u64 = if current_pos - lower < EOCD_CHUNK {
                current_pos - lower
            } else {
                EOCD_CHUNK
            };
            let read_pos: u64 = current_pos - read_size;
            let buf = match read_exact_at(reader, read_pos, read_size as usize) {
                Ok(b) => b,
                Err(e) => return Err(e),
            };
            assert(buf@ =~= d.subrange(read_pos as int, current_pos as int));
            let found = scan_back(buf.as_slice(), EOCD_SIGNATURE, read_size as usize);
            proof {
                lemma_last_sig_found(buf@, 0, buf@.len() - 4, EOCD_SIGNATURE, read_size as int);
            }
            match found {
                Some(i) => {
                    eocd_pos = Some(read_pos + i as u64);
                },
                None => {},
            }
            current_pos = read_pos;
            if current_pos > 3 {
                current_pos = current_pos - 3;
            }
        }
        let eocd_offset = match eocd_pos {
            Some(p) => p,
            None => return Err(ZipError::EocdNotFound),
        };
        let nb = match read_exact_at(reader, eocd_offset + 10, 2) {
            Ok(b) => b,
            Err(e) => return Err(e),
        };
        let num_entries = read_le16(nb.as_slice(), 0);
        Ok((eocd_offset, num_entries))
    }

    /// Finds the end-of-central-directory record, searching the tail in
    /// memory when the reader offers direct views, else as `find_eocd`.
    pub fn find_eocd_optimized<R: AdvancedReader>(reader: &R) -> (r: Result<(u64, u16), ZipError>)
        requires
            reader.spec_content().len() <= MAX_ARCHIVE_SIZE,
            reader.spec_zero_copy() ==> (reader.spec_content().len() == 0
                || reader.spec_content().len() >= 4),
        ensures
            r == spec_find_eocd_optimized(reader.spec_content(), reader.spec_zero_copy()) || (r matches Err(e)
                && is_read_failure(e)),
            reader.spec_reliable() ==> r == spec_find_eocd_optimized(
                reader.spec_content(),
                reader.spec_zero_copy(),
            ),
            reader.spec_zero_copy() ==> r == spec_find_eocd_optimized(reader.spec_content(), true),
    {
        proof {
            reader.lemma_zero_copy_reliable();
        }
        let ghost d = reader.spec_content();
        let file_size = match reader.size() {
            Ok(n) => n,
            Err(e) => return Err(e),
        };
        if reader.supports_zero_copy() {
            let max_search: u64 = if file_size < EOCD_SEARCH_SPAN { file_size } else { EOCD_SEARCH_SPAN };
            let search_start: u64 = file_size - max_search;
            let search_len: usize = max_search as usize;
            match reader.get_slice(search_start, search_len) {
                Some(data) => {
                    assert(data@ =~= d.subrange(search_start as int, d.len() as int));
                    let n: usize = data.len();
                    let limit: usize = if n > 14 { n - 14 } else { 0 };
                    let found = scan_back(data, EOCD_SIGNATURE, limit);
                    proof {
                        lemma_last_sig_found(data@, 0, data@.len() - 4, EOCD_SIGNATURE, limit as int);
                    }
                    match found {
                        Some(i) => {
                            let num_entries = read_le16(data, i + 10);
                            return Ok((search_start + i as u64, num_entries));
                        },
                        None => {
                            return Err(ZipError::EocdNotFound);
                        },
                    }
                },
                None => {},
            }
        }
        Self::find_eocd(reader)
    }
}


// ---------------------------------------------------------------------------
// Outcomes of reads from a byte source

/// An outcome `r` of an operation on a byte source agrees with the specified
/// outcome `s`: a value is exactly the specified one, an error is either the
/// specified one or a failed read, and a reliable source never fails a read.
pub open spec fn outcome_matches<T: View>(r: Result<T, ZipError>, s: Result<T::V, ZipError>, reliable: bool) -> bool {
    match r {
        Ok(v) => s == Ok::<T::V, ZipError>(v@),
        Err(e) => (is_read_failure(e) || s == Err::<T::V, ZipError>(e)) && (reliable ==> s == Err::<
            T::V,
            ZipError,
        >(e)),
    }
}

// ---------------------------------------------------------------------------
// ZIP64 end of central directory

/// Outcome of reading the ZIP64 end-of-central-directory record whose locator
/// sits in the 20 bytes before the classic record at `eocd`: the central
/// directory offset and the 64-bit entry count.
pub open spec fn spec_read_zip64_eocd(d: Seq<u8>, eocd: u64) -> Result<(u64, u64), ZipError> {
    if eocd < 20 {
        Err(ZipError::Zip64Invalid)
    } else if eocd > d.len() {
        Err(ZipError::Io)
    } else {
        let buf = d.subrange(eocd - 20, eocd as int);
        match last_sig(buf, 0, 16, ZIP64_EOCD_LOCATOR_SIGNATURE, 20) {
            None => Err(ZipError::Zip64LocatorNotFound),
            Some(i) => {
                let z: int = if i + 16 <= 20 { le64(buf, i + 8) as int } else { 0 };
                if z + 56 > d.len() {
                    Err(ZipError::Io)
                } else if le32(d, z) != ZIP64_EOCD_SIGNATURE {
                    Err(ZipError::Zip64BadSignature)
                } else {
                    Ok((le64(d, z + 48) as u64, le64(d, z + 32) as u64))
                }
            },
        }
    }
}

/// Outcome of locating the central directory through the streaming search:
/// its offset and entry count, taken from the ZIP64 record when the classic
/// offset field holds the ZIP64 marker.
pub open spec fn spec_central_directory_info(d: Seq<u8>) -> Result<(u64, u64), ZipError> {
    match spec_find_eocd(d) {
        Err(e) => Err(e),
        Ok((eocd, n)) => if eocd + 20 > d.len() {
            Err(ZipError::Io)
        } else if le32(d, eocd + 16) == ZIP64_MARKER {
            spec_read_zip64_eocd(d, eocd)
        } else {
            Ok((le32(d, eocd + 16) as u64, n as u64))
        },
    }
}

/// Outcome of locating the central directory, reading the classic record in
/// memory when the reader offers direct views.
pub open spec fn spec_central_directory_info_optimized(d: Seq<u8>, zero_copy: bool) -> Result<(u64, u64), ZipError> {
    match spec_find_eocd_optimized(d, zero_copy) {
        Err(e) => Err(e),
        Ok((eocd, n)) => if zero_copy && eocd < d.len() && eocd + 22 <= d.len() {
            if le32(d, eocd + 16) == ZIP64_MARKER {
                spec_read_zip64_eocd(d, eocd)
            } else {
                Ok((le32(d, eocd + 16) as u64, n as u64))
            }
        } else {
            spec_central_directory_info(d)
        },
    }
}

// ---------------------------------------------------------------------------
// Central directory entries

/// Name for what `String::from_utf8_lossy` makes of a byte sequence.
pub uninterp spec fn utf8_lossy(bytes: Seq<u8>) -> Seq<char>;

/// Wraps `String::from_utf8_lossy` (made owned): the result is the named
/// lossy decoding of the bytes; for valid UTF-8 the documentation promises the
/// plain decoding. Nothing more is stated of invalid input.
#[verifier::external_body]
fn lossy_string(bytes: &[u8]) -> (s: String)
    ensures
        s@ == utf8_lossy(bytes@),
        valid_utf8(bytes@) ==> s@ == decode_utf8(bytes@),
{
    String::from_utf8_lossy(bytes).into_owned()
}

/// A file entry as recorded in the central directory.
#[derive(Debug, Clone)]
pub struct ZipEntry {
    pub name: String,
    pub compressed_size: u64,
    pub uncompressed_size: u64,
    pub offset: u64,
    pub compression_method: u16,
    pub data_offset: u64,
}

/// The abstract content of a `ZipEntry`.
pub struct EntryView {
    pub name: Seq<char>,
    pub compressed_size: u64,
    pub uncompressed_size: u64,
    pub offset: u64,
    pub compression_method: u16,
    pub data_offset: u64,
}

impl View for ZipEntry {
    type V = EntryView;

    open spec fn view(&self) -> EntryView {
        EntryView {
            name: self.name@,
            compressed_size: self.compressed_size,
            uncompressed_size: self.uncompressed_size,
            offset: self.offset,
            compression_method: self.compression_method,
            data_offset: self.data_offset,
        }
    }
}

/// The sizes and local header offset after applying a ZIP64 extended
/// information field whose data runs from `fp` to `end`: each 32-bit field
/// holding the marker takes the next 64-bit value, in the order uncompressed
/// size, compressed size, local header offset.
pub open spec fn zip64_apply(extra: Seq<u8>, fp: int, end: int, sizes: (u64, u64, u64)) -> (u64, u64, u64) {
    let u = sizes.0;
    let c = sizes.1;
    let l = sizes.2;
    let u2: u64 = if u == ZIP64_MARKER && fp + 8 <= end { le64(extra, fp) as u64 } else { u };
    let fp2: int = if u == ZIP64_MARKER && fp + 8 <= end { fp + 8 } else { fp };
    let c2: u64 = if c == ZIP64_MARKER && fp2 + 8 <= end { le64(extra, fp2) as u64 } else { c };
    let fp3: int = if c == ZIP64_MARKER && fp2 + 8 <= end { fp2 + 8 } else { fp2 };
    let l2: u64 = if l == ZIP64_MARKER && fp3 + 8 <= end { le64(extra, fp3) as u64 } else { l };
    (u2, c2, l2)
}

/// Walks the extra fields from `pos` to the first complete ZIP64 field
/// (header id 1) and applies it.
pub open spec fn zip64_scan(extra: Seq<u8>, pos: int, sizes: (u64, u64, u64)) -> (u64, u64, u64)
    decreases (if pos <= extra.len() { extra.len() - pos + 1 } else { 0 }),
{
    if pos < 0 || pos + 4 > extra.len() {
        sizes
    } else {
        let ds: int = le16(extra, pos + 2) as int;
        if le16(extra, pos) == 1 && pos + 4 + ds <= extra.len() {
            zip64_apply(extra, pos + 4, pos + 4 + ds, sizes)
        } else {
            zip64_scan(extra, pos + 4 + ds, sizes)
        }
    }
}

/// (uncompressed size, compressed size, local header offset) of the entry
/// whose fixed header is `h` and extra field is `extra`.
pub open spec fn entry_sizes(h: Seq<u8>, extra: Seq<u8>) -> (u64, u64, u64) {
    let u = le32(h, 24) as u64;
    let c = le32(h, 20) as u64;
    let l = le32(h, 42) as u64;
    if u == ZIP64_MARKER || c == ZIP64_MARKER || l == ZIP64_MARKER {
        zip64_scan(extra, 0, (u, c, l))
    } else {
        (u, c, l)
    }
}

/// The text of an entry name: its UTF-8 decoding when the bytes are valid
/// UTF-8, else their lossy decoding.
pub open spec fn entry_name(name: Seq<u8>) -> Seq<char> {
    if valid_utf8(name) {
        decode_utf8(name)
    } else {
        utf8_lossy(name)
    }
}

/// The entry described by header `h`, name bytes `name` and extra field
/// `extra`.
pub open spec fn spec_entry(h: Seq<u8>, name: Seq<u8>, extra: Seq<u8>) -> EntryView {
    let sizes = entry_sizes(h, extra);
    EntryView {
        name: entry_name(name),
        compressed_size: sizes.1,
        uncompressed_size: sizes.0,
        offset: sizes.2,
        compression_method: le16(h, 10) as u16,
        data_offset: 0,
    }
}

fn zip64_apply_exec(extra: &[u8], fp: usize, end: usize, sizes: (u64, u64, u64)) -> (r: (u64, u64, u64))
    requires
        end <= extra@.len(),
        extra@.len() <= 65535,
        fp <= end,
    ensures
        r == zip64_apply(extra@, fp as int, end as int, sizes),
{
    let (mut u, mut c, mut l) = sizes;
    let mut field_pos: usize = fp;
    if u == ZIP64_MARKER && field_pos + 8 <= end {
        u = read_le64(extra, field_pos);
        field_pos = field_pos + 8;
    }
    if c == ZIP64_MARKER && field_pos + 8 <= end {
        c = read_le64(extra, field_pos);
        field_pos = field_pos + 8;
    }
    if l == ZIP64_MARKER && field_pos + 8 <= end {
        l = read_le64(extra, field_pos);
    }
    (u, c, l)
}

fn zip64_scan_exec(extra: &[u8], sizes: (u64, u64, u64)) -> (r: (u64, u64, u64))
    requires
        extra@.len() <= 65535,
    ensures
        r == zip64_scan(extra@, 0, sizes),
{
    let n: usize = extra.len();
    let mut pos: usize = 0;
    while pos + 4 <= n
        invariant
            n == extra@.len(),
            n <= 65535,
            pos <= n + 65540,
            zip64_scan(extra@, 0, sizes) == zip64_scan(extra@, pos as int, sizes),
        decreases n + 65540 - pos,
    {
        let header_id = read_le16(extra, pos);
        let data_size = read_le16(extra, pos + 2) as usize;
        if header_id == 1 && pos + 4 + data_size <= n {
            return zip64_apply_exec(extra, pos + 4, pos + 4 + data_size, sizes);
        }
        pos = pos + 4 + data_size;
    }
    sizes
}

fn decode_entry(h: &[u8], name: &[u8], extra: &[u8]) -> (e: ZipEntry)
    requires
        h@.len() >= 46,
        extra@.len() <= 65535,
    ensures
        e@ == spec_entry(h@, name@, extra@),
{
    let compression_method = read_le16(h, 10);
    let u: u64 = read_le32(h, 24) as u64;
    let c: u64 = read_le32(h, 20) as u64;
    let l: u64 = read_le32(h, 42) as u64;
    let sizes = if u == ZIP64_MARKER || c == ZIP64_MARKER || l == ZIP64_MARKER {
        zip64_scan_exec(extra, (u, c, l))
    } else {
        (u, c, l)
    };
    let name_str = lossy_string(name);
    ZipEntry {
        name: name_str,
        compressed_size: sizes.1,
        uncompressed_size: sizes.0,
        offset: sizes.2,
        compression_method,
        data_offset: 0,
    }
}


impl ZipParser {
    /// Reads the ZIP64 end-of-central-directory record through the locator
    /// stored in the 20 bytes before the classic record at `eocd_offset`.
    #[verifier::rlimit(30)]
    pub fn read_zip64_eocd<R: ZipIO>(reader: &R, eocd_offset: u64) -> (r: Result<(u64, u64), ZipError>)
        ensures
            outcome_matches(r, spec_read_zip64_eocd(reader.spec_content(), eocd_offset), reader.spec_reliable()),
    {
        let ghost d = reader.spec_content();
        if eocd_offset < 20 {
            return Err(ZipError::Zip64Invalid);
        }
        let search_start: u64 = eocd_offset - 20;
        let buffer = match read_exact_at(reader, search_start, 20) {
            Ok(b) => b,
            Err(e) => return Err(e),
        };
        assert(buffer@ =~= d.subrange(eocd_offset - 20, eocd_offset as int));
        let found = scan_back(buffer.as_slice(), ZIP64_EOCD_LOCATOR_SIGNATURE, 20);
        proof {
            lemma_last_sig_found(buffer@, 0, 16, ZIP64_EOCD_LOCATOR_SIGNATURE, 20);
        }
        let i = match found {
            Some(i) => i,
            None => return Err(ZipError::Zip64LocatorNotFound),
        };
        let zip64_eocd_offset: u64 = if i + 16 <= 20 {
            read_le64(buffer.as_slice(), i + 8)
        } else {
            0
        };
        let z = match read_exact_at(reader, zip64_eocd_offset, 56) {
            Ok(b) => b,
            Err(e) => return Err(e),
        };
        assert(z@ =~= d.subrange(zip64_eocd_offset as int, zip64_eocd_offset + 56));
        proof {
            let zo = zip64_eocd_offset as int;
            lemma_le32_sub(d, zo, zo + 56, 0);
            lemma_le64_sub(d, zo, zo + 56, 48);
            lemma_le64_sub(d, zo, zo + 56, 32);
        }
        if read_le32(z.as_slice(), 0) != ZIP64_EOCD_SIGNATURE {
            return Err(ZipError::Zip64BadSignature);
        }
        let cd_offset = read_le64(z.as_slice(), 48);
        let num_entries = read_le64(z.as_slice(), 32);
        Ok((cd_offset, num_entries))
    }

    /// Finds the central directory (offset, entry count) through the
    /// streaming search.
    pub fn get_central_directory_info<R: ZipIO>(reader: &R) -> (r: Result<(u64, u64), ZipError>)
        requires
            reader.spec_content().len() <= MAX_ARCHIVE_SIZE,
        ensures
            outcome_matches(r, spec_central_directory_info(reader.spec_content()), reader.spec_reliable()),
    {
        let ghost d = reader.spec_content();
        let (eocd_offset, num_entries) = match Self::find_eocd(reader) {
            Ok(v) => v,
            Err(e) => return Err(e),
        };
        proof {
            lemma_chunk_scan_bounds(d, eocd_search_lower(d.len()), d.len());
        }
        assert(eocd_offset + 12 <= d.len());
        let b = match read_exact_at(reader, eocd_offset + 16, 4) {
            Ok(b) => b,
            Err(e) => return Err(e),
        };
        assert(b@ =~= d.subrange(eocd_offset + 16, eocd_offset + 20));
        let cd_offset = read_le32(b.as_slice(), 0) as u64;
        if cd_offset == ZIP64_MARKER {
            Self::read_zip64_eocd(reader, eocd_offset)
        } else {
            Ok((cd_offset, num_entries as u64))
        }
    }

    /// Finds the central directory (offset, entry count), reading the
    /// classic record in memory when the reader offers direct views.
    pub fn get_central_directory_info_optimized<R: AdvancedReader>(reader: &R) -> (r: Result<(u64, u64), ZipError>)
        requires
            reader.spec_content().len() <= MAX_ARCHIVE_SIZE,
            reader.spec_zero_copy() ==> (reader.spec_content().len() == 0
                || reader.spec_content().len() >= 4),
        ensures
            outcome_matches(
                r,
                spec_central_directory_info_optimized(reader.spec_content(), reader.spec_zero_copy()),
                reader.spec_reliable(),
            ),
            reader.spec_zero_copy() ==> outcome_matches(
                r,
                spec_central_directory_info_optimized(reader.spec_content(), true),
                true,
            ),
    {
        proof {
            reader.lemma_zero_copy_reliable();
        }
        let ghost d = reader.spec_content();
        let (eocd_offset, num_entries) = match Self::find_eocd_optimized(reader) {
            Ok(v) => v,
            Err(e) => return Err(e),
        };
        if reader.supports_zero_copy() {
            match reader.get_slice(eocd_offset, 22) {
                Some(eocd_data) => {
                    assert(eocd_data@ =~= d.subrange(eocd_offset as int, eocd_offset + 22));
                    let cd_offset = read_le32(eocd_data, 16) as u64;
                    if cd_offset == ZIP64_MARKER {
                        return Self::read_zip64_eocd(reader, eocd_offset);
                    } else {
                        return Ok((cd_offset, num_entries as u64));
                    }
                },
                None => {},
            }
        }
        Self::get_central_directory_info(reader)
    }
}


/// The two ways of finding the central directory agree on how they are
/// used: without direct views, the in-memory variant gives exactly what the
/// streaming search gives; with them, once the record is found at `e` with
/// its 22 bytes in the archive, the result is read from that record (the
/// ZIP64 record when its offset is the ZIP64 marker).
pub proof fn law_central_directory_paths(d: Seq<u8>)
    ensures
        spec_find_eocd_optimized(d, false) == spec_find_eocd(d),
        spec_central_directory_info_optimized(d, false) == spec_central_directory_info(d),
        match spec_find_eocd_optimized(d, true) {
            Ok((e, k)) => e + 22 <= d.len() ==> spec_central_directory_info_optimized(d, true) == if le32(
                d,
                e + 16,
            ) == ZIP64_MARKER {
                spec_read_zip64_eocd(d, e)
            } else {
                Ok::<(u64, u64), ZipError>((le32(d, e + 16) as u64, k as u64))
            },
            Err(_) => true,
        },
{
}

// ---------------------------------------------------------------------------
// Entries of the central directory, and the payload entry

/// Outcome of parsing the central directory entry at `o` of an in-memory
/// directory, with the offset the cursor ends at (it has moved past every
/// part read before a failure, and past the comment on success).
pub open spec fn spec_parse_entry_from_slice(data: Seq<u8>, o: int) -> (Result<EntryView, ZipError>, int) {
    if o + 46 > data.len() {
        (Err(ZipError::EntryTruncated), o)
    } else if le32(data, o) != CENTRAL_DIR_HEADER_SIGNATURE {
        (Err(ZipError::BadCentralHeader), o)
    } else {
        let h = data.subrange(o, o + 46);
        let fnl: int = le16(h, 28) as int;
        let exl: int = le16(h, 30) as int;
        let cml: int = le16(h, 32) as int;
        if o + 46 + fnl > data.len() {
            (Err(ZipError::FilenameTruncated), o + 46)
        } else if o + 46 + fnl + exl > data.len() {
            (Err(ZipError::ExtraTruncated), o + 46 + fnl)
        } else {
            (
                Ok(
                    spec_entry(
                        h,
                        data.subrange(o + 46, o + 46 + fnl),
                        data.subrange(o + 46 + fnl, o + 46 + fnl + exl),
                    ),
                ),
                o + 46 + fnl + exl + cml,
            )
        }
    }
}

/// Outcome of reading the central directory entry at `pos` of a byte
/// source: the entry and the position just past its comment.
pub open spec fn spec_read_cd_entry(d: Seq<u8>, pos: int) -> Result<(EntryView, u64), ZipError> {
    if pos + 46 > d.len() {
        Err(ZipError::Io)
    } else if le32(d, pos) != CENTRAL_DIR_HEADER_SIGNATURE {
        Err(ZipError::BadCentralHeader)
    } else {
        let h = d.subrange(pos, pos + 46);
        let fnl: int = le16(h, 28) as int;
        let exl: int = le16(h, 30) as int;
        let cml: int = le16(h, 32) as int;
        if pos + 46 + fnl + exl > d.len() {
            Err(ZipError::Io)
        } else {
            Ok(
                (
                    spec_entry(
                        h,
                        d.subrange(pos + 46, pos + 46 + fnl),
                        d.subrange(pos + 46 + fnl, pos + 46 + fnl + exl),
                    ),
                    (pos + 46 + fnl + exl + cml) as u64,
                ),
            )
        }
    }
}

pub open spec fn payload_name_chars() -> Seq<char> {
    seq!['p', 'a', 'y', 'l', 'o', 'a', 'd', '.', 'b', 'i', 'n']
}

/// An entry holds the payload when it is named `payload.bin` or its name
/// ends with `/payload.bin`.
pub open spec fn is_payload_name(name: Seq<char>) -> bool {
    name == payload_name_chars() || (name.len() >= 12 && name.subrange(
        name.len() - 12,
        name.len() as int,
    ) == seq!['/'] + payload_name_chars())
}

/// Walks `remaining` entries from `pos` to the first stored (uncompressed)
/// payload entry.
pub open spec fn spec_scan_for_payload(d: Seq<u8>, pos: u64, remaining: nat) -> Result<EntryView, ZipError>
    decreases remaining,
{
    if remaining == 0 {
        Err(ZipError::PayloadNotFound)
    } else {
        match spec_read_cd_entry(d, pos as int) {
            Err(e) => Err(e),
            Ok((e, next)) => if e.compression_method == 0 && is_payload_name(e.name) {
                Ok(e)
            } else {
                spec_scan_for_payload(d, next, (remaining - 1) as nat)
            },
        }
    }
}

pub open spec fn spec_find_payload_entry(d: Seq<u8>) -> Result<EntryView, ZipError> {
    match spec_central_directory_info(d) {
        Err(e) => Err(e),
        Ok((cd, n)) => spec_scan_for_payload(d, cd, n as nat),
    }
}

/// Outcome of reading the local file header at `off`: the offset of the
/// entry's data, just past the header, its name and its extra field.
pub open spec fn spec_data_offset(d: Seq<u8>, off: u64) -> Result<u64, ZipError> {
    if off + 30 > d.len() {
        Err(ZipError::Io)
    } else if le32(d, off as int) != LOCAL_FILE_HEADER_SIGNATURE {
        Err(ZipError::BadLocalHeader)
    } else if le16(d, off + 8) != 0 {
        Err(ZipError::PayloadCompressed)
    } else {
        Ok((off + 30 + le16(d, off + 26) + le16(d, off + 28)) as u64)
    }
}

/// Outcome of checking for the payload magic at `offset`.
pub open spec fn spec_verify_payload_magic(d: Seq<u8>, offset: u64) -> Result<(), ZipError> {
    if offset + 4 > d.len() {
        Err(ZipError::Io)
    } else if be32(d, offset as int) != PAYLOAD_MAGIC {
        Err(ZipError::BadPayloadMagic)
    } else {
        Ok(())
    }
}

fn payload_name_char(i: usize) -> (c: char)
    requires
        i < 11,
    ensures
        c == payload_name_chars()[i as int],
{
    match i {
        0 => 'p',
        1 => 'a',
        2 => 'y',
        3 => 'l',
        4 => 'o',
        5 => 'a',
        6 => 'd',
        7 => '.',
        8 => 'b',
        9 => 'i',
        _ => 'n',
    }
}

/// Whether `name` is `payload.bin` or ends with `/payload.bin`.
pub fn is_payload_entry_name(name: &String) -> (r: bool)
    ensures
        r == is_payload_name(name@),
{
    let s = name.as_str();
    let n: usize = s.unicode_len();
    if n < 11 {
        return false;
    }
    let mut i: usize = 0;
    while i < 11
        invariant
            s@ == name@,
            n == s@.len(),
            n >= 11,
            i <= 11,
            forall|k: int| 0 <= k < i ==> s@[n - 11 + k] == payload_name_chars()[k],
        decreases 11 - i,
    {
        if s.get_char(n - 11 + i) != payload_name_char(i) {
            assert(s@.subrange(n - 11, n as int)[i as int] != payload_name_chars()[i as int]);
            assert(s@ != payload_name_chars());
            assert(n >= 12 ==> s@.subrange(n - 12, n as int)[i + 1] != (seq!['/']
                + payload_name_chars())[i + 1]);
            return false;
        }
        i = i + 1;
    }
    if n == 11 {
        assert(s@ =~= payload_name_chars());
        return true;
    }
    let slash = s.get_char(n - 12) == '/';
    if slash {
        assert(s@.subrange(n - 12, n as int) =~= seq!['/'] + payload_name_chars());
    } else {
        assert(s@.subrange(n - 12, n as int)[0] != (seq!['/'] + payload_name_chars())[0]);
    }
    slash
}

impl ZipParser {
    /// Parses the central directory entry at `*offset` of an in-memory
    /// directory and moves `*offset` past what was read.
    pub fn parse_entry_from_slice(data: &[u8], offset: &mut usize) -> (r: Result<ZipEntry, ZipError>)
        requires
            *old(offset) + 46 <= usize::MAX,
            data@.len() <= isize::MAX,
        ensures
            match r {
                Ok(e) => spec_parse_entry_from_slice(data@, *old(offset) as int).0 == Ok::<
                    EntryView,
                    ZipError,
                >(e@),
                Err(x) => spec_parse_entry_from_slice(data@, *old(offset) as int).0 == Err::<
                    EntryView,
                    ZipError,
                >(x),
            },
            *final(offset) as int == spec_parse_entry_from_slice(data@, *old(offset) as int).1,
    {
        let n: usize = data.len();
        if n < *offset + 46 {
            return Err(ZipError::EntryTruncated);
        }
        let start: usize = *offset;
        if read_le32(data, start) != CENTRAL_DIR_HEADER_SIGNATURE {
            return Err(ZipError::BadCentralHeader);
        }
        let header = vstd::slice::slice_subrange(data, start, start + 46);
        let filename_len = read_le16(header, 28) as usize;
        let extra_len = read_le16(header, 30) as usize;
        let comment_len = read_le16(header, 32) as usize;
        *offset = start + 46;
        if n < *offset + filename_len {
            return Err(ZipError::FilenameTruncated);
        }
        let filename = vstd::slice::slice_subrange(data, *offset, *offset + filename_len);
        *offset = *offset + filename_len;
        if n < *offset + extra_len {
            return Err(ZipError::ExtraTruncated);
        }
        let extra = vstd::slice::slice_subrange(data, *offset, *offset + extra_len);
        *offset = *offset + extra_len;
        *offset = *offset + comment_len;
        Ok(decode_entry(header, filename, extra))
    }

    /// Reads the central directory entry at `pos`; returns it with the
    /// position just past its comment.
    pub fn read_central_directory_entry<R: ZipIO>(reader: &R, pos: u64) -> (r: Result<(ZipEntry, u64), ZipError>)
        requires
            reader.spec_content().len() <= MAX_ARCHIVE_SIZE,
        ensures
            outcome_matches(r, spec_read_cd_entry(reader.spec_content(), pos as int), reader.spec_reliable()),
    {
        let ghost d = reader.spec_content();
        if pos > MAX_ARCHIVE_SIZE {
            return Err(ZipError::Io);
        }
        let entry_header = match read_exact_at(reader, pos, 46) {
            Ok(b) => b,
            Err(e) => return Err(e),
        };
        assert(entry_header@ =~= d.subrange(pos as int, pos + 46));
        if read_le32(entry_header.as_slice(), 0) != CENTRAL_DIR_HEADER_SIGNATURE {
            return Err(ZipError::BadCentralHeader);
        }
        let filename_len = read_le16(entry_header.as_slice(), 28);
        let extra_len = read_le16(entry_header.as_slice(), 30);
        let comment_len = read_le16(entry_header.as_slice(), 32);
        let filename = match read_exact_at(reader, pos + 46, filename_len as usize) {
            Ok(b) => b,
            Err(e) => return Err(e),
        };
        let extra_data = match read_exact_at(reader, pos + 46 + filename_len as u64, extra_len as usize) {
            Ok(b) => b,
            Err(e) => return Err(e),
        };
        let next: u64 = pos + 46 + filename_len as u64 + extra_len as u64 + comment_len as u64;
        let entry = decode_entry(entry_header.as_slice(), filename.as_slice(), extra_data.as_slice());
        Ok((entry, next))
    }

    /// Finds the stored (uncompressed) entry named `payload.bin`, or ending
    /// in `/payload.bin`, in the central directory.
    pub fn find_payload_entry<R: ZipIO>(reader: &R) -> (r: Result<ZipEntry, ZipError>)
        requires
            reader.spec_content().len() <= MAX_ARCHIVE_SIZE,
        ensures
            outcome_matches(r, spec_find_payload_entry(reader.spec_content()), reader.spec_reliable()),
    {
        let ghost d = reader.spec_content();
        let (cd_offset, num_entries) = match Self::get_central_directory_info(reader) {
            Ok(v) => v,
            Err(e) => return Err(e),
        };
        let mut pos: u64 = cd_offset;
        let mut i: u64 = 0;
        while i < num_entries
            invariant
                d == reader.spec_content(),
                d.len() <= MAX_ARCHIVE_SIZE,
                i <= num_entries,
                spec_find_payload_entry(d) == spec_scan_for_payload(d, pos, (num_entries - i) as nat),
            decreases num_entries - i,
        {
            let (entry, next) = match Self::read_central_directory_entry(reader, pos) {
                Ok(v) => v,
                Err(e) => return Err(e),
            };
            pos = next;
            i = i + 1;
            if entry.compression_method == 0 && is_payload_entry_name(&entry.name) {
                return Ok(entry);
            }
        }
        Err(ZipError::PayloadNotFound)
    }

    /// The offset of an entry's data: just past its local file header, which
    /// must be valid and declare the entry stored (uncompressed).
    pub fn get_data_offset<R: ZipIO>(reader: &R, entry: &ZipEntry) -> (r: Result<u64, ZipError>)
        requires
            reader.spec_content().len() <= MAX_ARCHIVE_SIZE,
        ensures
            outcome_matches(r, spec_data_offset(reader.spec_content(), entry.offset), reader.spec_reliable()),
    {
        let ghost d = reader.spec_content();
        let local_header = match read_exact_at(reader, entry.offset, 30) {
            Ok(b) => b,
            Err(e) => return Err(e),
        };
        assert(local_header@ =~= d.subrange(entry.offset as int, entry.offset + 30));
        Self::data_offset_from_header(local_header.as_slice(), entry.offset)
    }

    /// The offset just past a 30-byte local file header read at `offset`,
    /// which must carry the local signature and declare no compression.
    pub(crate) fn data_offset_from_header(h: &[u8], offset: u64) -> (r: Result<u64, ZipError>)
        requires
            h@.len() == 30,
            offset <= MAX_ARCHIVE_SIZE,
        ensures
            match r {
                Ok(v) => le32(h@, 0) == LOCAL_FILE_HEADER_SIGNATURE && le16(h@, 8) == 0 && v == offset
                    + 30 + le16(h@, 26) + le16(h@, 28),
                Err(e) => (le32(h@, 0) != LOCAL_FILE_HEADER_SIGNATURE && e
                    == ZipError::BadLocalHeader) || (le32(h@, 0) == LOCAL_FILE_HEADER_SIGNATURE
                    && le16(h@, 8) != 0 && e == ZipError::PayloadCompressed),
            },
    {
        if read_le32(h, 0) != LOCAL_FILE_HEADER_SIGNATURE {
            return Err(ZipError::BadLocalHeader);
        }
        if read_le16(h, 8) != 0 {
            return Err(ZipError::PayloadCompressed);
        }
        let local_filename_len = read_le16(h, 26) as u64;
        let local_extra_len = read_le16(h, 28) as u64;
        Ok(offset + 30 + local_filename_len + local_extra_len)
    }

    /// As `get_data_offset`, reading the header in memory when possible.
    pub fn get_data_offset_optimized<R: AdvancedReader>(reader: &R, entry: &ZipEntry) -> (r: Result<u64, ZipError>)
        requires
            reader.spec_content().len() <= MAX_ARCHIVE_SIZE,
        ensures
            outcome_matches(r, spec_data_offset(reader.spec_content(), entry.offset), reader.spec_reliable()),
            reader.spec_zero_copy() ==> outcome_matches(r, spec_data_offset(reader.spec_content(), entry.offset), true),
    {
        proof {
            reader.lemma_zero_copy_reliable();
        }
        let ghost d = reader.spec_content();
        if reader.supports_zero_copy() {
            match reader.get_slice(entry.offset, 30) {
                Some(header_data) => {
                    assert(header_data@ =~= d.subrange(entry.offset as int, entry.offset + 30));
                    return Self::data_offset_from_header(header_data, entry.offset);
                },
                None => {},
            }
        }
        Self::get_data_offset(reader, entry)
    }

    /// Checks that the payload magic "CrAU" is stored at `offset`.
    pub fn verify_payload_magic<R: ZipIO>(reader: &R, offset: u64) -> (r: Result<(), ZipError>)
        ensures
            outcome_matches(r, spec_verify_payload_magic(reader.spec_content(), offset), reader.spec_reliable()),
    {
        let ghost d = reader.spec_content();
        let magic = match read_exact_at(reader, offset, 4) {
            Ok(b) => b,
            Err(e) => return Err(e),
        };
        assert(magic@ =~= d.subrange(offset as int, offset + 4));
        if read_be32(magic.as_slice(), 0) != PAYLOAD_MAGIC {
            return Err(ZipError::BadPayloadMagic);
        }
        Ok(())
    }
}

} // verus!
