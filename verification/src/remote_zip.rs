//! Locating `payload.bin` in a ZIP archive read piecewise (over HTTP range
//! requests, say), and reading the payload through it.
use vstd::prelude::*;
use crate::bytes::{be32, le16, le32, le64, lemma_le32_sub, lemma_le64_sub, read_le16, read_le32, read_le64};
use crate::constants::{CENTRAL_DIR_HEADER_SIGNATURE, PAYLOAD_MAGIC, ZIP64_EOCD_LOCATOR_SIGNATURE, ZIP64_EOCD_SIGNATURE};
use crate::seek::{resolve_seek, seek_target, SeekFrom, SeekPastEnd};
use crate::zip::{
    last_sig, lemma_chunk_scan_bounds, lemma_last_sig_found, eocd_search_lower, outcome_matches,
    spec_data_offset, spec_find_eocd, spec_read_zip64_eocd, spec_verify_payload_magic, ZipParser, ZIP64_MARKER,
};
use crate::ota_metadata::{find_payload_via_metadata, spec_find_payload_via_metadata};
use crate::zip_io::{is_read_failure, read_exact_at, ZipError, ZipIO, MAX_ARCHIVE_SIZE};

verus! {

/// The ZIP64 fields this reader takes from an extended information field
/// running from `fp` to `end`: while 8 more bytes remain, the local header
/// offset if it holds the marker, else the compressed size if it does.
pub open spec fn remote_zip64_fields(extra: Seq<u8>, fp: int, end: int, lho: u64, cs: u64) -> (u64, u64)
    decreases end - fp,
{
    if fp + 8 > end {
        (lho, cs)
    } else if lho == ZIP64_MARKER {
        remote_zip64_fields(extra, fp + 8, end, le64(extra, fp) as u64, cs)
    } else if cs == ZIP64_MARKER {
        remote_zip64_fields(extra, fp + 8, end, lho, le64(extra, fp) as u64)
    } else {
        (lho, cs)
    }
}

/// Walks every extra field from `pos`, applying each complete ZIP64 field.
pub open spec fn remote_zip64_scan(extra: Seq<u8>, pos: int, lho: u64, cs: u64) -> (u64, u64)
    decreases (if pos <= extra.len() { extra.len() - pos + 1 } else { 0 }),
{
    if pos < 0 || pos + 4 > extra.len() {
        (lho, cs)
    } else {
        let ds: int = le16(extra, pos + 2) as int;
        let f = if le16(extra, pos) == 1 && pos + 4 + ds <= extra.len() {
            remote_zip64_fields(extra, pos + 4, pos + 4 + ds, lho, cs)
        } else {
            (lho, cs)
        };
        remote_zip64_scan(extra, pos + 4 + ds, f.0, f.1)
    }
}

/// (local header offset, compressed size) of the entry with header `h` and
/// extra field `extra`.
pub open spec fn remote_entry_fields(h: Seq<u8>, extra: Seq<u8>) -> (u64, u64) {
    let l = le32(h, 42) as u64;
    let c = le32(h, 20) as u64;
    if l == ZIP64_MARKER || c == ZIP64_MARKER {
        remote_zip64_scan(extra, 0, l, c)
    } else {
        (l, c)
    }
}

pub open spec fn payload_name_bytes() -> Seq<u8> {
    seq![0x70u8, 0x61, 0x79, 0x6c, 0x6f, 0x61, 0x64, 0x2e, 0x62, 0x69, 0x6e]
}

/// A raw file name that is `payload.bin` or ends with `/payload.bin`.
pub open spec fn is_payload_name_bytes(name: Seq<u8>) -> bool {
    name == payload_name_bytes() || (name.len() >= 12 && name.subrange(
        name.len() - 12,
        name.len() as int,
    ) == seq![0x2fu8] + payload_name_bytes())
}

/// Outcome of reading the ZIP64 record for the classic record at `eocd`,
/// looking for the locator in the (up to) 20 bytes before it.
pub open spec fn spec_remote_zip64(d: Seq<u8>, eocd: u64) -> Result<(u64, u64), ZipError> {
    let ss: int = if eocd > 20 { eocd - 20 } else { 0 };
    if eocd <= ss {
        Err(ZipError::Zip64Invalid)
    } else if eocd > d.len() {
        Err(ZipError::Io)
    } else {
        let len: int = eocd - ss;
        let buf = d.subrange(ss, eocd as int);
        match last_sig(buf, 0, len - 4, ZIP64_EOCD_LOCATOR_SIGNATURE, len) {
            None => Err(ZipError::Zip64LocatorNotFound),
            Some(i) => {
                let z: int = if i + 16 <= len { le64(buf, i + 8) as int } else { 0 };
                if z + 56 > d.len() {
                    Err(ZipError::Io)
                } else if le32(d, z) != ZIP64_EOCD_SIGNATURE {
                    Err(ZipError::Zip64BadSignature)
                } else {
                    Ok((le64(d, z + 48) as u64, le64(d, z + 32) as u64))
                }
            },
        }
    }
}

/// The ZIP64 lookup of the remote locator reads the ZIP64 end record as the
/// archive parser does: for a classic record at `eocd` (at least 20 bytes
/// in, room for the locator), both give the same central-directory offset
/// and entry count, or the same error.
pub proof fn law_remote_zip64_matches_parser(d: Seq<u8>, eocd: u64)
    requires
        eocd >= 20,
    ensures
        spec_remote_zip64(d, eocd) == spec_read_zip64_eocd(d, eocd),
{
}

/// Outcome once the payload entry is found: the payload's offset (past the
/// local header, whose magic is checked) and its size.
pub open spec fn spec_remote_payload_at(d: Seq<u8>, lho: u64, cs: u64) -> Result<(u64, u64), ZipError> {
    match spec_data_offset(d, lho) {
        Err(e) => Err(e),
        Ok(po) => match spec_verify_payload_magic(d, po) {
            Err(e) => Err(e),
            Ok(()) => Ok((po, cs)),
        },
    }
}

/// Walks `remaining` central directory entries from `pos`, skipping
/// compressed entries unread, to the first stored entry named like the
/// payload.
pub open spec fn spec_remote_scan(d: Seq<u8>, pos: int, remaining: nat) -> Result<(u64, u64), ZipError>
    decreases remaining,
{
    if remaining == 0 {
        Err(ZipError::PayloadNotFound)
    } else if pos + 46 > d.len() {
        Err(ZipError::Io)
    } else if le32(d, pos) != CENTRAL_DIR_HEADER_SIGNATURE {
        Err(ZipError::BadCentralHeader)
    } else {
        let h = d.subrange(pos, pos + 46);
        let fnl: int = le16(h, 28) as int;
        let exl: int = le16(h, 30) as int;
        let cml: int = le16(h, 32) as int;
        let next = pos + 46 + fnl + exl + cml;
        if le16(h, 10) != 0 {
            spec_remote_scan(d, next, (remaining - 1) as nat)
        } else if pos + 46 + fnl + exl > d.len() {
            Err(ZipError::Io)
        } else {
            let name = d.subrange(pos + 46, pos + 46 + fnl);
            let extra = d.subrange(pos + 46 + fnl, pos + 46 + fnl + exl);
            let f = remote_entry_fields(h, extra);
            if is_payload_name_bytes(name) {
                spec_remote_payload_at(d, f.0, f.1)
            } else {
                spec_remote_scan(d, next, (remaining - 1) as nat)
            }
        }
    }
}

/// Outcome of locating the payload through the archive's structure:
/// (payload offset, payload size).
pub open spec fn spec_find_payload_via_zip_structure(d: Seq<u8>) -> Result<(u64, u64), ZipError> {
    match spec_find_eocd(d) {
        Err(e) => Err(e),
        Ok((eocd, n)) => if eocd + 20 > d.len() {
            Err(ZipError::Io)
        } else {
            let cd = le32(d, eocd + 16) as u64;
            let info = if cd == ZIP64_MARKER {
                spec_remote_zip64(d, eocd)
            } else {
                Ok((cd, n as u64))
            };
            match info {
                Err(e) => Err(e),
                Ok((c, m)) => spec_remote_scan(d, c as int, m as nat),
            }
        },
    }
}

proof fn lemma_scan_finds_magic(d: Seq<u8>, pos: int, remaining: nat)
    ensures
        spec_remote_scan(d, pos, remaining) matches Ok((off, size)) ==> off + 4 <= d.len() && be32(d, off as int) == PAYLOAD_MAGIC,
    decreases remaining,
{
    if remaining > 0 && pos + 46 <= d.len() && le32(d, pos) == CENTRAL_DIR_HEADER_SIGNATURE {
        let h = d.subrange(pos, pos + 46);
        let next = pos + 46 + le16(h, 28) as int + le16(h, 30) as int + le16(h, 32) as int;
        lemma_scan_finds_magic(d, next, (remaining - 1) as nat);
    }
}

/// Where the payload is located through the archive's structure, the
/// archive holds the payload magic "CrAU" at the payload's offset.
pub proof fn law_located_payload_starts_with_magic(d: Seq<u8>)
    ensures
        spec_find_payload_via_zip_structure(d) matches Ok((off, size)) ==> off + 4 <= d.len() && be32(d, off as int)
            == PAYLOAD_MAGIC,
{
    match spec_find_eocd(d) {
        Err(_) => {},
        Ok((eocd, n)) => {
            if eocd + 20 <= d.len() {
                let cd = le32(d, eocd + 16) as u64;
                let info = if cd == ZIP64_MARKER {
                    spec_remote_zip64(d, eocd)
                } else {
                    Ok((cd, n as u64))
                };
                match info {
                    Err(_) => {},
                    Ok((c, m)) => lemma_scan_finds_magic(d, c as int, m as nat),
                }
            }
        },
    }
}

fn remote_zip64_fields_exec(extra: &[u8], fp: usize, end: usize, lho: u64, cs: u64) -> (r: (u64, u64))
    requires
        fp <= end <= extra@.len(),
        extra@.len() <= 65535,
    ensures
        r == remote_zip64_fields(extra@, fp as int, end as int, lho, cs),
{
    let mut l = lho;
    let mut c = cs;
    let mut field_pos = fp;
    while field_pos + 8 <= end
        invariant
            fp <= field_pos <= end,
            end <= extra@.len(),
            extra@.len() <= 65535,
            remote_zip64_fields(extra@, fp as int, end as int, lho, cs) == remote_zip64_fields(
                extra@,
                field_pos as int,
                end as int,
                l,
                c,
            ),
        decreases end - field_pos,
    {
        if l == ZIP64_MARKER {
            l = read_le64(extra, field_pos);
            field_pos = field_pos + 8;
        } else if c == ZIP64_MARKER {
            c = read_le64(extra, field_pos);
            field_pos = field_pos + 8;
        } else {
            return (l, c);
        }
    }
    (l, c)
}

fn remote_entry_fields_exec(h: &[u8], extra: &[u8]) -> (r: (u64, u64))
    requires
        h@.len() >= 46,
        extra@.len() <= 65535,
    ensures
        r == remote_entry_fields(h@, extra@),
{
    let l0 = read_le32(h, 42) as u64;
    let c0 = read_le32(h, 20) as u64;
    if l0 != ZIP64_MARKER && c0 != ZIP64_MARKER {
        return (l0, c0);
    }
    let mut l = l0;
    let mut c = c0;
    let n: usize = extra.len();
    let mut pos: usize = 0;
    while pos + 4 <= n
        invariant
            n == extra@.len(),
            n <= 65535,
            pos <= n + 65540,
            remote_entry_fields(h@, extra@) == remote_zip64_scan(extra@, pos as int, l, c),
        decreases n + 65540 - pos,
    {
        let header_id = read_le16(extra, pos);
        let data_size = read_le16(extra, pos + 2) as usize;
        if header_id == 1 && pos + 4 + data_size <= n {
            let f = remote_zip64_fields_exec(extra, pos + 4, pos + 4 + data_size, l, c);
            l = f.0;
            c = f.1;
        }
        pos = pos + 4 + data_size;
    }
    (l, c)
}

fn payload_name_byte(i: usize) -> (b: u8)
    requires
        i < 11,
    ensures
        b == payload_name_bytes()[i as int],
{
    match i {
        0 => 0x70,
        1 => 0x61,
        2 => 0x79,
        3 => 0x6c,
        4 => 0x6f,
        5 => 0x61,
        6 => 0x64,
        7 => 0x2e,
        8 => 0x62,
        9 => 0x69,
        _ => 0x6e,
    }
}

/// Whether a raw file name is `payload.bin` or ends with `/payload.bin`.
pub fn is_payload_file_name(name: &[u8]) -> (r: bool)
    ensures
        r == is_payload_name_bytes(name@),
{
    let n: usize = name.len();
    if n < 11 {
        return false;
    }
    let mut i: usize = 0;
    while i < 11
        invariant
            n == name@.len(),
            n >= 11,
            i <= 11,
            forall|k: int| 0 <= k < i ==> name@[n - 11 + k] == payload_name_bytes()[k],
        decreases 11 - i,
    {
        if name[n - 11 + i] != payload_name_byte(i) {
            assert(name@.subrange(n - 11, n as int)[i as int] != payload_name_bytes()[i as int]);
            assert(name@ != payload_name_bytes());
            assert(n >= 12 ==> name@.subrange(n - 12, n as int)[i + 1] != (seq![0x2fu8]
                + payload_name_bytes())[i + 1]);
            return false;
        }
        i = i + 1;
    }
    if n == 11 {
        assert(name@ =~= payload_name_bytes());
        return true;
    }
    let slash = name[n - 12] == 0x2f;
    if slash {
        assert(name@.subrange(n - 12, n as int) =~= seq![0x2fu8] + payload_name_bytes());
    } else {
        assert(name@.subrange(n - 12, n as int)[0] != (seq![0x2fu8] + payload_name_bytes())[0]);
    }
    slash
}

/// Reads the payload inside a ZIP archive that is read piecewise.
pub struct RemoteZipReader<R: ZipIO> {
    http_reader: R,
    payload_offset: u64,
    payload_size: u64,
    current_position: u64,
}

impl<R: ZipIO> RemoteZipReader<R> {
    pub closed spec fn spec_reader(&self) -> R {
        self.http_reader
    }

    /// The byte source the payload is read from.
    pub fn http_reader(&self) -> (r: &R)
        ensures
            *r == self.spec_reader(),
    {
        &self.http_reader
    }

    pub closed spec fn spec_payload_offset(&self) -> u64 {
        self.payload_offset
    }

    pub closed spec fn spec_payload_size(&self) -> u64 {
        self.payload_size
    }

    pub closed spec fn spec_position(&self) -> u64 {
        self.current_position
    }

    /// The reader's position and the payload's place in the archive are
    /// consistent: the position never passes the payload's end.
    pub closed spec fn wf(&self) -> bool {
        self.current_position <= self.payload_size
    }

    #[verifier::rlimit(30)]
    fn remote_zip64<S: ZipIO>(reader: &S, eocd_offset: u64) -> (r: Result<(u64, u64), ZipError>)
        ensures
            outcome_matches(r, spec_remote_zip64(reader.spec_content(), eocd_offset), reader.spec_reliable()),
    {
        let ghost d = reader.spec_content();
        let search_start: u64 = if eocd_offset > 20 { eocd_offset - 20 } else { 0 };
        if eocd_offset <= search_start {
            return Err(ZipError::Zip64Invalid);
        }
        let len: u64 = eocd_offset - search_start;
        let buffer = match read_exact_at(reader, search_start, len as usize) {
            Ok(b) => b,
            Err(e) => return Err(e),
        };
        assert(buffer@ =~= d.subrange(search_start as int, eocd_offset as int));
        let found = crate::zip::scan_back_pub(buffer.as_slice(), ZIP64_EOCD_LOCATOR_SIGNATURE, len as usize);
        proof {
            lemma_last_sig_found(buffer@, 0, buffer@.len() - 4, ZIP64_EOCD_LOCATOR_SIGNATURE, len as int);
        }
        let i = match found {
            Some(i) => i,
            None => return Err(ZipError::Zip64LocatorNotFound),
        };
        let zip64_eocd_offset: u64 = if i + 16 <= len as usize {
            read_le64(buffer.as_slice(), i + 8)
        } else {
            0
        };
        let z = match read_exact_at(reader, zip64_eocd_offset, 56) {
            Ok(b) => b,
            Err(e) => return Err(e),
        };
        assert(z@ =~= d.subrange(zip64_eocd_offset as int, zip64_eocd_offset + 56));
        proof {
            let zo = zip64_eocd_offset as int;
            lemma_le32_sub(d, zo, zo + 56, 0);
            lemma_le64_sub(d, zo, zo + 56, 48);
            lemma_le64_sub(d, zo, zo + 56, 32);
        }
        if read_le32(z.as_slice(), 0) != ZIP64_EOCD_SIGNATURE {
            return Err(ZipError::Zip64BadSignature);
        }
        Ok((read_le64(z.as_slice(), 48), read_le64(z.as_slice(), 32)))
    }

    fn payload_at<S: ZipIO>(reader: &S, lho: u64, cs: u64) -> (r: Result<(u64, u64), ZipError>)
        requires
            reader.spec_content().len() <= MAX_ARCHIVE_SIZE,
        ensures
            outcome_matches(r, spec_remote_payload_at(reader.spec_content(), lho, cs), reader.spec_reliable()),
    {
        let ghost d = reader.spec_content();
        let local = match read_exact_at(reader, lho, 30) {
            Ok(b) => b,
            Err(e) => return Err(e),
        };
        assert(local@ =~= d.subrange(lho as int, lho + 30));
        let payload_offset = match ZipParser::data_offset_from_header(local.as_slice(), lho) {
            Ok(v) => v,
            Err(e) => return Err(e),
        };
        match ZipParser::verify_payload_magic(reader, payload_offset) {
            Ok(()) => Ok((payload_offset, cs)),
            Err(e) => Err(e),
        }
    }

    /// Locates the payload through the archive's structure: the end of the
    /// central directory, the ZIP64 record when needed, then the first stored
    /// entry named like the payload, whose local header and magic are
    /// checked. Returns (payload offset, payload size).
    pub fn locate_payload<S: ZipIO>(reader: &S) -> (r: Result<(u64, u64), ZipError>)
        requires
            reader.spec_content().len() <= MAX_ARCHIVE_SIZE,
        ensures
            outcome_matches(r, spec_find_payload_via_zip_structure(reader.spec_content()), reader.spec_reliable()),
    {
        let ghost d = reader.spec_content();
        let (eocd_offset, num_entries) = match ZipParser::find_eocd(reader) {
            Ok(v) => v,
            Err(e) => return Err(e),
        };
        proof {
            lemma_chunk_scan_bounds(d, eocd_search_lower(d.len()), d.len());
        }
        let b = match read_exact_at(reader, eocd_offset + 16, 4) {
            Ok(b) => b,
            Err(e) => return Err(e),
        };
        assert(b@ =~= d.subrange(eocd_offset + 16, eocd_offset + 20));
        let cd_offset = read_le32(b.as_slice(), 0) as u64;
        let (real_cd_offset, real_num_entries) = if cd_offset == ZIP64_MARKER {
            match Self::remote_zip64(reader, eocd_offset) {
                Ok(v) => v,
                Err(e) => return Err(e),
            }
        } else {
            (cd_offset, num_entries as u64)
        };
        let mut pos: u64 = real_cd_offset;
        let mut k: u64 = 0;
        while k < real_num_entries
            invariant
                d == reader.spec_content(),
                d.len() <= MAX_ARCHIVE_SIZE,
                k <= real_num_entries,
                spec_find_payload_via_zip_structure(d) == spec_remote_scan(d, pos as int, (real_num_entries - k) as nat),
            decreases real_num_entries - k,
        {
            if pos > MAX_ARCHIVE_SIZE {
                return Err(ZipError::Io);
            }
            let entry_header = match read_exact_at(reader, pos, 46) {
                Ok(b) => b,
                Err(e) => return Err(e),
            };
            assert(entry_header@ =~= d.subrange(pos as int, pos + 46));
            if read_le32(entry_header.as_slice(), 0) != CENTRAL_DIR_HEADER_SIGNATURE {
                return Err(ZipError::BadCentralHeader);
            }
            let compression_method = read_le16(entry_header.as_slice(), 10);
            let filename_len = read_le16(entry_header.as_slice(), 28) as u64;
            let extra_len = read_le16(entry_header.as_slice(), 30) as u64;
            let comment_len = read_le16(entry_header.as_slice(), 32) as u64;
            let next: u64 = pos + 46 + filename_len + extra_len + comment_len;
            if compression_method != 0 {
                pos = next;
                k = k + 1;
                continue;
            }
            let filename = match read_exact_at(reader, pos + 46, filename_len as usize) {
                Ok(b) => b,
                Err(e) => return Err(e),
            };
            let extra_data = match read_exact_at(reader, pos + 46 + filename_len, extra_len as usize) {
                Ok(b) => b,
                Err(e) => return Err(e),
            };
            let (local_header_offset, compressed_size) = remote_entry_fields_exec(
                entry_header.as_slice(),
                extra_data.as_slice(),
            );
            if is_payload_file_name(filename.as_slice()) {
                return Self::payload_at(reader, local_header_offset, compressed_size);
            }
            pos = next;
            k = k + 1;
        }
        Err(ZipError::PayloadNotFound)
    }

    /// Opens the payload inside the archive behind `http_reader`.
    pub fn find_payload_via_zip_structure(http_reader: R) -> (r: Result<Self, ZipError>)
        requires
            http_reader.spec_content().len() <= MAX_ARCHIVE_SIZE,
        ensures
            match r {
                Ok(z) => z.wf() && z.spec_position() == 0 && spec_find_payload_via_zip_structure(
                    http_reader.spec_content(),
                ) == Ok::<(u64, u64), ZipError>((z.spec_payload_offset(), z.spec_payload_size()))
                    && z.spec_reader() == http_reader,
                Err(e) => (is_read_failure(e) || spec_find_payload_via_zip_structure(
                    http_reader.spec_content(),
                ) == Err::<(u64, u64), ZipError>(e)) && (http_reader.spec_reliable()
                    ==> spec_find_payload_via_zip_structure(http_reader.spec_content()) == Err::<
                    (u64, u64),
                    ZipError,
                >(e)),
            },
    {
        match Self::locate_payload(&http_reader) {
            Ok((payload_offset, payload_size)) => Ok(RemoteZipReader {
                http_reader,
                payload_offset,
                payload_size,
                current_position: 0,
            }),
            Err(e) => Err(e),
        }
    }

    /// Opens the payload inside the archive behind `http_reader`, trying the
    /// OTA metadata first and the archive's structure when that fails.
    pub fn new_for_parallel(http_reader: R) -> (r: Result<Self, ZipError>)
        requires
            http_reader.spec_content().len() <= MAX_ARCHIVE_SIZE,
        ensures
            match r {
                Ok(z) => {
                    let found = (z.spec_payload_offset(), z.spec_payload_size());
                    &&& z.wf() && z.spec_position() == 0 && z.spec_reader() == http_reader
                    &&& spec_find_payload_via_metadata(http_reader.spec_content()) == Ok::<(u64, u64), ZipError>(found)
                        || spec_find_payload_via_zip_structure(http_reader.spec_content()) == Ok::<(u64, u64), ZipError>(found)
                    &&& http_reader.spec_reliable() && spec_find_payload_via_metadata(http_reader.spec_content()) is Ok
                        ==> spec_find_payload_via_metadata(http_reader.spec_content()) == Ok::<(u64, u64), ZipError>(found)
                },
                Err(e) => (is_read_failure(e) || spec_find_payload_via_zip_structure(
                    http_reader.spec_content(),
                ) == Err::<(u64, u64), ZipError>(e)) && (http_reader.spec_reliable()
                    ==> spec_find_payload_via_metadata(http_reader.spec_content()) is Err
                    && spec_find_payload_via_zip_structure(http_reader.spec_content()) == Err::<
                    (u64, u64),
                    ZipError,
                >(e)),
            },
    {
        match find_payload_via_metadata(&http_reader) {
            Ok((payload_offset, payload_size)) => {
                return Ok(RemoteZipReader { http_reader, payload_offset, payload_size, current_position: 0 });
            },
            Err(_) => {},
        }
        Self::find_payload_via_zip_structure(http_reader)
    }

    /// Reads from the current position into `buf`, at most to the end of
    /// the payload; returns how many bytes were read.
    pub fn read(&mut self, buf: &mut [u8]) -> (r: Result<usize, ZipError>)
        requires
            old(self).wf(),
        ensures
            final(self).wf(),
            final(self).spec_payload_offset() == old(self).spec_payload_offset(),
            final(self).spec_payload_size() == old(self).spec_payload_size(),
            final(buf)@.len() == old(buf)@.len(),
            match r {
                Ok(n) => {
                    &&& n as int == if old(buf)@.len() < old(self).spec_payload_size() - old(self).spec_position() {
                        old(buf)@.len() as int
                    } else {
                        old(self).spec_payload_size() - old(self).spec_position()
                    }
                    &&& final(self).spec_position() == old(self).spec_position() + n
                    &&& n > 0 ==> final(buf)@.subrange(0, n as int) =~= old(self).spec_reader().spec_content().subrange(
                        old(self).spec_payload_offset() + old(self).spec_position(),
                        old(self).spec_payload_offset() + old(self).spec_position() + n,
                    )
                    &&& final(buf)@.subrange(n as int, final(buf)@.len() as int) =~= old(buf)@.subrange(
                        n as int,
                        old(buf)@.len() as int,
                    )
                },
                Err(e) => is_read_failure(e) && final(self).spec_position() == old(self).spec_position(),
            },
    {
        if self.current_position >= self.payload_size {
            return Ok(0);
        }
        let remaining: u64 = self.payload_size - self.current_position;
        let len: usize = buf.len();
        let to_read: usize = if (len as u64) < remaining { len } else { remaining as usize };
        if to_read == 0 {
            return Ok(0);
        }
        let offset = match self.payload_offset.checked_add(self.current_position) {
            Some(o) => o,
            None => return Err(ZipError::Io),
        };
        let chunk = match read_exact_at(&self.http_reader, offset, to_read) {
            Ok(c) => c,
            Err(e) => return Err(e),
        };
        let mut i: usize = 0;
        while i < to_read
            invariant
                to_read <= len,
                len == buf@.len(),
                len == old(buf)@.len(),
                chunk@.len() == to_read,
                i <= to_read,
                forall|k: int| 0 <= k < i ==> buf@[k] == chunk@[k],
                forall|k: int| to_read <= k < len ==> buf@[k] == old(buf)@[k],
            decreases to_read - i,
        {
            buf[i] = chunk[i];
            i = i + 1;
        }
        self.current_position = self.current_position + to_read as u64;
        Ok(to_read)
    }

    /// Moves the position within the payload; positions past its end are
    /// refused.
    pub fn seek(&mut self, pos: SeekFrom) -> (r: Result<u64, SeekPastEnd>)
        requires
            old(self).wf(),
        ensures
            final(self).wf(),
            final(self).spec_payload_offset() == old(self).spec_payload_offset(),
            final(self).spec_payload_size() == old(self).spec_payload_size(),
            final(self).spec_reader() == old(self).spec_reader(),
            seek_target(pos, old(self).spec_position(), old(self).spec_payload_size())
                <= old(self).spec_payload_size() ==> r == Ok::<u64, SeekPastEnd>(
                seek_target(pos, old(self).spec_position(), old(self).spec_payload_size()),
            ) && final(self).spec_position() == seek_target(
                pos,
                old(self).spec_position(),
                old(self).spec_payload_size(),
            ),
            seek_target(pos, old(self).spec_position(), old(self).spec_payload_size())
                > old(self).spec_payload_size() ==> r is Err && final(self).spec_position() == old(
                self,
            ).spec_position(),
    {
        match resolve_seek(pos, self.current_position, self.payload_size) {
            Ok(p) => {
                self.current_position = p;
                Ok(p)
            },
            Err(e) => Err(e),
        }
    }
}

} // verus!
