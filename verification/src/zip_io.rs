//! The byte sources a ZIP archive can be parsed from.
use vstd::prelude::*;
use crate::seek::{resolve_outcome, resolve_seek, SeekFrom, SeekPastEnd};

verus! {

/// Largest archive size the parsers accept: the largest file offset a seek
/// can reach (file offsets are signed 64-bit numbers). Positions computed
/// from header fields, at most a few hundred kilobytes past a valid offset,
/// then stay below `u64::MAX`.
pub const MAX_ARCHIVE_SIZE: u64 = 0x7FFF_FFFF_FFFF_FFFF;

/// Why reading or parsing an archive failed.
#[derive(Debug, Clone, Copy, PartialEq, Eq, Structural)]
pub enum ZipError {
    /// The source could not deliver the requested bytes (I/O failure or a
    /// read past the end of the source).
    Io,
    EocdNotFound,
    Zip64Invalid,
    Zip64LocatorNotFound,
    Zip64BadSignature,
    BadCentralHeader,
    EntryTruncated,
    FilenameTruncated,
    ExtraTruncated,
    PayloadNotFound,
    BadLocalHeader,
    PayloadCompressed,
    BadPayloadMagic,
    /// A seek aimed past the end of the payload.
    SeekPastEnd,
    /// The bytes `offset..offset + len` are not at hand yet: the source holds
    /// only the parts of a remote archive fetched so far.
    NotFetched { offset: u64, len: u64 },
    /// The payload ends before the requested bytes.
    UnexpectedEof,
    /// The OTA metadata records no usable payload location.
    MetadataNotFound,
    /// A value in the OTA metadata is not valid text.
    MetadataNotText,
}

/// An error that says nothing of the archive, only that bytes could not be
/// read.
pub open spec fn is_read_failure(e: ZipError) -> bool {
    e == ZipError::Io || e is NotFetched
}

/// A random-access byte source (a local file, an HTTP resource, memory).
///
/// `spec_content` is the sequence of bytes the source stands for.
/// `spec_reliable` says that every in-range read succeeds (true of memory,
/// not promised by files or networks).
pub trait ZipIO {
    spec fn spec_content(&self) -> Seq<u8>;

    spec fn spec_reliable(&self) -> bool;

    /// Fills `buf` with the bytes at `offset..offset + buf.len()`.
    fn read_at(&self, offset: u64, buf: &mut [u8]) -> (r: Result<(), ZipError>)
        ensures
            final(buf)@.len() == old(buf)@.len(),
            r is Ok ==> offset + old(buf)@.len() <= self.spec_content().len() && final(buf)@
                =~= self.spec_content().subrange(offset as int, offset + old(buf)@.len()),
            r matches Err(e) ==> is_read_failure(e) && (self.spec_reliable() ==> e == ZipError::Io),
            self.spec_reliable() && offset + old(buf)@.len() <= self.spec_content().len() ==> r is Ok,
    ;

    /// Total number of bytes in the source.
    fn size(&self) -> (r: Result<u64, ZipError>)
        ensures
            r matches Ok(n) ==> n == self.spec_content().len(),
            r matches Err(e) ==> is_read_failure(e),
            self.spec_reliable() ==> r is Ok,
    ;
}

/// A byte source that may also hand out direct views of its memory.
pub trait AdvancedReader: ZipIO {
    spec fn spec_zero_copy(&self) -> bool;

    /// A source that hands out views of its memory reads from that memory,
    /// so its in-range reads cannot fail.
    proof fn lemma_zero_copy_reliable(&self)
        ensures
            self.spec_zero_copy() ==> self.spec_reliable(),
    ;

    /// Whether `get_slice` can return views.
    fn supports_zero_copy(&self) -> (r: bool)
        ensures
            r == self.spec_zero_copy(),
    ;

    /// A view of `pos..pos + len`, available only from zero-copy sources and
    /// only when `pos` lies inside the source and the range ends inside it.
    fn get_slice(&self, pos: u64, len: usize) -> (r: Option<&[u8]>)
        ensures
            r is Some <==> self.spec_zero_copy() && pos < self.spec_content().len() && pos + len
                <= self.spec_content().len(),
            r matches Some(s) ==> s@ =~= self.spec_content().subrange(pos as int, pos + len),
    ;
}

/// Size above which a local archive is memory-mapped rather than read.
pub const MMAP_THRESHOLD: u64 = 10485760;

/// Whether a local file of `file_size` bytes is read through a memory map.
pub fn prefers_memory_map(file_size: u64) -> (r: bool)
    ensures
        r == (file_size > MMAP_THRESHOLD),
{
    file_size > MMAP_THRESHOLD
}

/// Reads `len` bytes at `offset` into a fresh vector.
pub fn read_exact_at<R: ZipIO>(reader: &R, offset: u64, len: usize) -> (r: Result<Vec<u8>, ZipError>)
    ensures
        r matches Ok(v) ==> offset + len <= reader.spec_content().len() && v@
            =~= reader.spec_content().subrange(offset as int, offset + len),
        r matches Err(e) ==> is_read_failure(e) && (reader.spec_reliable() ==> e == ZipError::Io),
        reader.spec_reliable() && offset + len <= reader.spec_content().len() ==> r is Ok,
{
    let mut buf: Vec<u8> = vec![0u8; len];
    let res = reader.read_at(offset, buf.as_mut_slice());
    match res {
        Ok(()) => Ok(buf),
        Err(e) => Err(e),
    }
}

/// A byte source over memory, such as a memory-mapped file.
pub struct SliceReader<'a> {
    data: &'a [u8],
    position: u64,
}

impl<'a> SliceReader<'a> {
    pub closed spec fn spec_data(&self) -> Seq<u8> {
        self.data@
    }

    pub closed spec fn spec_position(&self) -> u64 {
        self.position
    }

    pub fn new(data: &'a [u8]) -> (r: Self)
        ensures
            r.spec_data() == data@,
            r.spec_position() == 0,
    {
        SliceReader { data, position: 0 }
    }

    /// Copies bytes from the current position into `buf`, as many as fit and
    /// remain, and advances past them; returns how many were copied (0 at or
    /// past the end).
    pub fn read(&mut self, buf: &mut [u8]) -> (r: usize)
        ensures
            final(self).spec_data() == old(self).spec_data(),
            final(buf)@.len() == old(buf)@.len(),
            r as int == if old(self).spec_position() >= old(self).spec_data().len() {
                0
            } else if old(buf)@.len() < old(self).spec_data().len() - old(self).spec_position() {
                old(buf)@.len() as int
            } else {
                old(self).spec_data().len() - old(self).spec_position()
            },
            final(self).spec_position() == old(self).spec_position() + r,
            r > 0 ==> final(buf)@.subrange(0, r as int) == old(self).spec_data().subrange(
                old(self).spec_position() as int,
                old(self).spec_position() + r,
            ),
            final(buf)@.subrange(r as int, final(buf)@.len() as int) == old(buf)@.subrange(r as int, old(buf)@.len() as int),
    {
        let n: usize = self.data.len();
        if self.position >= n as u64 {
            assert(buf@.subrange(0, buf@.len() as int) =~= old(buf)@);
            return 0;
        }
        let start: usize = self.position as usize;
        let len: usize = buf.len();
        let count: usize = if len < n - start { len } else { n - start };
        let mut i: usize = 0;
        while i < count
            invariant
                n == self.data@.len(),
                len == old(buf)@.len(),
                buf@.len() == len,
                count <= len,
                start + count <= n,
                i <= count,
                forall|k: int| 0 <= k < i ==> buf@[k] == self.data@[start + k],
                forall|k: int| count <= k < len ==> buf@[k] == old(buf)@[k],
            decreases count - i,
        {
            buf[i] = self.data[start + i];
            i = i + 1;
        }
        assert(buf@.subrange(0, count as int) =~= self.data@.subrange(start as int, start + count));
        assert(buf@.subrange(count as int, len as int) =~= old(buf)@.subrange(count as int, len as int));
        self.position = self.position + count as u64;
        count
    }

    /// Copies bytes from position `pos` into `buf`, as many as fit and remain,
    /// leaving the current position alone; returns how many were copied.
    pub fn read_at_most(&self, pos: u64, buf: &mut [u8]) -> (r: usize)
        ensures
            final(buf)@.len() == old(buf)@.len(),
            r as int == if pos >= self.spec_data().len() {
                0
            } else if old(buf)@.len() < self.spec_data().len() - pos {
                old(buf)@.len() as int
            } else {
                self.spec_data().len() - pos
            },
            r > 0 ==> final(buf)@.subrange(0, r as int) == self.spec_data().subrange(pos as int, pos + r),
            final(buf)@.subrange(r as int, final(buf)@.len() as int) == old(buf)@.subrange(r as int, old(buf)@.len() as int),
    {
        let n: usize = self.data.len();
        if pos >= n as u64 {
            assert(buf@.subrange(0, buf@.len() as int) =~= old(buf)@);
            return 0;
        }
        let start: usize = pos as usize;
        let len: usize = buf.len();
        let count: usize = if len < n - start { len } else { n - start };
        let mut i: usize = 0;
        while i < count
            invariant
                n == self.data@.len(),
                len == old(buf)@.len(),
                buf@.len() == len,
                count <= len,
                start + count <= n,
                i <= count,
                forall|k: int| 0 <= k < i ==> buf@[k] == self.data@[start + k],
                forall|k: int| count <= k < len ==> buf@[k] == old(buf)@[k],
            decreases count - i,
        {
            buf[i] = self.data[start + i];
            i = i + 1;
        }
        assert(buf@.subrange(0, count as int) =~= self.data@.subrange(start as int, start + count));
        assert(buf@.subrange(count as int, len as int) =~= old(buf)@.subrange(count as int, len as int));
        count
    }

    /// Moves the position, as `std::io::Seek` would; positions past the end
    /// are refused and leave the position as it was.
    pub fn seek(&mut self, pos: SeekFrom) -> (r: Result<u64, SeekPastEnd>)
        ensures
            final(self).spec_data() == old(self).spec_data(),
            r == resolve_outcome(pos, old(self).spec_position(), old(self).spec_data().len() as u64),
            final(self).spec_position() == match r {
                Ok(p) => p,
                Err(_) => old(self).spec_position(),
            },
    {
        let size = self.data.len() as u64;
        match resolve_seek(pos, self.position, size) {
            Ok(p) => {
                self.position = p;
                Ok(p)
            },
            Err(e) => Err(e),
        }
    }
}

impl<'a> ZipIO for SliceReader<'a> {
    open spec fn spec_content(&self) -> Seq<u8> {
        self.spec_data()
    }

    open spec fn spec_reliable(&self) -> bool {
        true
    }

    fn read_at(&self, offset: u64, buf: &mut [u8]) -> (r: Result<(), ZipError>) {
        let n: usize = self.data.len();
        let len: usize = buf.len();
        if offset > n as u64 || len > n - (offset as usize) {
            return Err(ZipError::Io);
        }
        let start: usize = offset as usize;
        let mut i: usize = 0;
        while i < len
            invariant
                n == self.data@.len(),
                len == old(buf)@.len(),
                buf@.len() == len,
                start + len <= n,
                start == offset,
                i <= len,
                forall|k: int| 0 <= k < i ==> buf@[k] == self.data@[start + k],
            decreases len - i,
        {
            buf[i] = self.data[start + i];
            i = i + 1;
        }
        Ok(())
    }

    fn size(&self) -> (r: Result<u64, ZipError>) {
        Ok(self.data.len() as u64)
    }
}

impl<'a> AdvancedReader for SliceReader<'a> {
    open spec fn spec_zero_copy(&self) -> bool {
        true
    }

    proof fn lemma_zero_copy_reliable(&self) {
    }

    fn supports_zero_copy(&self) -> (r: bool) {
        true
    }

    fn get_slice(&self, pos: u64, len: usize) -> (r: Option<&[u8]>) {
        let n: usize = self.data.len();
        if pos < n as u64 && len <= n - (pos as usize) {
            let start: usize = pos as usize;
            Some(vstd::slice::slice_subrange(self.data, start, start + len))
        } else {
            None
        }
    }
}

} // verus!
