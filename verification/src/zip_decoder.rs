//! A ZIP archive's directory held in memory, and sequential reading of the
//! payload stored in it.
use vstd::prelude::*;
use crate::seek::{resolve_seek, seek_target, SeekFrom};
use crate::zip::{spec_central_directory_info, spec_data_offset, spec_read_cd_entry, EntryView, ZipEntry, ZipParser, outcome_matches};
use crate::zip_io::{is_read_failure, read_exact_at, ZipError, ZipIO, MAX_ARCHIVE_SIZE};

verus! {

/// Outcome of reading `n` consecutive central directory entries from `pos`.
pub open spec fn spec_cd_entries(d: Seq<u8>, pos: u64, n: nat) -> Result<Seq<EntryView>, ZipError>
    decreases n,
{
    if n == 0 {
        Ok(Seq::empty())
    } else {
        match spec_read_cd_entry(d, pos as int) {
            Err(e) => Err(e),
            Ok((e, next)) => match spec_cd_entries(d, next, (n - 1) as nat) {
                Err(err) => Err(err),
                Ok(rest) => Ok(seq![e] + rest),
            },
        }
    }
}

/// Outcome of reading the whole central directory of an archive.
pub open spec fn spec_read_central_directory(d: Seq<u8>) -> Result<Seq<EntryView>, ZipError> {
    match spec_central_directory_info(d) {
        Err(e) => Err(e),
        Ok((cd, n)) => spec_cd_entries(d, cd, n as nat),
    }
}

/// The index of the last entry named `name`: a later entry of the same name
/// takes the place of an earlier one.
pub open spec fn last_named(es: Seq<EntryView>, name: Seq<char>) -> Option<int>
    decreases es.len(),
{
    if es.len() == 0 {
        None
    } else if es.last().name == name {
        Some(es.len() - 1)
    } else {
        last_named(es.drop_last(), name)
    }
}

pub open spec fn entries_view(es: Seq<ZipEntry>) -> Seq<EntryView> {
    es.map_values(|e: ZipEntry| e@)
}

fn copy_entry(e: &ZipEntry) -> (r: ZipEntry)
    ensures
        r == *e,
{
    ZipEntry {
        name: e.name.clone(),
        compressed_size: e.compressed_size,
        uncompressed_size: e.uncompressed_size,
        offset: e.offset,
        compression_method: e.compression_method,
        data_offset: e.data_offset,
    }
}

/// A ZIP archive with its central directory read.
pub struct ZipDecoder<R: ZipIO> {
    reader: R,
    entries: Vec<ZipEntry>,
}

impl<R: ZipIO> ZipDecoder<R> {
    pub closed spec fn spec_reader(&self) -> R {
        self.reader
    }

    /// The directory's entries, in the order they are recorded.
    pub closed spec fn spec_entries(&self) -> Seq<EntryView> {
        entries_view(self.entries@)
    }

    fn read_central_directory(reader: &R) -> (r: Result<Vec<ZipEntry>, ZipError>)
        requires
            reader.spec_content().len() <= MAX_ARCHIVE_SIZE,
        ensures
            match r {
                Ok(v) => spec_read_central_directory(reader.spec_content()) == Ok::<Seq<EntryView>, ZipError>(entries_view(v@)),
                Err(e) => (is_read_failure(e) || spec_read_central_directory(reader.spec_content()) == Err::<Seq<EntryView>, ZipError>(e))
                    && (reader.spec_reliable() ==> spec_read_central_directory(reader.spec_content()) == Err::<Seq<EntryView>, ZipError>(e)),
            },
    {
        let ghost d = reader.spec_content();
        let (cd_offset, num_entries) = match ZipParser::get_central_directory_info(reader) {
            Ok(v) => v,
            Err(e) => return Err(e),
        };
        let mut entries: Vec<ZipEntry> = Vec::new();
        let mut pos: u64 = cd_offset;
        let mut i: u64 = 0;
        while i < num_entries
            invariant
                d == reader.spec_content(),
                d.len() <= MAX_ARCHIVE_SIZE,
                i <= num_entries,
                spec_read_central_directory(d) == match spec_cd_entries(d, pos, (num_entries - i) as nat) {
                    Err(e) => Err(e),
                    Ok(rest) => Ok::<Seq<EntryView>, ZipError>(entries_view(entries@) + rest),
                },
            decreases num_entries - i,
        {
            let (entry, next) = match ZipParser::read_central_directory_entry(reader, pos) {
                Ok(v) => v,
                Err(e) => return Err(e),
            };
            proof {
                let rest_n = (num_entries - i - 1) as nat;
                assert(entries_view(entries@.push(entry)) =~= entries_view(entries@) + seq![entry@]);
                match spec_cd_entries(d, next, rest_n) {
                    Err(_) => {},
                    Ok(rest) => {
                        assert(entries_view(entries@) + (seq![entry@] + rest) =~= entries_view(entries@.push(entry)) + rest);
                    },
                }
            }
            entries.push(entry);
            pos = next;
            i = i + 1;
        }
        assert(entries_view(entries@) + Seq::<EntryView>::empty() =~= entries_view(entries@));
        Ok(entries)
    }

    /// Reads the archive's central directory.
    pub fn new(reader: R) -> (r: Result<Self, ZipError>)
        requires
            reader.spec_content().len() <= MAX_ARCHIVE_SIZE,
        ensures
            match r {
                Ok(dec) => dec.spec_reader() == reader && spec_read_central_directory(reader.spec_content()) == Ok::<Seq<EntryView>, ZipError>(dec.spec_entries()),
                Err(e) => (is_read_failure(e) || spec_read_central_directory(reader.spec_content()) == Err::<Seq<EntryView>, ZipError>(e))
                    && (reader.spec_reliable() ==> spec_read_central_directory(reader.spec_content()) == Err::<Seq<EntryView>, ZipError>(e)),
            },
    {
        match Self::read_central_directory(&reader) {
            Ok(entries) => Ok(ZipDecoder { reader, entries }),
            Err(e) => Err(e),
        }
    }

    /// The entry recorded under `name`; when several are, the last one.
    pub fn get_entry(&self, name: &str) -> (r: Option<&ZipEntry>)
        ensures
            match last_named(self.spec_entries(), name@) {
                Some(i) => r is Some && r.unwrap()@ == self.spec_entries()[i],
                None => r is None,
            },
    {
        let wanted = name.to_owned();
        let mut i: usize = self.entries.len();
        assert(self.spec_entries().subrange(0, i as int) =~= self.spec_entries());
        while i > 0
            invariant
                i <= self.entries@.len(),
                self.spec_entries().len() == self.entries@.len(),
                wanted@ == name@,
                last_named(self.spec_entries(), name@) == last_named(self.spec_entries().subrange(0, i as int), name@),
            decreases i,
        {
            let ghost es = self.spec_entries().subrange(0, i as int);
            assert(es.drop_last() =~= self.spec_entries().subrange(0, i - 1));
            if self.entries[i - 1].name == wanted {
                return Some(&self.entries[i - 1]);
            }
            i = i - 1;
        }
        None
    }

    /// The offset of an entry's data in the archive, read from its local header.
    pub fn get_data_offset(&mut self, entry: &ZipEntry) -> (r: Result<u64, ZipError>)
        requires
            old(self).spec_reader().spec_content().len() <= MAX_ARCHIVE_SIZE,
        ensures
            *final(self) == *old(self),
            outcome_matches(r, spec_data_offset(old(self).spec_reader().spec_content(), entry.offset), old(self).spec_reader().spec_reliable()),
    {
        ZipParser::get_data_offset(&self.reader, entry)
    }
}

// ---------------------------------------------------------------------------
// Reading the payload sequentially

/// Reads the payload of a ZIP archive as a stream of its own.
pub struct ZipPayloadReader<R: ZipIO> {
    decoder: ZipDecoder<R>,
    current_entry: Option<ZipEntry>,
    current_position: u64,
}

/// The name the payload is stored under.
pub open spec fn payload_entry_name() -> Seq<char> {
    "payload.bin"@
}

/// The payload's entry as loading finds it: the last entry named
/// `payload.bin`, with the offset of its data read from its local header.
pub open spec fn payload_entry_of<R: ZipIO>(dec: ZipDecoder<R>) -> Result<EntryView, ZipError> {
    match last_named(dec.spec_entries(), payload_entry_name()) {
        None => Err(ZipError::PayloadNotFound),
        Some(i) => {
            let e = dec.spec_entries()[i];
            match spec_data_offset(dec.spec_reader().spec_content(), e.offset) {
                Ok(o) => Ok(EntryView { data_offset: o, ..e }),
                Err(x) => Err(x),
            }
        },
    }
}

/// The entry a read or seek works on: the loaded one, else the one loading
/// finds.
pub open spec fn entry_in_use<R: ZipIO>(z: ZipPayloadReader<R>) -> Result<EntryView, ZipError> {
    match z.spec_entry() {
        Some(e) => Ok(e),
        None => payload_entry_of(z.spec_decoder()),
    }
}

/// The position a read or seek starts from: the current one once the entry
/// is loaded, else the payload's start.
pub open spec fn start_position<R: ZipIO>(z: ZipPayloadReader<R>) -> u64 {
    if z.spec_entry() is Some { z.spec_position() } else { 0 }
}

/// A seek's target can be computed without leaving 64-bit range.
pub open spec fn seek_in_range(pos: SeekFrom, current: u64, size: u64) -> bool {
    match pos {
        SeekFrom::Start(_) => true,
        SeekFrom::Current(o) => o >= 0 ==> current + o <= u64::MAX,
        SeekFrom::End(o) => o >= 0 ==> size + o <= u64::MAX,
    }
}

impl<R: ZipIO> ZipPayloadReader<R> {
    pub closed spec fn spec_decoder(&self) -> ZipDecoder<R> {
        self.decoder
    }

    /// The payload's entry, with its data offset filled in, once loaded.
    pub closed spec fn spec_entry(&self) -> Option<EntryView> {
        match self.current_entry {
            Some(e) => Some(e@),
            None => None,
        }
    }

    pub closed spec fn spec_position(&self) -> u64 {
        self.current_position
    }

    /// The position never passes the end of the loaded payload.
    pub closed spec fn wf(&self) -> bool {
        match self.current_entry {
            Some(e) => self.current_position <= e.uncompressed_size,
            None => self.current_position == 0,
        }
    }

    /// Reads the archive's directory; the payload is looked up on first use.
    pub fn new(reader: R) -> (r: Result<Self, ZipError>)
        requires
            reader.spec_content().len() <= MAX_ARCHIVE_SIZE,
        ensures
            match r {
                Ok(z) => z.wf() && z.spec_decoder().spec_reader() == reader && z.spec_entry() is None && spec_read_central_directory(reader.spec_content()) == Ok::<Seq<EntryView>, ZipError>(z.spec_decoder().spec_entries()),
                Err(e) => (is_read_failure(e) || spec_read_central_directory(reader.spec_content()) == Err::<Seq<EntryView>, ZipError>(e))
                    && (reader.spec_reliable() ==> spec_read_central_directory(reader.spec_content()) == Err::<Seq<EntryView>, ZipError>(e)),
            },
    {
        match ZipDecoder::new(reader) {
            Ok(decoder) => Ok(ZipPayloadReader { decoder, current_entry: None, current_position: 0 }),
            Err(e) => Err(e),
        }
    }

    /// Looks up the entry named `payload.bin` and the offset of its data,
    /// and moves to the start of the payload.
    pub fn load_payload_entry(&mut self) -> (r: Result<(), ZipError>)
        requires
            old(self).spec_decoder().spec_reader().spec_content().len() <= MAX_ARCHIVE_SIZE,
            old(self).wf(),
        ensures
            final(self).wf(),
            final(self).spec_decoder() == old(self).spec_decoder(),
            match r {
                Ok(()) => payload_entry_of(old(self).spec_decoder()) is Ok && final(self).spec_entry() == Some(
                    payload_entry_of(old(self).spec_decoder())->Ok_0,
                ) && final(self).spec_position() == 0,
                Err(e) => *final(self) == *old(self) && (is_read_failure(e) || payload_entry_of(old(self).spec_decoder())
                    == Err::<EntryView, ZipError>(e)) && (old(self).spec_decoder().spec_reader().spec_reliable()
                    ==> payload_entry_of(old(self).spec_decoder()) == Err::<EntryView, ZipError>(e)),
            },
    {
        let found = match self.decoder.get_entry("payload.bin") {
            Some(entry) => Some(copy_entry(entry)),
            None => None,
        };
        proof { reveal_strlit("payload.bin"); }
        match found {
            None => Err(ZipError::PayloadNotFound),
            Some(mut entry) => {
                let data_offset = match self.decoder.get_data_offset(&entry) {
                    Ok(v) => v,
                    Err(e) => return Err(e),
                };
                entry.data_offset = data_offset;
                self.current_entry = Some(entry);
                self.current_position = 0;
                Ok(())
            },
        }
    }

    fn ensure_loaded(&mut self) -> (r: Result<(), ZipError>)
        requires
            old(self).spec_decoder().spec_reader().spec_content().len() <= MAX_ARCHIVE_SIZE,
            old(self).wf(),
        ensures
            final(self).wf(),
            final(self).spec_decoder() == old(self).spec_decoder(),
            old(self).spec_entry() is Some ==> *final(self) == *old(self) && r is Ok,
            match r {
                Ok(()) => entry_in_use(*old(self)) is Ok && final(self).spec_entry() == Some(entry_in_use(*old(self))->Ok_0)
                    && final(self).spec_position() == start_position(*old(self)),
                Err(e) => *final(self) == *old(self) && old(self).spec_entry() is None && (is_read_failure(e)
                    || payload_entry_of(old(self).spec_decoder()) == Err::<EntryView, ZipError>(e)) && (
                old(self).spec_decoder().spec_reader().spec_reliable() ==> payload_entry_of(old(self).spec_decoder())
                    == Err::<EntryView, ZipError>(e)),
            },
    {
        if self.current_entry.is_some() {
            return Ok(());
        }
        self.load_payload_entry()
    }

    /// Reads from the current position into `buf`, at most to the end of the
    /// payload, loading the payload's entry first when needed; returns how
    /// many bytes were read.
    pub fn read(&mut self, buf: &mut [u8]) -> (r: Result<usize, ZipError>)
        requires
            old(self).spec_decoder().spec_reader().spec_content().len() <= MAX_ARCHIVE_SIZE,
            old(self).wf(),
        ensures
            final(self).wf(),
            final(self).spec_decoder() == old(self).spec_decoder(),
            final(buf)@.len() == old(buf)@.len(),
            match r {
                Ok(n) => {
                    let e = entry_in_use(*old(self))->Ok_0;
                    let p0 = start_position(*old(self));
                    &&& entry_in_use(*old(self)) is Ok
                    &&& final(self).spec_entry() == Some(e)
                    &&& n as int == if p0 >= e.uncompressed_size {
                        0
                    } else if old(buf)@.len() < e.uncompressed_size - p0 {
                        old(buf)@.len() as int
                    } else {
                        e.uncompressed_size - p0
                    }
                    &&& final(self).spec_position() == p0 + n
                    &&& n > 0 ==> final(buf)@.subrange(0, n as int) == old(self).spec_decoder().spec_reader().spec_content().subrange(
                        e.data_offset + p0,
                        e.data_offset + p0 + n,
                    )
                    &&& final(buf)@.subrange(n as int, final(buf)@.len() as int) == old(buf)@.subrange(n as int, old(buf)@.len() as int)
                },
                Err(x) => (is_read_failure(x) || entry_in_use(*old(self)) == Err::<EntryView, ZipError>(x))
                    && (old(self).spec_entry() is Some ==> *final(self) == *old(self)),
            },
    {
        match self.ensure_loaded() {
            Ok(()) => {},
            Err(e) => return Err(e),
        }
        let size = match &self.current_entry {
            Some(e) => e.uncompressed_size,
            None => 0,
        };
        let base = match &self.current_entry {
            Some(e) => e.data_offset,
            None => 0,
        };
        if self.current_position >= size {
            return Ok(0);
        }
        let remaining: u64 = size - self.current_position;
        let len: usize = buf.len();
        let to_read: usize = if (len as u64) < remaining { len } else { remaining as usize };
        if to_read == 0 {
            return Ok(0);
        }
        let file_position = match base.checked_add(self.current_position) {
            Some(o) => o,
            None => return Err(ZipError::Io),
        };
        let chunk = match read_exact_at(&self.decoder.reader, file_position, to_read) {
            Ok(c) => c,
            Err(e) => return Err(e),
        };
        let mut i: usize = 0;
        while i < to_read
            invariant
                to_read <= len,
                len == buf@.len(),
                len == old(buf)@.len(),
                chunk@.len() == to_read,
                i <= to_read,
                forall|k: int| 0 <= k < i ==> buf@[k] == chunk@[k],
                forall|k: int| to_read <= k < len ==> buf@[k] == old(buf)@[k],
            decreases to_read - i,
        {
            buf[i] = chunk[i];
            i = i + 1;
        }
        assert(buf@.subrange(0, to_read as int) =~= chunk@);
        assert(buf@.subrange(to_read as int, len as int) =~= old(buf)@.subrange(to_read as int, len as int));
        self.current_position = self.current_position + to_read as u64;
        Ok(to_read)
    }

    /// Moves the position within the payload, loading the payload's entry
    /// first when needed; positions past its end are refused.
    pub fn seek(&mut self, pos: SeekFrom) -> (r: Result<u64, ZipError>)
        requires
            old(self).spec_decoder().spec_reader().spec_content().len() <= MAX_ARCHIVE_SIZE,
            old(self).wf(),
            entry_in_use(*old(self)) is Ok ==> seek_in_range(pos, start_position(*old(self)), entry_in_use(*old(self))->Ok_0.uncompressed_size),
        ensures
            final(self).wf(),
            final(self).spec_decoder() == old(self).spec_decoder(),
            match r {
                Ok(p) => {
                    let e = entry_in_use(*old(self))->Ok_0;
                    &&& entry_in_use(*old(self)) is Ok
                    &&& final(self).spec_entry() == Some(e)
                    &&& p == seek_target(pos, start_position(*old(self)), e.uncompressed_size)
                    &&& p <= e.uncompressed_size
                    &&& final(self).spec_position() == p
                },
                Err(x) => (is_read_failure(x) || entry_in_use(*old(self)) == Err::<EntryView, ZipError>(x) || (
                    entry_in_use(*old(self)) is Ok && x == ZipError::SeekPastEnd && seek_target(
                        pos,
                        start_position(*old(self)),
                        entry_in_use(*old(self))->Ok_0.uncompressed_size,
                    ) > entry_in_use(*old(self))->Ok_0.uncompressed_size && final(self).spec_position()
                        == start_position(*old(self)))) && (old(self).spec_entry() is Some ==> *final(self)
                    == *old(self)),
            },
    {
        match self.ensure_loaded() {
            Ok(()) => {},
            Err(e) => return Err(e),
        }
        let size = match &self.current_entry {
            Some(e) => e.uncompressed_size,
            None => 0,
        };
        match resolve_seek(pos, self.current_position, size) {
            Ok(p) => {
                self.current_position = p;
                Ok(p)
            },
            Err(_) => Err(ZipError::SeekPastEnd),
        }
    }
}

// ---------------------------------------------------------------------------
// Positioned reads of the payload

/// The payload's entry as a shared reader finds it: the central directory is
/// read whole, the last entry named `payload.bin` is taken, and the offset of
/// its data is read from its local header.
pub open spec fn spec_shared_payload_entry(d: Seq<u8>) -> Result<EntryView, ZipError> {
    match spec_read_central_directory(d) {
        Err(e) => Err(e),
        Ok(es) => match last_named(es, payload_entry_name()) {
            None => Err(ZipError::PayloadNotFound),
            Some(i) => match spec_data_offset(d, es[i].offset) {
                Ok(o) => Ok(EntryView { data_offset: o, ..es[i] }),
                Err(e) => Err(e),
            },
        },
    }
}

/// Reads the payload of a ZIP archive at given offsets, without a position.
pub struct SharedZipPayloadReader<R: ZipIO> {
    file: R,
    payload_entry: ZipEntry,
}

impl<R: ZipIO> SharedZipPayloadReader<R> {
    pub closed spec fn spec_file(&self) -> R {
        self.file
    }

    pub closed spec fn spec_entry(&self) -> EntryView {
        self.payload_entry@
    }

    /// Finds the payload in the archive behind `file`.
    pub fn new(file: R) -> (r: Result<Self, ZipError>)
        requires
            file.spec_content().len() <= MAX_ARCHIVE_SIZE,
        ensures
            match r {
                Ok(z) => z.spec_file() == file && spec_shared_payload_entry(file.spec_content()) == Ok::<EntryView, ZipError>(z.spec_entry()),
                Err(e) => (is_read_failure(e) || spec_shared_payload_entry(file.spec_content()) == Err::<EntryView, ZipError>(e))
                    && (file.spec_reliable() ==> spec_shared_payload_entry(file.spec_content()) == Err::<EntryView, ZipError>(e)),
            },
    {
        let decoder = match ZipDecoder::new(file) {
            Ok(d) => d,
            Err(e) => return Err(e),
        };
        let found = match decoder.get_entry("payload.bin") {
            Some(entry) => Some(copy_entry(entry)),
            None => None,
        };
        proof { reveal_strlit("payload.bin"); }
        let mut entry = match found {
            Some(e) => e,
            None => return Err(ZipError::PayloadNotFound),
        };
        let data_offset = match ZipParser::get_data_offset(&decoder.reader, &entry) {
            Ok(v) => v,
            Err(e) => return Err(e),
        };
        entry.data_offset = data_offset;
        Ok(SharedZipPayloadReader { file: decoder.reader, payload_entry: entry })
    }

    /// Reads into `buf` the payload bytes from `offset` on, as many as fit
    /// and remain; returns how many were read.
    pub fn read_at_payload(&self, offset: u64, buf: &mut [u8]) -> (r: Result<usize, ZipError>)
        ensures
            final(buf)@.len() == old(buf)@.len(),
            match r {
                Ok(n) => {
                    let e = self.spec_entry();
                    &&& n as int == if offset >= e.uncompressed_size {
                        0
                    } else if old(buf)@.len() < e.uncompressed_size - offset {
                        old(buf)@.len() as int
                    } else {
                        e.uncompressed_size - offset
                    }
                    &&& n > 0 ==> final(buf)@.subrange(0, n as int) == self.spec_file().spec_content().subrange(
                        e.data_offset + offset,
                        e.data_offset + offset + n,
                    )
                    &&& final(buf)@.subrange(n as int, final(buf)@.len() as int) == old(buf)@.subrange(n as int, old(buf)@.len() as int)
                },
                Err(x) => is_read_failure(x),
            },
    {
        let size = self.payload_entry.uncompressed_size;
        if offset >= size {
            assert(buf@.subrange(0, buf@.len() as int) =~= old(buf)@);
            return Ok(0);
        }
        let remaining: u64 = size - offset;
        let len: usize = buf.len();
        let to_read: usize = if (len as u64) < remaining { len } else { remaining as usize };
        if to_read == 0 {
            assert(buf@.subrange(0, buf@.len() as int) =~= old(buf)@);
            return Ok(0);
        }
        let file_position = match self.payload_entry.data_offset.checked_add(offset) {
            Some(o) => o,
            None => return Err(ZipError::Io),
        };
        let chunk = match read_exact_at(&self.file, file_position, to_read) {
            Ok(c) => c,
            Err(e) => return Err(e),
        };
        let mut i: usize = 0;
        while i < to_read
            invariant
                to_read <= len,
                len == buf@.len(),
                len == old(buf)@.len(),
                chunk@.len() == to_read,
                i <= to_read,
                forall|k: int| 0 <= k < i ==> buf@[k] == chunk@[k],
                forall|k: int| to_read <= k < len ==> buf@[k] == old(buf)@[k],
            decreases to_read - i,
        {
            buf[i] = chunk[i];
            i = i + 1;
        }
        assert(buf@.subrange(0, to_read as int) =~= chunk@);
        assert(buf@.subrange(to_read as int, len as int) =~= old(buf)@.subrange(to_read as int, len as int));
        Ok(to_read)
    }

    /// Fills `buf` with the payload bytes at `offset`; a read that runs past
    /// the payload's end fails.
    pub fn read_data_at(&self, offset: u64, buf: &mut [u8]) -> (r: Result<(), ZipError>)
        ensures
            final(buf)@.len() == old(buf)@.len(),
            match r {
                Ok(()) => old(buf)@.len() == 0 || (offset + old(buf)@.len() <= self.spec_entry().uncompressed_size
                    && final(buf)@ == self.spec_file().spec_content().subrange(
                    self.spec_entry().data_offset + offset,
                    self.spec_entry().data_offset + offset + old(buf)@.len(),
                )),
                Err(x) => is_read_failure(x) || (x == ZipError::UnexpectedEof && offset + old(buf)@.len()
                    > self.spec_entry().uncompressed_size),
            },
    {
        let len = buf.len();
        if len == 0 {
            return Ok(());
        }
        let n = match self.read_at_payload(offset, buf) {
            Ok(n) => n,
            Err(e) => return Err(e),
        };
        if n < len {
            return Err(ZipError::UnexpectedEof);
        }
        assert(buf@ =~= buf@.subrange(0, n as int));
        Ok(())
    }
}

} // verus!
