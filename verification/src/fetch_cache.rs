//! The parts of a remote archive fetched so far, as a byte source: reads of
//! fetched bytes succeed, other reads name the range that is still missing,
//! so that a caller can fetch it and try again.
use vstd::prelude::*;
use crate::zip_io::{ZipError, ZipIO};

verus! {

/// A fetched run of the archive: `bytes` starting at offset `start`.
pub struct Region {
    pub start: u64,
    pub bytes: Vec<u8>,
}

pub open spec fn covers(r: Region, i: int) -> bool {
    r.start <= i < r.start + r.bytes@.len()
}

/// The first region, from index `k` on, that holds byte `i`.
pub open spec fn first_covering(regions: Seq<Region>, i: int, k: int) -> Option<int>
    decreases regions.len() - k,
{
    if k < 0 || k >= regions.len() {
        None
    } else if covers(regions[k], i) {
        Some(k)
    } else {
        first_covering(regions, i, k + 1)
    }
}

/// Byte `i` as the regions give it (the first region holding it wins), zero
/// where none does.
pub open spec fn byte_at(regions: Seq<Region>, i: int) -> u8 {
    match first_covering(regions, i, 0) {
        Some(k) => regions[k].bytes@[i - regions[k].start],
        None => 0,
    }
}

/// An archive of `total` bytes of which some regions have been fetched.
pub struct FetchCache {
    total: u64,
    regions: Vec<Region>,
}

impl FetchCache {
    pub closed spec fn spec_total(&self) -> u64 {
        self.total
    }

    pub closed spec fn spec_regions(&self) -> Seq<Region> {
        self.regions@
    }

    /// An archive of `total` bytes with nothing fetched yet.
    pub fn new(total: u64) -> (r: Self)
        ensures
            r.spec_total() == total,
            r.spec_regions().len() == 0,
    {
        FetchCache { total, regions: Vec::new() }
    }

    /// Records fetched bytes; bytes fetched earlier keep precedence where the
    /// two overlap.
    pub fn add(&mut self, start: u64, bytes: Vec<u8>)
        ensures
            final(self).spec_total() == old(self).spec_total(),
            final(self).spec_regions() == old(self).spec_regions().push(Region { start, bytes }),
    {
        self.regions.push(Region { start, bytes });
    }

    fn find_region(&self, pos: u64) -> (r: Option<usize>)
        ensures
            match r {
                Some(k) => first_covering(self.regions@, pos as int, 0) == Some(k as int) && k < self.regions@.len()
                    && covers(self.regions@[k as int], pos as int),
                None => first_covering(self.regions@, pos as int, 0) is None,
            },
    {
        let mut k: usize = 0;
        while k < self.regions.len()
            invariant
                k <= self.regions@.len(),
                first_covering(self.regions@, pos as int, 0) == first_covering(self.regions@, pos as int, k as int),
            decreases self.regions@.len() - k,
        {
            let r = &self.regions[k];
            if r.start <= pos && ((pos - r.start) as usize) < r.bytes.len() && pos - r.start < r.bytes.len() as u64 {
                return Some(k);
            }
            k = k + 1;
        }
        None
    }
}

impl ZipIO for FetchCache {
    open spec fn spec_content(&self) -> Seq<u8> {
        Seq::new(self.spec_total() as nat, |i: int| byte_at(self.spec_regions(), i))
    }

    open spec fn spec_reliable(&self) -> bool {
        false
    }

    fn read_at(&self, offset: u64, buf: &mut [u8]) -> (r: Result<(), ZipError>) {
        let len: usize = buf.len();
        if offset > self.total || (len as u64) > self.total - offset {
            return Err(ZipError::Io);
        }
        let mut j: usize = 0;
        while j < len
            invariant
                len == old(buf)@.len(),
                buf@.len() == len,
                offset + len <= self.total,
                j <= len,
                forall|k: int| 0 <= k < j ==> buf@[k] == byte_at(self.regions@, offset + k),
            decreases len - j,
        {
            let pos = offset + j as u64;
            match self.find_region(pos) {
                None => {
                    return Err(ZipError::NotFetched { offset, len: len as u64 });
                },
                Some(k) => {
                    let start = self.regions[k].start;
                    let n = self.regions[k].bytes.len();
                    assert((pos - start) < n);
                    let idx: usize = (pos - start) as usize;
                    buf[j] = self.regions[k].bytes[idx];
                    assert(buf@[j as int] == byte_at(self.regions@, offset + j));
                },
            }
            j = j + 1;
        }
        assert(buf@ =~= self.spec_content().subrange(offset as int, offset + len));
        Ok(())
    }

    fn size(&self) -> (r: Result<u64, ZipError>) {
        Ok(self.total)
    }
}

} // verus!
