//! Positioning within a bounded byte stream.
use vstd::prelude::*;

verus! {

/// Where a seek is measured from, as in `std::io::SeekFrom`.
#[derive(Debug, Clone, Copy, PartialEq, Eq, Structural)]
pub enum SeekFrom {
    Start(u64),
    End(i64),
    Current(i64),
}

/// A seek to a position past the end of the stream.
#[derive(Debug, Clone, Copy, PartialEq, Eq, Structural)]
pub struct SeekPastEnd {
    pub position: u64,
    pub size: u64,
}

pub open spec fn sat_add(a: u64, b: int) -> u64 {
    if a + b > u64::MAX { u64::MAX } else { (a + b) as u64 }
}

pub open spec fn sat_sub(a: u64, b: int) -> u64 {
    if a - b < 0 { 0 } else { (a - b) as u64 }
}

/// The position a seek aims at, with offsets added or subtracted
/// saturating at the bounds of `u64`.
pub open spec fn seek_target(pos: SeekFrom, current: u64, size: u64) -> u64 {
    match pos {
        SeekFrom::Start(o) => o,
        SeekFrom::Current(o) => if o >= 0 { sat_add(current, o as int) } else { sat_sub(current, -o) },
        SeekFrom::End(o) => if o >= 0 { sat_add(size, o as int) } else { sat_sub(size, -o) },
    }
}

/// The outcome of a seek within a stream of `size` bytes.
pub open spec fn resolve_outcome(pos: SeekFrom, current: u64, size: u64) -> Result<u64, SeekPastEnd> {
    let t = seek_target(pos, current, size);
    if t <= size {
        Ok(t)
    } else {
        Err(SeekPastEnd { position: t, size })
    }
}

/// A seek never leaves the stream: it lands within `0..=size` or is
/// refused; seeking to a position from the start lands exactly there when
/// it lies within the stream, and seeking zero bytes from the end lands at
/// the end.
pub proof fn law_seek_stays_in_stream(pos: SeekFrom, current: u64, size: u64, p: u64)
    ensures
        resolve_outcome(pos, current, size) matches Ok(t) ==> t <= size,
        p <= size ==> resolve_outcome(SeekFrom::Start(p), current, size) == Ok::<u64, SeekPastEnd>(p),
        resolve_outcome(SeekFrom::End(0), current, size) == Ok::<u64, SeekPastEnd>(size),
        current <= size ==> resolve_outcome(SeekFrom::Current(0), current, size) == Ok::<u64, SeekPastEnd>(current),
{
}

/// The magnitude of a negative offset, as an unsigned number.
fn magnitude(o: i64) -> (r: u64)
    requires
        o < 0,
    ensures
        r as int == -o,
{
    if o == i64::MIN {
        0x8000_0000_0000_0000u64
    } else {
        (-o) as u64
    }
}

/// Resolves a seek within a stream of `size` bytes: the target (saturating)
/// when it lies within `0..=size`, else an error naming it.
pub fn resolve_seek(pos: SeekFrom, current: u64, size: u64) -> (r: Result<u64, SeekPastEnd>)
    ensures
        seek_target(pos, current, size) <= size ==> r == Ok::<u64, SeekPastEnd>(
            seek_target(pos, current, size),
        ),
        seek_target(pos, current, size) > size ==> r == Err::<u64, SeekPastEnd>(
            SeekPastEnd { position: seek_target(pos, current, size), size },
        ),
{
    let new_pos: u64 = match pos {
        SeekFrom::Start(o) => o,
        SeekFrom::Current(o) => if o >= 0 {
            current.saturating_add(o as u64)
        } else {
            current.saturating_sub(magnitude(o))
        },
        SeekFrom::End(o) => if o >= 0 {
            size.saturating_add(o as u64)
        } else {
            size.saturating_sub(magnitude(o))
        },
    };
    if new_pos > size {
        return Err(SeekPastEnd { position: new_pos, size });
    }
    Ok(new_pos)
}

} // verus!
