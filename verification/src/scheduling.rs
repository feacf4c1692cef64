//! How partitions are spread over workers and retried: whether extraction
//! runs in parallel, how many partitions each worker takes, and how long to
//! wait before trying a failed partition again.
use vstd::prelude::*;
use crate::utils::pow2;

verus! {

/// Attempts made for one partition in parallel mode before it is left to
/// the sequential pass.
pub const PARTITION_ATTEMPTS: u32 = 3;

/// The wait, in milliseconds, before attempt `attempt` (counted from zero)
/// of a partition: none before the first, `100 * 2^min(attempt, 4)` before
/// the others; no attempt from `PARTITION_ATTEMPTS` on.
pub open spec fn spec_attempt_delay_ms(attempt: u32) -> Option<u64> {
    if attempt >= PARTITION_ATTEMPTS {
        None
    } else if attempt == 0 {
        Some(0u64)
    } else {
        Some((100 * pow2(if attempt < 4 { attempt as nat } else { 4 })) as u64)
    }
}

/// The wait before attempt `attempt` of a partition, or `None` when the
/// partition has had all its attempts.
pub fn attempt_delay_ms(attempt: u32) -> (r: Option<u64>)
    ensures
        r == spec_attempt_delay_ms(attempt),
{
    if attempt >= PARTITION_ATTEMPTS {
        return None;
    }
    if attempt == 0 {
        return Some(0);
    }
    let e: u32 = if attempt < 4 { attempt } else { 4 };
    let mut d: u64 = 100;
    let mut i: u32 = 0;
    while i < e
        invariant
            i <= e <= 4,
            d == 100 * pow2(i as nat),
        decreases e - i,
    {
        proof {
            reveal_with_fuel(pow2, 5);
        }
        assert(pow2((i + 1) as nat) == 2 * pow2(i as nat));
        assert(d * 2 <= 1600) by {
            reveal_with_fuel(pow2, 5);
        }
        d = d * 2;
        i = i + 1;
    }
    Some(d)
}

/// A partition is tried at most `PARTITION_ATTEMPTS` times in parallel
/// mode, and the waits between attempts grow.
pub proof fn law_partition_attempts_are_bounded(attempt: u32, later: u32)
    ensures
        spec_attempt_delay_ms(attempt) is None <==> attempt >= PARTITION_ATTEMPTS,
        attempt < later < PARTITION_ATTEMPTS ==> spec_attempt_delay_ms(attempt).unwrap()
            < spec_attempt_delay_ms(later).unwrap(),
{
    reveal_with_fuel(pow2, 3);
}

/// Partitions each worker takes at once: the partitions shared evenly over
/// the CPUs, at least one.
pub open spec fn spec_chunk_size(partitions: nat, cpus: nat) -> nat {
    if partitions / cpus < 1 { 1 } else { partitions / cpus }
}

/// How many partitions each worker takes, for `cpus` (at least one) CPUs.
pub fn chunk_size(partitions: usize, cpus: usize) -> (r: usize)
    requires
        cpus > 0,
    ensures
        r == spec_chunk_size(partitions as nat, cpus as nat),
        r >= 1,
{
    let q = partitions / cpus;
    if q < 1 { 1 } else { q }
}

/// "zip" or "bin" as the bytes of a file extension.
pub open spec fn is_archive_extension(ext: Seq<u8>) -> bool {
    ext == seq![0x7au8, 0x69u8, 0x70u8] || ext == seq![0x62u8, 0x69u8, 0x6eu8]
}

/// Extraction runs in parallel for remote payloads and for local files
/// named `.zip` or `.bin`, unless the user turned it off.
pub open spec fn spec_use_parallel(is_url: bool, extension: Option<Seq<u8>>, no_parallel: bool) -> bool {
    (is_url || (extension matches Some(e) && is_archive_extension(e))) && !no_parallel
}

/// Whether partitions are extracted in parallel; `extension` is the local
/// file's extension, if it has one.
pub fn use_parallel(is_url: bool, extension: Option<&[u8]>, no_parallel: bool) -> (r: bool)
    ensures
        r == spec_use_parallel(
            is_url,
            match extension {
                Some(e) => Some(e@),
                None => None,
            },
            no_parallel,
        ),
{
    if no_parallel {
        return false;
    }
    if is_url {
        return true;
    }
    match extension {
        None => false,
        Some(e) => {
            if e.len() != 3 {
                return false;
            }
            let zip = e[0] == 0x7a && e[1] == 0x69 && e[2] == 0x70;
            let bin = e[0] == 0x62 && e[1] == 0x69 && e[2] == 0x6e;
            proof {
                assert(zip ==> e@ =~= seq![0x7au8, 0x69u8, 0x70u8]);
                assert(bin ==> e@ =~= seq![0x62u8, 0x69u8, 0x6eu8]);
                assert(e@ == seq![0x7au8, 0x69u8, 0x70u8] ==> zip);
                assert(e@ == seq![0x62u8, 0x69u8, 0x6eu8] ==> bin);
            }
            zip || bin
        },
    }
}

} // verus!
