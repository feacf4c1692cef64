//! Checking extracted images against the hashes in the manifest.
use vstd::prelude::*;
use crate::structs::PartitionUpdate;

verus! {

/// Result of checking one image.
#[derive(Debug, Clone, Copy, PartialEq, Eq, Structural)]
pub enum HashVerificationStatus {
    Verified,
    Mismatch,
    NoHash,
}

/// The SHA-256 digest of a byte sequence.
pub uninterp spec fn sha256(data: Seq<u8>) -> Seq<u8>;

/// Calls `sha2::Sha256::digest`; the digest of SHA-256 is 32 bytes long.
#[verifier::external_body]
fn sha256_digest(data: &[u8]) -> (r: Vec<u8>)
    ensures
        r@ == sha256(data@),
        r@.len() == 32,
{
    <sha2::Sha256 as sha2::Digest>::digest(data).to_vec()
}

/// The hash the manifest gives for a partition's new image, if any.
pub open spec fn expected_hash(p: PartitionUpdate) -> Option<Seq<u8>> {
    match p.new_partition_info {
        Some(info) => match info.hash {
            Some(h) => Some(h@),
            None => None,
        },
        None => None,
    }
}

/// The verdict on an image with the given digest: no verdict without a
/// (nonempty) expected hash, else whether the digest equals it.
pub open spec fn spec_hash_status(expected: Option<Seq<u8>>, digest: Seq<u8>) -> HashVerificationStatus {
    match expected {
        None => HashVerificationStatus::NoHash,
        Some(h) => if h.len() == 0 {
            HashVerificationStatus::NoHash
        } else if h == digest {
            HashVerificationStatus::Verified
        } else {
            HashVerificationStatus::Mismatch
        },
    }
}

/// An image is reported as mismatching only when the manifest gives a
/// nonempty hash that differs from its digest; a matching digest always
/// verifies.
pub proof fn law_mismatch_needs_a_differing_hash(expected: Option<Seq<u8>>, digest: Seq<u8>)
    ensures
        spec_hash_status(expected, digest) == HashVerificationStatus::Mismatch <==> (expected is Some
            && expected.unwrap().len() > 0 && expected.unwrap() != digest),
        expected == Some(digest) && digest.len() > 0 ==> spec_hash_status(expected, digest)
            == HashVerificationStatus::Verified,
{
}

/// Whether the partition's image needs hashing at all: the manifest gives a
/// nonempty hash for it.
pub fn expects_hash(partition: &PartitionUpdate) -> (r: bool)
    ensures
        r == (expected_hash(*partition) is Some && expected_hash(*partition).unwrap().len() > 0),
{
    match &partition.new_partition_info {
        Some(info) => match &info.hash {
            Some(h) => h.len() > 0,
            None => false,
        },
        None => false,
    }
}

fn bytes_equal(a: &[u8], b: &[u8]) -> (r: bool)
    ensures
        r == (a@ == b@),
{
    if a.len() != b.len() {
        return false;
    }
    let mut i: usize = 0;
    while i < a.len()
        invariant
            a@.len() == b@.len(),
            i <= a@.len(),
            forall|k: int| 0 <= k < i ==> a@[k] == b@[k],
        decreases a@.len() - i,
    {
        if a[i] != b[i] {
            return false;
        }
        i = i + 1;
    }
    assert(a@ =~= b@);
    true
}

/// Compares a digest with the hash the manifest gives for the partition.
pub fn hash_status(partition: &PartitionUpdate, digest: &[u8]) -> (r: HashVerificationStatus)
    ensures
        r == spec_hash_status(expected_hash(*partition), digest@),
{
    match &partition.new_partition_info {
        Some(info) => match &info.hash {
            Some(h) => {
                if h.len() == 0 {
                    HashVerificationStatus::NoHash
                } else if bytes_equal(h.as_slice(), digest) {
                    HashVerificationStatus::Verified
                } else {
                    HashVerificationStatus::Mismatch
                }
            },
            None => HashVerificationStatus::NoHash,
        },
        None => HashVerificationStatus::NoHash,
    }
}

/// Checks an extracted image's bytes against the partition's hash.
pub fn verify_image(partition: &PartitionUpdate, image: &[u8]) -> (r: HashVerificationStatus)
    ensures
        r == spec_hash_status(expected_hash(*partition), sha256(image@)),
{
    if !expects_hash(partition) {
        return HashVerificationStatus::NoHash;
    }
    let digest = sha256_digest(image);
    hash_status(partition, digest.as_slice())
}

/// Indices, in order, of the partitions whose extraction did not fail.
pub open spec fn kept_indices(parts: Seq<PartitionUpdate>, failed: Seq<String>, n: nat) -> Seq<int>
    decreases n,
{
    if n == 0 {
        seq![]
    } else {
        let prev = kept_indices(parts, failed, (n - 1) as nat);
        if exists|j: int| 0 <= j < failed.len() && #[trigger] failed[j]@ == parts[n - 1].partition_name@ {
            prev
        } else {
            prev.push(n - 1)
        }
    }
}

/// The partitions to verify: those not named among the failed extractions,
/// as indices into `partitions`, in order.
pub fn partitions_to_verify(partitions: &Vec<PartitionUpdate>, failed_extractions: &Vec<String>) -> (r: Vec<usize>)
    ensures
        r@.len() == kept_indices(partitions@, failed_extractions@, partitions@.len()).len(),
        forall|k: int| 0 <= k < r@.len() ==> (#[trigger] r@[k]) as int == kept_indices(partitions@, failed_extractions@, partitions@.len())[k],
{
    let mut out: Vec<usize> = Vec::new();
    let mut i: usize = 0;
    while i < partitions.len()
        invariant
            i <= partitions@.len(),
            out@.len() == kept_indices(partitions@, failed_extractions@, i as nat).len(),
            forall|k: int| 0 <= k < out@.len() ==> (#[trigger] out@[k]) as int == kept_indices(partitions@, failed_extractions@, i as nat)[k],
        decreases partitions@.len() - i,
    {
        let mut failed = false;
        let mut j: usize = 0;
        while j < failed_extractions.len()
            invariant
                j <= failed_extractions@.len(),
                i < partitions@.len(),
                failed <==> exists|m: int| 0 <= m < j && #[trigger] failed_extractions@[m]@ == partitions@[i as int].partition_name@,
            decreases failed_extractions@.len() - j,
        {
            if failed_extractions[j] == partitions[i].partition_name {
                failed = true;
            }
            j = j + 1;
        }
        if !failed {
            out.push(i);
        }
        i = i + 1;
    }
    out
}

} // verus!
