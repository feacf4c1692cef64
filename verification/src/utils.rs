//! File-type detection and human-readable formatting.
use vstd::prelude::*;
use vstd::string::StrSliceExecFns;
use crate::bytes::{be32, read_be32};
use crate::constants::{PAYLOAD_MAGIC, ZIP_MAGIC_0, ZIP_MAGIC_1};
use crate::structs::{DeltaArchiveManifest, InstallOperation, OperationType, spec_operation_type};
use crate::text::{decimal, digit_char, push_decimal, push_decimal_u128, push_str};

verus! {

/// The two container kinds a payload can arrive in.
#[derive(Debug, PartialEq, Eq, Structural, Clone, Copy)]
pub enum FileType {
    Zip,
    Bin,
}

/// Why a file could not be recognised: the four magic bytes that were found.
#[derive(Debug, Clone, Copy)]
pub struct MagicMismatch {
    pub magic: [u8; 4],
}

/// A file starting with "PK" is a ZIP archive.
pub open spec fn spec_is_zip_magic(m: Seq<u8>) -> bool {
    m[0] == ZIP_MAGIC_0 && m[1] == ZIP_MAGIC_1
}

/// A file starting with "CrAU" is a bare payload.
pub open spec fn spec_is_payload_magic(m: Seq<u8>) -> bool {
    be32(m, 0) == PAYLOAD_MAGIC
}

/// Detects the file type from its first four bytes: "PK" means ZIP (checked
/// first), "CrAU" means a bare payload, anything else is a mismatch.
pub fn detect_file(magic: &[u8; 4]) -> (r: Result<FileType, MagicMismatch>)
    ensures
        spec_is_zip_magic(magic@) ==> r == Ok::<FileType, MagicMismatch>(FileType::Zip),
        !spec_is_zip_magic(magic@) && spec_is_payload_magic(magic@) ==> r == Ok::<
            FileType,
            MagicMismatch,
        >(FileType::Bin),
        !spec_is_zip_magic(magic@) && !spec_is_payload_magic(magic@) ==> r == Err::<
            FileType,
            MagicMismatch,
        >(MagicMismatch { magic: *magic }),
{
    if magic[0] == ZIP_MAGIC_0 && magic[1] == ZIP_MAGIC_1 {
        return Ok(FileType::Zip);
    }
    let word = read_be32(magic.as_slice(), 0);
    if word == PAYLOAD_MAGIC {
        return Ok(FileType::Bin);
    }
    Err(MagicMismatch { magic: *magic })
}


// ---------------------------------------------------------------------------
// Where a payload comes from

/// The four ways a payload can be given.
#[derive(Debug, Clone, Copy, PartialEq, Eq, Structural)]
pub enum PayloadType {
    LocalZip,
    LocalBin,
    RemoteZip,
    RemoteBin,
}

pub open spec fn http_prefix() -> Seq<char> {
    seq!['h', 't', 't', 'p', ':', '/', '/']
}

pub open spec fn https_prefix() -> Seq<char> {
    seq!['h', 't', 't', 'p', 's', ':', '/', '/']
}

pub open spec fn has_prefix(s: Seq<char>, p: Seq<char>) -> bool {
    p.len() <= s.len() && s.subrange(0, p.len() as int) == p
}

/// A path names a remote payload when it starts with `http://` or `https://`.
pub open spec fn spec_is_url(path: Seq<char>) -> bool {
    has_prefix(path, http_prefix()) || has_prefix(path, https_prefix())
}

fn starts_with_chars(s: &str, p: &str) -> (r: bool)
    ensures
        r == has_prefix(s@, p@),
{
    let n = p.unicode_len();
    if s.unicode_len() < n {
        return false;
    }
    let mut i: usize = 0;
    while i < n
        invariant
            n == p@.len(),
            n <= s@.len(),
            i <= n,
            forall|k: int| 0 <= k < i ==> s@[k] == p@[k],
        decreases n - i,
    {
        if s.get_char(i) != p.get_char(i) {
            assert(s@.subrange(0, n as int)[i as int] != p@[i as int]);
            return false;
        }
        i = i + 1;
    }
    assert(s@.subrange(0, n as int) =~= p@);
    true
}

/// Whether the path names a remote payload (`http://` or `https://`).
pub fn is_url(path: &str) -> (r: bool)
    ensures
        r == spec_is_url(path@),
{
    proof {
        reveal_strlit("http://");
        reveal_strlit("https://");
    }
    let a = starts_with_chars(path, "http://");
    assert("http://"@ == http_prefix());
    let b = starts_with_chars(path, "https://");
    assert("https://"@ == https_prefix());
    a || b
}

/// The kind of a payload, from where it comes from and what its first bytes say.
pub fn payload_type(is_remote: bool, file_type: FileType) -> (r: PayloadType)
    ensures
        r == match (is_remote, file_type) {
            (false, FileType::Zip) => PayloadType::LocalZip,
            (false, FileType::Bin) => PayloadType::LocalBin,
            (true, FileType::Zip) => PayloadType::RemoteZip,
            (true, FileType::Bin) => PayloadType::RemoteBin,
        },
{
    match (is_remote, file_type) {
        (false, FileType::Zip) => PayloadType::LocalZip,
        (false, FileType::Bin) => PayloadType::LocalBin,
        (true, FileType::Zip) => PayloadType::RemoteZip,
        (true, FileType::Bin) => PayloadType::RemoteBin,
    }
}

// ---------------------------------------------------------------------------
// Differential updates

/// Operations that read the old image: copying or patching source blocks.
pub open spec fn is_source_operation(t: i32) -> bool {
    let k = spec_operation_type(t);
    k == OperationType::SourceCopy || k == OperationType::SourceBsdiff || k
        == OperationType::BrotliBsdiff
}

/// Some operation of some partition reads the old image.
pub open spec fn spec_is_differential(m: DeltaArchiveManifest) -> bool {
    exists|i: int, j: int|
        0 <= i < m.partitions@.len() && 0 <= j < m.partitions@[i].operations@.len()
            && #[trigger] is_source_operation(m.partitions@[i].operations@[j].op_type)
}

fn reads_source(ops: &Vec<InstallOperation>) -> (r: bool)
    ensures
        r <==> exists|j: int| 0 <= j < ops@.len() && #[trigger] is_source_operation(ops@[j].op_type),
{
    let mut j: usize = 0;
    while j < ops.len()
        invariant
            j <= ops@.len(),
            forall|k: int| 0 <= k < j ==> !#[trigger] is_source_operation(ops@[k].op_type),
        decreases ops@.len() - j,
    {
        let k = ops[j].kind();
        if k == OperationType::SourceCopy || k == OperationType::SourceBsdiff || k
            == OperationType::BrotliBsdiff {
            assert(is_source_operation(ops@[j as int].op_type));
            return true;
        }
        j = j + 1;
    }
    false
}

/// Whether the update is differential: it needs the old partition images
/// because some operation copies or patches source blocks.
pub fn is_differential_ota(manifest: &DeltaArchiveManifest) -> (r: bool)
    ensures
        r == spec_is_differential(*manifest),
{
    let mut i: usize = 0;
    while i < manifest.partitions.len()
        invariant
            i <= manifest.partitions@.len(),
            forall|a: int, b: int|
                0 <= a < i && 0 <= b < manifest.partitions@[a].operations@.len()
                    ==> !#[trigger] is_source_operation(manifest.partitions@[a].operations@[b].op_type),
        decreases manifest.partitions@.len() - i,
    {
        if reads_source(&manifest.partitions[i].operations) {
            return true;
        }
        i = i + 1;
    }
    false
}

// ---------------------------------------------------------------------------
// Elapsed time

/// Three-digit, zero-padded milliseconds.
pub open spec fn pad3(ms: nat) -> Seq<char> {
    seq![digit_char(ms / 100), digit_char((ms / 10) % 10), digit_char(ms % 10)]
}

/// "1h 2m 3.004s", "2m 3.004s" or "3.004s": hours and minutes only when
/// they are nonzero (minutes always once hours are shown).
pub open spec fn elapsed_text(total_secs: nat, millis: nat) -> Seq<char> {
    let hours = total_secs / 3600;
    let mins = (total_secs % 3600) / 60;
    let secs = total_secs % 60;
    let tail = decimal(secs) + seq!['.'] + pad3(millis) + seq!['s'];
    if hours > 0 {
        decimal(hours) + seq!['h', ' '] + decimal(mins) + seq!['m', ' '] + tail
    } else if mins > 0 {
        decimal(mins) + seq!['m', ' '] + tail
    } else {
        tail
    }
}

fn push_pad3(s: &mut String, ms: u32)
    requires
        ms < 1000,
    ensures
        final(s)@ == old(s)@ + pad3(ms as nat),
{
    push_decimal(s, (ms / 100) as u64);
    push_decimal(s, ((ms / 10) % 10) as u64);
    push_decimal(s, (ms % 10) as u64);
    assert(final(s)@ =~= old(s)@ + pad3(ms as nat));
}

/// Formats a duration given as whole seconds and milliseconds.
pub fn format_elapsed_parts(total_secs: u64, millis: u32) -> (r: String)
    requires
        millis < 1000,
    ensures
        r@ == elapsed_text(total_secs as nat, millis as nat),
{
    let hours = total_secs / 3600;
    let mins = (total_secs % 3600) / 60;
    let secs = total_secs % 60;
    let mut s = String::new();
    if hours > 0 {
        push_decimal(&mut s, hours);
        proof { reveal_strlit("h "); }
        push_str(&mut s, "h ");
    }
    if hours > 0 || mins > 0 {
        push_decimal(&mut s, mins);
        proof { reveal_strlit("m "); }
        push_str(&mut s, "m ");
    }
    push_decimal(&mut s, secs);
    proof { reveal_strlit("."); }
    push_str(&mut s, ".");
    push_pad3(&mut s, millis);
    proof { reveal_strlit("s"); }
    push_str(&mut s, "s");
    assert(s@ =~= elapsed_text(total_secs as nat, millis as nat));
    s
}

/// What `Duration::as_secs` returns: the duration's whole seconds.
pub uninterp spec fn whole_secs(d: std::time::Duration) -> u64;

/// What `Duration::subsec_millis` returns: the whole milliseconds of the
/// duration's fractional second.
pub uninterp spec fn sub_millis(d: std::time::Duration) -> u32;

/// Calls `Duration::as_secs`.
#[verifier::external_body]
fn duration_secs(d: &std::time::Duration) -> (r: u64)
    ensures
        r == whole_secs(*d),
{
    d.as_secs()
}

/// Calls `Duration::subsec_millis`; std documents the result as the
/// fractional part of a second in milliseconds, below one thousand.
#[verifier::external_body]
fn duration_subsec_millis(d: &std::time::Duration) -> (r: u32)
    ensures
        r == sub_millis(*d),
        r < 1000,
{
    d.subsec_millis()
}

/// Formats an elapsed duration as in `format_elapsed_parts`, from its whole
/// seconds and the milliseconds of its fractional second.
pub fn format_elapsed_time(duration: std::time::Duration) -> (r: String)
    ensures
        sub_millis(duration) < 1000,
        r@ == elapsed_text(whole_secs(duration) as nat, sub_millis(duration) as nat),
{
    let secs = duration_secs(&duration);
    let millis = duration_subsec_millis(&duration);
    format_elapsed_parts(secs, millis)
}

// ---------------------------------------------------------------------------
// Sizes

pub const KB: u64 = 1024;
pub const MB: u64 = 1048576;
pub const GB: u64 = 1073741824;

pub open spec fn pow2(n: nat) -> nat
    decreases n,
{
    if n == 0 { 1 } else { 2 * pow2((n - 1) as nat) }
}

/// Number of binary digits of `x`.
pub open spec fn bit_len(x: nat) -> nat
    decreases x,
{
    if x == 0 { 0 } else { 1 + bit_len(x / 2) }
}

/// The value `x as f64` takes: `x` rounded to 53 significant bits, ties to
/// even.
pub open spec fn f64_rounded(x: nat) -> nat {
    let b = bit_len(x);
    if b <= 53 {
        x
    } else {
        let p = pow2((b - 53) as nat);
        let q = x / p;
        let r = x % p;
        let q2 = if 2 * r > p || (2 * r == p && q % 2 == 1) { q + 1 } else { q };
        q2 * p
    }
}

/// `f / unit` written with two decimals, rounding half to even.
pub open spec fn two_decimals(f: nat, unit: nat) -> Seq<char> {
    let n = f * 100;
    let q = n / unit;
    let r = n % unit;
    let q2 = if 2 * r > unit || (2 * r == unit && q % 2 == 1) { q + 1 } else { q };
    decimal(q2 / 100) + seq!['.', digit_char((q2 % 100) / 10), digit_char(q2 % 10)]
}

/// "1.50 GB", "3.25 MB", "1.00 KB" or "512 bytes": the largest binary unit
/// not above the size, with two decimals of the size as a 64-bit float.
pub open spec fn size_text(size: nat) -> Seq<char> {
    if size >= GB {
        two_decimals(f64_rounded(size), GB as nat) + seq![' ', 'G', 'B']
    } else if size >= MB {
        two_decimals(f64_rounded(size), MB as nat) + seq![' ', 'M', 'B']
    } else if size >= KB {
        two_decimals(f64_rounded(size), KB as nat) + seq![' ', 'K', 'B']
    } else {
        decimal(size) + seq![' ', 'b', 'y', 't', 'e', 's']
    }
}

proof fn lemma_pow2_pos(n: nat)
    ensures
        pow2(n) >= 1,
    decreases n,
{
    if n > 0 {
        lemma_pow2_pos((n - 1) as nat);
    }
}

proof fn lemma_pow2_mono(a: nat, b: nat)
    requires
        a <= b,
    ensures
        pow2(a) <= pow2(b),
    decreases b,
{
    if a < b {
        lemma_pow2_mono(a, (b - 1) as nat);
        lemma_pow2_pos((b - 1) as nat);
    }
}

proof fn lemma_bit_len_bound(x: nat)
    ensures
        x < pow2(bit_len(x)),
        x > 0 ==> pow2((bit_len(x) - 1) as nat) <= x,
    decreases x,
{
    if x > 0 {
        lemma_bit_len_bound(x / 2);
    }
}

proof fn lemma_bit_len_u64(x: u64)
    ensures
        bit_len(x as nat) <= 64,
{
    lemma_bit_len_bound(x as nat);
    if bit_len(x as nat) > 64 {
        lemma_pow2_mono(64, (bit_len(x as nat) - 1) as nat);
        lemma_pow2_values();
    }
}

fn bit_len_exec(x: u64) -> (r: u32)
    ensures
        r as nat == bit_len(x as nat),
        r <= 64,
{
    proof {
        lemma_bit_len_u64(x);
    }
    let mut y = x;
    let mut b: u32 = 0;
    while y > 0
        invariant
            bit_len(x as nat) == b + bit_len(y as nat),
            bit_len(x as nat) <= 64,
        decreases y,
    {
        y = y / 2;
        b = b + 1;
    }
    b
}

fn pow2_exec(n: u32) -> (r: u64)
    requires
        n < 64,
    ensures
        r as nat == pow2(n as nat),
{
    let mut p: u64 = 1;
    let mut i: u32 = 0;
    while i < n
        invariant
            i <= n,
            n < 64,
            p as nat == pow2(i as nat),
        decreases n - i,
    {
        proof {
            lemma_pow2_mono((i + 1) as nat, 63);
            lemma_pow2_values();
            assert(pow2((i + 1) as nat) == 2 * pow2(i as nat));
        }
        p = p * 2;
        i = i + 1;
    }
    p
}

fn f64_rounded_exec(x: u64) -> (r: u128)
    ensures
        r as nat == f64_rounded(x as nat),
{
    let b = bit_len_exec(x);
    if b <= 53 {
        return x as u128;
    }
    let p = pow2_exec(b - 53);
    proof {
        lemma_pow2_mono(1, (b - 53) as nat);
        reveal_with_fuel(pow2, 2);
        assert(pow2(1) == 2);
    }
    let q = x / p;
    let r = x % p;
    proof {
        assert(q <= x / 2) by (nonlinear_arith)
            requires q == x / p, p >= 2;
    }
    let q2: u64 = if 2 * (r as u128) > p as u128 || (2 * (r as u128) == p as u128 && q % 2 == 1) {
        q + 1
    } else {
        q
    };
    proof {
        assert((q2 as nat) * (p as nat) <= 0xFFFF_FFFF_FFFF_FFFF * 0xFFFF_FFFF_FFFF_FFFF)
            by (nonlinear_arith)
            requires
                q2 as nat <= 0xFFFF_FFFF_FFFF_FFFF,
                p as nat <= 0xFFFF_FFFF_FFFF_FFFF,
        ;
    }
    (q2 as u128) * (p as u128)
}

fn push_two_decimals(s: &mut String, f: u128, unit: u64)
    requires
        f <= 0x1_0000_0000_0000_0000,
        unit > 0,
    ensures
        final(s)@ == old(s)@ + two_decimals(f as nat, unit as nat),
{
    let n: u128 = f * 100;
    let q: u128 = n / (unit as u128);
    let r: u128 = n % (unit as u128);
    let q2: u128 = if 2 * r > unit as u128 || (2 * r == unit as u128 && q % 2 == 1) {
        q + 1
    } else {
        q
    };
    push_decimal_u128(s, q2 / 100);
    proof { reveal_strlit("."); }
    push_str(s, ".");
    push_decimal(s, ((q2 % 100) / 10) as u64);
    push_decimal(s, (q2 % 10) as u64);
    assert(final(s)@ =~= old(s)@ + two_decimals(f as nat, unit as nat));
}

/// Formats a byte count in the largest fitting binary unit.
pub fn format_size(size: u64) -> (r: String)
    ensures
        r@ == size_text(size as nat),
{
    let mut s = String::new();
    if size >= KB {
        let f = f64_rounded_exec(size);
        proof {
            let b = bit_len(size as nat);
            lemma_bit_len_bound(size as nat);
            lemma_bit_len_u64(size);
            if b > 53 {
                let p = pow2((b - 53) as nat);
                lemma_pow2_pos((b - 53) as nat);
                let q = (size as nat) / p;
                assert(q * p <= size as nat) by (nonlinear_arith)
                    requires q == (size as nat) / p, p > 0;
                assert(q < pow2(53)) by {
                    assert(pow2(b) == pow2((b - 53) as nat) * pow2(53)) by {
                        lemma_pow2_add((b - 53) as nat, 53);
                    }
                    assert((size as nat) < p * pow2(53));
                    assert(q * p <= size as nat);
                    assert(q < pow2(53)) by (nonlinear_arith)
                        requires q * p < p * pow2(53), p > 0;
                }
                lemma_pow2_values();
                assert(p <= pow2(11)) by {
                    lemma_pow2_mono((b - 53) as nat, 11);
                }

                assert((q + 1) * p <= 0x1_0000_0000_0000_0000) by (nonlinear_arith)
                    requires q + 1 <= 0x20_0000_0000_0000, p <= 2048;
            }
        }
        if size >= GB {
            push_two_decimals(&mut s, f, GB);
            proof { reveal_strlit(" GB"); }
            push_str(&mut s, " GB");
        } else if size >= MB {
            push_two_decimals(&mut s, f, MB);
            proof { reveal_strlit(" MB"); }
            push_str(&mut s, " MB");
        } else {
            push_two_decimals(&mut s, f, KB);
            proof { reveal_strlit(" KB"); }
            push_str(&mut s, " KB");
        }
    } else {
        push_decimal(&mut s, size);
        proof { reveal_strlit(" bytes"); }
        push_str(&mut s, " bytes");
    }
    assert(s@ =~= size_text(size as nat));
    s
}

proof fn lemma_pow2_values()
    ensures
        pow2(11) == 2048,
        pow2(53) == 0x20_0000_0000_0000,
        pow2(63) == 0x8000_0000_0000_0000,
        pow2(64) == 0x1_0000_0000_0000_0000,
{
    reveal_with_fuel(pow2, 17);
    assert(pow2(16) == 65536);
    assert(pow2(11) == 2048);
    assert(pow2(5) == 32);
    assert(pow2(15) == 32768);
    lemma_pow2_add(16, 16);
    lemma_pow2_add(32, 16);
    lemma_pow2_add(48, 5);
    lemma_pow2_add(48, 15);
    lemma_pow2_add(32, 32);
}

proof fn lemma_pow2_add(a: nat, b: nat)
    ensures
        pow2(a + b) == pow2(a) * pow2(b),
    decreases a,
{
    if a > 0 {
        let a1 = (a - 1) as nat;
        lemma_pow2_add(a1, b);
        let x = pow2(a1);
        let y = pow2(b);
        let z = pow2(a1 + b);
        assert(pow2(a) == 2 * x);
        assert(pow2((a1 + b + 1) as nat) == 2 * z);
        assert((a1 + b + 1) as nat == a + b);
        assert(z == x * y);
        assert(2 * z == (2 * x) * y) by (nonlinear_arith)
            requires z == x * y;
    } else {
        assert(pow2(0) == 1);
        assert(a + b == b);
    }
}

} // verus!
