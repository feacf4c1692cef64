//! Locating the payload through the OTA metadata stored near the end of the
//! archive, whose property list records `payload.bin:OFFSET:SIZE`.
use vstd::prelude::*;
use vstd::utf8::valid_utf8;
use crate::remote_zip::payload_name_bytes;
use crate::zip::outcome_matches;
use crate::zip_io::{read_exact_at, ZipError, ZipIO, MAX_ARCHIVE_SIZE};

verus! {

/// How much of the archive's end is searched for the metadata.
pub const METADATA_SEARCH_SPAN: u64 = 131072;

/// The first position from `from` on where byte `b` is stored.
pub open spec fn first_byte_at(t: Seq<u8>, from: int, b: u8) -> Option<int>
    decreases t.len() - from,
{
    if from < 0 || from >= t.len() {
        None
    } else if t[from] == b {
        Some(from)
    } else {
        first_byte_at(t, from + 1, b)
    }
}

pub open spec fn is_terminator(b: u8) -> bool {
    b == 0x2c || b == 0x0a || b == 0x0d
}

/// The first position from `from` on holding ',', '\n' or '\r'.
pub open spec fn first_terminator(t: Seq<u8>, from: int) -> Option<int>
    decreases t.len() - from,
{
    if from < 0 || from >= t.len() {
        None
    } else if is_terminator(t[from]) {
        Some(from)
    } else {
        first_terminator(t, from + 1)
    }
}

pub open spec fn is_digit(b: u8) -> bool {
    0x30 <= b <= 0x39
}

/// The value of a run of decimal digits.
pub open spec fn digits_value(s: Seq<u8>) -> nat
    decreases s.len(),
{
    if s.len() == 0 {
        0
    } else {
        digits_value(s.drop_last()) * 10 + (s.last() - 0x30) as nat
    }
}

/// What parsing text as a `u64` gives: an optional '+' followed by at least
/// one decimal digit and nothing else, whose value fits in 64 bits.
/// The text after an optional leading '+'.
pub open spec fn unsigned_digits(s: Seq<u8>) -> Seq<u8> {
    if s.len() > 0 && s[0] == 0x2b { s.drop_first() } else { s }
}

pub open spec fn spec_parse_u64(s: Seq<u8>) -> Option<u64> {
    let digits = unsigned_digits(s);
    if digits.len() == 0 || exists|k: int| 0 <= k < digits.len() && !is_digit(#[trigger] digits[k]) {
        None
    } else if digits_value(digits) > u64::MAX {
        None
    } else {
        Some(digits_value(digits) as u64)
    }
}

/// The first two ':'-separated fields of a property value, as numbers.
pub open spec fn locator_fields(seg: Seq<u8>) -> Option<(u64, u64)> {
    match first_byte_at(seg, 0, 0x3a) {
        None => None,
        Some(c1) => {
            let p0 = seg.subrange(0, c1);
            let p1_end = match first_byte_at(seg, c1 + 1, 0x3a) {
                Some(c2) => c2,
                None => seg.len() as int,
            };
            let p1 = seg.subrange(c1 + 1, p1_end);
            match (spec_parse_u64(p0), spec_parse_u64(p1)) {
                (Some(a), Some(b)) => Some((a, b)),
                _ => None,
            }
        },
    }
}

/// What an occurrence of `payload.bin` at `i` of the searched tail yields:
/// nothing, a value that is not text (which ends the search), or the offset
/// and size it records.
pub open spec fn candidate_at(t: Seq<u8>, i: int) -> Option<Option<(u64, u64)>> {
    if !(0 <= i && i + 11 <= t.len() && t.subrange(i, i + 11) == payload_name_bytes()) {
        None
    } else {
        match first_byte_at(t, i, 0x3a) {
            None => None,
            Some(c) => match first_terminator(t, c + 1) {
                None => None,
                Some(e) => {
                    let seg = t.subrange(c + 1, e);
                    if !valid_utf8(seg) {
                        Some(None)
                    } else {
                        match locator_fields(seg) {
                            None => None,
                            Some(v) => Some(Some(v)),
                        }
                    }
                },
            },
        }
    }
}

/// Outcome of the search from position `i` of the tail `t` of archive `d`:
/// the first recorded location whose local header starts with "PK".
pub open spec fn spec_metadata_scan(d: Seq<u8>, t: Seq<u8>, i: int) -> Result<(u64, u64), ZipError>
    decreases t.len() - i,
{
    if i < 0 || i >= t.len() - 11 {
        Err(ZipError::MetadataNotFound)
    } else {
        match candidate_at(t, i) {
            None => spec_metadata_scan(d, t, i + 1),
            Some(None) => Err(ZipError::MetadataNotText),
            Some(Some((o, s))) => if o + 4 > d.len() {
                Err(ZipError::Io)
            } else if d[o as int] == 0x50 && d[o + 1] == 0x4b {
                Ok((o, s))
            } else {
                spec_metadata_scan(d, t, i + 1)
            },
        }
    }
}

/// Outcome of locating the payload through the metadata in the last
/// `METADATA_SEARCH_SPAN` bytes of the archive: (payload offset, size).
pub open spec fn spec_find_payload_via_metadata(d: Seq<u8>) -> Result<(u64, u64), ZipError> {
    let n = if d.len() < METADATA_SEARCH_SPAN { d.len() as int } else { METADATA_SEARCH_SPAN as int };
    spec_metadata_scan(d, d.subrange(d.len() - n, d.len() as int), 0)
}

/// Calls `std::str::from_utf8` and tells whether it accepted the bytes: std
/// documents that it accepts exactly the valid UTF-8 sequences.
#[verifier::external_body]
fn is_utf8(bytes: &[u8]) -> (r: bool)
    ensures
        r == valid_utf8(bytes@),
{
    std::str::from_utf8(bytes).is_ok()
}

fn find_byte(t: &[u8], from: usize, b: u8) -> (r: Option<usize>)
    ensures
        match r {
            Some(k) => first_byte_at(t@, from as int, b) == Some(k as int) && from <= k < t@.len(),
            None => first_byte_at(t@, from as int, b) is None,
        },
{
    let mut k: usize = from;
    while k < t.len()
        invariant
            from <= k,
            first_byte_at(t@, from as int, b) == first_byte_at(t@, k as int, b),
        decreases t@.len() - k,
    {
        if t[k] == b {
            return Some(k);
        }
        k = k + 1;
    }
    None
}

fn find_terminator(t: &[u8], from: usize) -> (r: Option<usize>)
    ensures
        match r {
            Some(k) => first_terminator(t@, from as int) == Some(k as int) && from <= k < t@.len(),
            None => first_terminator(t@, from as int) is None,
        },
{
    let mut k: usize = from;
    while k < t.len()
        invariant
            from <= k,
            first_terminator(t@, from as int) == first_terminator(t@, k as int),
        decreases t@.len() - k,
    {
        if t[k] == 0x2c || t[k] == 0x0a || t[k] == 0x0d {
            return Some(k);
        }
        k = k + 1;
    }
    None
}

/// Parses text as a `u64`: an optional '+', then decimal digits only.
pub fn parse_u64(s: &[u8]) -> (r: Option<u64>)
    ensures
        r == spec_parse_u64(s@),
{
    let plus = s.len() > 0 && s[0] == 0x2b;
    let start: usize = if plus { 1 } else { 0 };
    let ghost digits = unsigned_digits(s@);
    assert(digits =~= s@.subrange(start as int, s@.len() as int));
    if s.len() == start {
        return None;
    }
    let mut v: u64 = 0;
    let mut k: usize = start;
    while k < s.len()
        invariant
            start <= k <= s@.len(),
            start < s@.len(),
            digits == s@.subrange(start as int, s@.len() as int),
            digits == unsigned_digits(s@),
            forall|j: int| 0 <= j < k - start ==> is_digit(#[trigger] digits[j]),
            v == digits_value(digits.subrange(0, k - start)),
        decreases s@.len() - k,
    {
        let c = s[k];
        if !(0x30 <= c && c <= 0x39) {
            assert(!is_digit(digits[k - start]));
            assert(exists|j: int| 0 <= j < digits.len() && !is_digit(#[trigger] digits[j]));
            return None;
        }
        let ghost prefix = digits.subrange(0, k + 1 - start);
        assert(prefix.drop_last() =~= digits.subrange(0, k - start));
        let d = (c - 0x30) as u64;
        assert(is_digit(digits[k - start]));
        assert(digits_value(prefix) == v * 10 + d);
        match v.checked_mul(10) {
            None => {
                proof { lemma_overflow_means_none(digits, k + 1 - start); }
                return None;
            },
            Some(t) => match t.checked_add(d) {
                None => {
                    proof { lemma_overflow_means_none(digits, k + 1 - start); }
                    return None;
                },
                Some(w) => {
                    v = w;
                },
            },
        }
        k = k + 1;
    }
    assert(digits.subrange(0, digits.len() as int) =~= digits);
    Some(v)
}

proof fn lemma_overflow_means_none(digits: Seq<u8>, a: int)
    requires
        0 < a <= digits.len(),
        forall|j: int| 0 <= j < a ==> is_digit(#[trigger] digits[j]),
        digits_value(digits.subrange(0, a)) > u64::MAX,
    ensures
        digits.len() == 0 || (exists|k: int| 0 <= k < digits.len() && !is_digit(#[trigger] digits[k]))
            || digits_value(digits) > u64::MAX,
{
    if forall|k: int| 0 <= k < digits.len() ==> is_digit(#[trigger] digits[k]) {
        lemma_digits_value_grows(digits, a, digits.len() as int);
        assert(digits.subrange(0, digits.len() as int) =~= digits);
    }
}

proof fn lemma_digits_value_grows(s: Seq<u8>, a: int, b: int)
    requires
        0 <= a <= b <= s.len(),
        forall|j: int| 0 <= j < b ==> is_digit(#[trigger] s[j]),
    ensures
        digits_value(s.subrange(0, a)) <= digits_value(s.subrange(0, b)),
    decreases b - a,
{
    if a < b {
        lemma_digits_value_grows(s, a, b - 1);
        assert(s.subrange(0, b).drop_last() =~= s.subrange(0, b - 1));
    }
}

fn locator_fields_exec(seg: &[u8]) -> (r: Option<(u64, u64)>)
    ensures
        r == locator_fields(seg@),
{
    let n = seg.len();
    let c1 = match find_byte(seg, 0, 0x3a) {
        None => return None,
        Some(c) => c,
    };
    let p1_end = match find_byte(seg, c1 + 1, 0x3a) {
        Some(c2) => c2,
        None => seg.len(),
    };
    let p0 = vstd::slice::slice_subrange(seg, 0, c1);
    let p1 = vstd::slice::slice_subrange(seg, c1 + 1, p1_end);
    match (parse_u64(p0), parse_u64(p1)) {
        (Some(a), Some(b)) => Some((a, b)),
        _ => None,
    }
}

/// The candidate at `i` of the tail (see `candidate_at`).
fn candidate(t: &[u8], i: usize) -> (r: Option<Option<(u64, u64)>>)
    ensures
        r == candidate_at(t@, i as int),
{
    let n = t.len();
    if i >= n || n - i < 11 {
        return None;
    }
    let mut k: usize = 0;
    while k < 11
        invariant
            i + 11 <= t@.len(),
            n == t@.len(),
            k <= 11,
            forall|j: int| 0 <= j < k ==> t@[i + j] == payload_name_bytes()[j],
        decreases 11 - k,
    {
        let expected: u8 = match k {
            0 => 0x70,
            1 => 0x61,
            2 => 0x79,
            3 => 0x6c,
            4 => 0x6f,
            5 => 0x61,
            6 => 0x64,
            7 => 0x2e,
            8 => 0x62,
            9 => 0x69,
            _ => 0x6e,
        };
        if t[i + k] != expected {
            assert(t@.subrange(i as int, i + 11)[k as int] != payload_name_bytes()[k as int]);
            return None;
        }
        k = k + 1;
    }
    assert(t@.subrange(i as int, i + 11) =~= payload_name_bytes());
    let c = match find_byte(t, i, 0x3a) {
        None => return None,
        Some(c) => c,
    };
    let e = match find_terminator(t, c + 1) {
        None => return None,
        Some(e) => e,
    };
    let seg = vstd::slice::slice_subrange(t, c + 1, e);
    if !is_utf8(seg) {
        return Some(None);
    }
    match locator_fields_exec(seg) {
        None => None,
        Some(v) => Some(Some(v)),
    }
}

/// Locates the payload through the archive's OTA metadata: the first
/// `payload.bin:OFFSET:SIZE` record in the last 128 KiB whose offset holds a
/// local header ("PK"). Returns (offset, size).
pub fn find_payload_via_metadata<R: ZipIO>(reader: &R) -> (r: Result<(u64, u64), ZipError>)
    requires
        reader.spec_content().len() <= MAX_ARCHIVE_SIZE,
    ensures
        outcome_matches(r, spec_find_payload_via_metadata(reader.spec_content()), reader.spec_reliable()),
{
    let ghost d = reader.spec_content();
    let total = match reader.size() {
        Ok(n) => n,
        Err(e) => return Err(e),
    };
    let n: u64 = if total < METADATA_SEARCH_SPAN { total } else { METADATA_SEARCH_SPAN };
    let tail = match read_exact_at(reader, total - n, n as usize) {
        Ok(b) => b,
        Err(e) => return Err(e),
    };
    let ghost t = tail@;
    assert(t =~= d.subrange(d.len() - n, d.len() as int));
    let limit: usize = if tail.len() > 11 { tail.len() - 11 } else { 0 };
    let mut i: usize = 0;
    while i < limit
        invariant
            d == reader.spec_content(),
            t == tail@,
            limit == if t.len() > 11 { t.len() - 11 } else { 0 },
            i <= limit,
            spec_find_payload_via_metadata(d) == spec_metadata_scan(d, t, i as int),
        decreases limit - i,
    {
        match candidate(tail.as_slice(), i) {
            None => {},
            Some(None) => {
                return Err(ZipError::MetadataNotText);
            },
            Some(Some((offset, size))) => {
                let header = match read_exact_at(reader, offset, 4) {
                    Ok(b) => b,
                    Err(e) => return Err(e),
                };
                assert(header@ =~= d.subrange(offset as int, offset + 4));
                if header[0] == 0x50 && header[1] == 0x4b {
                    return Ok((offset, size));
                }
            },
        }
        i = i + 1;
    }
    Err(ZipError::MetadataNotFound)
}

} // verus!
