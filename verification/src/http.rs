//! Decisions of the ranged HTTP reader: which bytes to request, how to name
//! them in a `Range` header, when to retry, and which replies to accept.
use vstd::prelude::*;
use crate::text::{decimal, push_decimal, push_str};

verus! {

/// Attempts made for one request before giving up.
pub const MAX_RETRIES: u32 = 3;

/// A request for the bytes `start..=end` of the resource (`len` of them).
#[derive(Debug, Clone, Copy, PartialEq, Eq, Structural)]
pub struct RangeRequest {
    pub start: u64,
    pub end: u64,
    pub len: usize,
}

/// Why a ranged read or its reply is refused.
#[derive(Debug, Clone, Copy, PartialEq, Eq, Structural)]
pub enum HttpError {
    /// The read starts at or past the end of the resource.
    OffsetBeyondEnd { offset: u64, content_length: u64 },
    /// The read starts within the resource but runs past its end.
    ReadBeyondEnd { offset: u64, length: usize, content_length: u64 },
    /// The server answered with a status outside 200..=299.
    BadStatus(u16),
    /// The reply does not hold the requested number of bytes.
    WrongLength { expected: usize, got: usize },
    /// The server gave no usable content length.
    UnknownLength,
    /// The resource is empty.
    EmptyResource,
    /// A read runs past the end of the payload.
    BeyondPayload { offset: u64, length: u64, payload_size: u64 },
}

/// The request an exact read of `buf_len` bytes at `offset` makes: the
/// bytes `offset..offset + buf_len`, none when `buf_len` is zero; refused
/// when the read starts at or runs past the end of the resource.
pub open spec fn spec_plan_range(offset: u64, buf_len: usize, content_length: u64) -> Result<Option<RangeRequest>, HttpError> {
    if offset >= content_length {
        Err(HttpError::OffsetBeyondEnd { offset, content_length })
    } else if offset + buf_len > content_length {
        Err(HttpError::ReadBeyondEnd { offset, length: buf_len, content_length })
    } else if buf_len == 0 {
        Ok(None)
    } else {
        Ok(Some(RangeRequest { start: offset, end: (offset + buf_len - 1) as u64, len: buf_len }))
    }
}

/// Plans an exact read of `buf_len` bytes at `offset` of a resource of
/// `content_length` bytes.
pub fn plan_range_read(offset: u64, buf_len: usize, content_length: u64) -> (r: Result<Option<RangeRequest>, HttpError>)
    ensures
        r == spec_plan_range(offset, buf_len, content_length),
{
    if offset >= content_length {
        return Err(HttpError::OffsetBeyondEnd { offset, content_length });
    }
    let remaining = content_length - offset;
    if (buf_len as u64) > remaining {
        return Err(HttpError::ReadBeyondEnd { offset, length: buf_len, content_length });
    }
    if buf_len == 0 {
        return Ok(None);
    }
    Ok(Some(RangeRequest { start: offset, end: offset + buf_len as u64 - 1, len: buf_len }))
}

/// The value of the `Range` header: "bytes=START-END".
pub open spec fn range_header_text(start: u64, end: u64) -> Seq<char> {
    seq!['b', 'y', 't', 'e', 's', '='] + decimal(start as nat) + seq!['-'] + decimal(end as nat)
}

/// A planned request asks only for bytes the resource has, exactly as many
/// as the buffer holds, starting at the requested offset; a read that does
/// not fit in the resource is refused.
pub proof fn law_range_within_resource(offset: u64, buf_len: usize, content_length: u64)
    ensures
        spec_plan_range(offset, buf_len, content_length) matches Ok(Some(r)) ==> r.start == offset && r.start
            <= r.end < content_length && r.end - r.start + 1 == r.len && r.len == buf_len,
        spec_plan_range(offset, buf_len, content_length) matches Ok(None) ==> buf_len == 0,
        spec_plan_range(offset, buf_len, content_length) is Ok <==> offset < content_length && offset
            + buf_len <= content_length,
{
}

/// The `Range` header value naming the bytes `start..=end`.
pub fn range_header_value(start: u64, end: u64) -> (r: String)
    ensures
        r@ == range_header_text(start, end),
{
    let mut s = String::new();
    proof { reveal_strlit("bytes="); }
    push_str(&mut s, "bytes=");
    push_decimal(&mut s, start);
    proof { reveal_strlit("-"); }
    push_str(&mut s, "-");
    push_decimal(&mut s, end);
    assert(s@ =~= range_header_text(start, end));
    s
}

impl RangeRequest {
    /// The `Range` header value naming this request's bytes.
    pub fn header_value(&self) -> (r: String)
        ensures
            r@ == range_header_text(self.start, self.end),
    {
        range_header_value(self.start, self.end)
    }
}

/// The bytes, as an inclusive range of the archive, that a read of `length`
/// bytes at `offset` of a payload stored at `payload_offset` asks for;
/// refused when the read runs past the payload's `payload_size` bytes.
pub fn payload_range(payload_offset: u64, payload_size: u64, offset: u64, length: u64) -> (r: Result<(u64, u64), HttpError>)
    requires
        payload_offset + offset + length <= u64::MAX,
        payload_offset + payload_size <= u64::MAX,
        length > 0 || payload_offset + offset > 0,
    ensures
        offset + length > payload_size ==> r == Err::<(u64, u64), HttpError>(
            HttpError::BeyondPayload { offset, length, payload_size },
        ),
        offset + length <= payload_size ==> r == Ok::<(u64, u64), HttpError>(
            ((payload_offset + offset) as u64, (payload_offset + offset + length - 1) as u64),
        ),
{
    let absolute_offset = payload_offset + offset;
    if absolute_offset + length > payload_offset + payload_size {
        return Err(HttpError::BeyondPayload { offset, length, payload_size });
    }
    Ok((absolute_offset, absolute_offset + length - 1))
}

/// Whether to try a request again after `failures` failed attempts, and
/// after how many seconds: after the first and second failure, 2 and 4
/// seconds; after the third, give up.
pub open spec fn spec_retry_delay(failures: u32) -> Option<u64> {
    if failures >= MAX_RETRIES {
        None
    } else if failures == 1 {
        Some(2u64)
    } else {
        Some(4u64)
    }
}

/// A request is attempted at most three times: the delay schedule gives
/// up exactly from the third failure on.
pub proof fn law_retries_are_bounded(failures: u32)
    requires
        failures >= 1,
    ensures
        spec_retry_delay(failures) is None <==> failures >= MAX_RETRIES,
{
}

/// The delay before the next attempt, or `None` to give up.
pub fn retry_delay(failures: u32) -> (r: Option<u64>)
    requires
        failures >= 1,
    ensures
        r == spec_retry_delay(failures),
{
    if failures >= MAX_RETRIES {
        None
    } else if failures == 1 {
        Some(2)
    } else {
        Some(4)
    }
}

/// A reply to a ranged request is accepted when its status is a success and
/// it holds exactly the requested bytes.
pub open spec fn spec_check_reply(status: u16, body_len: usize, expected: usize) -> Result<(), HttpError> {
    if !(200 <= status <= 299) {
        Err(HttpError::BadStatus(status))
    } else if body_len != expected {
        Err(HttpError::WrongLength { expected, got: body_len })
    } else {
        Ok(())
    }
}

/// Checks the reply to a ranged request.
pub fn check_range_reply(status: u16, body_len: usize, expected: usize) -> (r: Result<(), HttpError>)
    ensures
        r == spec_check_reply(status, body_len, expected),
{
    if !(200 <= status && status <= 299) && status != 206 {
        return Err(HttpError::BadStatus(status));
    }
    if body_len != expected {
        return Err(HttpError::WrongLength { expected, got: body_len });
    }
    Ok(())
}

/// Checks the size a server reports for the resource.
pub fn check_content_length(reported: Option<u64>) -> (r: Result<u64, HttpError>)
    ensures
        match reported {
            None => r == Err::<u64, HttpError>(HttpError::UnknownLength),
            Some(n) => if n == 0 {
                r == Err::<u64, HttpError>(HttpError::EmptyResource)
            } else {
                r == Ok::<u64, HttpError>(n)
            },
        },
{
    match reported {
        None => Err(HttpError::UnknownLength),
        Some(n) => if n == 0 {
            Err(HttpError::EmptyResource)
        } else {
            Ok(n)
        },
    }
}

} // verus!
