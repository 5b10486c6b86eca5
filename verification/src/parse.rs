//! Field readers: fixed-width little-endian integers and zero-terminated
//! strings, read from a byte buffer at a cursor that each read advances.
use vstd::prelude::*;
use vstd::utf8::{decode_utf8, encode_utf8, valid_utf8};
use crate::error::SourceQueryError;

verus! {

/// Whether `width` bytes of `data` lie at `offset`.
pub open spec fn in_bounds(data: Seq<u8>, offset: int, width: int) -> bool {
    0 <= offset && offset + width <= data.len()
}

/// The unsigned 16-bit little-endian number at `offset`.
pub open spec fn u16_le_at(data: Seq<u8>, offset: int) -> int {
    data[offset] + 0x100 * data[offset + 1]
}

/// The unsigned 32-bit little-endian number at `offset`.
pub open spec fn u32_le_at(data: Seq<u8>, offset: int) -> int {
    u16_le_at(data, offset) + 0x1_0000 * u16_le_at(data, offset + 2)
}

/// The signed 32-bit little-endian number at `offset`, in two's complement.
pub open spec fn i32_le_at(data: Seq<u8>, offset: int) -> int {
    let unsigned = u32_le_at(data, offset);
    if unsigned >= 0x8000_0000 {
        unsigned - 0x1_0000_0000
    } else {
        unsigned
    }
}

/// The unsigned 64-bit little-endian number at `offset`.
pub open spec fn u64_le_at(data: Seq<u8>, offset: int) -> int {
    u32_le_at(data, offset) + 0x1_0000_0000 * u32_le_at(data, offset + 4)
}

/// The position of the first zero byte at or after `start`. Where no zero
/// byte follows, this is the length of `data` (or `start`, if that already
/// lies outside the buffer).
pub open spec fn terminator(data: Seq<u8>, start: int) -> int
    decreases data.len() - start,
{
    if start < 0 || start >= data.len() || data[start] == 0 {
        start
    } else {
        terminator(data, start + 1)
    }
}

/// Whether a zero byte closes the string that begins at `start`.
pub open spec fn terminated(data: Seq<u8>, start: int) -> bool {
    0 <= start && terminator(data, start) < data.len()
}

/// The bytes of the string that begins at `start`, without its terminator.
pub open spec fn string_bytes(data: Seq<u8>, start: int) -> Seq<u8> {
    data.subrange(start, terminator(data, start))
}

/// Whether the string that begins at `start` is terminated and valid UTF-8.
pub open spec fn string_ok(data: Seq<u8>, start: int) -> bool {
    terminated(data, start) && valid_utf8(string_bytes(data, start))
}

/// The text of the string that begins at `start`.
pub open spec fn string_at(data: Seq<u8>, start: int) -> Seq<char> {
    decode_utf8(string_bytes(data, start))
}

/// The cursor after the string that begins at `start`: one past its
/// terminator.
pub open spec fn after_string(data: Seq<u8>, start: int) -> int {
    terminator(data, start) + 1
}

/// `terminator` finds the first zero byte: it never moves backwards, skips
/// only non-zero bytes, and stops on a zero byte unless the buffer ends first.
pub proof fn lemma_terminator_is_first_zero(data: Seq<u8>, start: int)
    requires
        0 <= start <= data.len(),
    ensures
        start <= terminator(data, start) <= data.len(),
        forall|i: int| start <= i < terminator(data, start) ==> data[i] != 0,
        terminator(data, start) < data.len() ==> data[terminator(data, start)] == 0,
    decreases data.len() - start,
{
    if start < data.len() && data[start] != 0 {
        lemma_terminator_is_first_zero(data, start + 1);
    }
}

/// A string is the span of bytes before its terminator, whatever the span
/// holds: where `len` non-zero bytes at `start` are followed by a zero byte,
/// the string at `start` has exactly those bytes, the cursor after it stands
/// behind the zero byte, and it is accepted if and only if the span is valid
/// UTF-8, which its text then encodes.
pub proof fn lemma_string_is_span_before_zero(data: Seq<u8>, start: int, len: int)
    requires
        0 <= start,
        0 <= len,
        start + len < data.len(),
        forall|i: int| start <= i < start + len ==> data[i] != 0,
        data[start + len] == 0,
    ensures
        terminator(data, start) == start + len,
        string_bytes(data, start) == data.subrange(start, start + len),
        after_string(data, start) == start + len + 1,
        string_ok(data, start) <==> valid_utf8(data.subrange(start, start + len)),
        string_ok(data, start) ==> encode_utf8(string_at(data, start)) == data.subrange(
            start,
            start + len,
        ),
    decreases len,
{
    if len > 0 {
        lemma_string_is_span_before_zero(data, start + 1, len - 1);
    }
    if valid_utf8(data.subrange(start, start + len)) {
        vstd::utf8::decode_utf8_encode_utf8(data.subrange(start, start + len));
    }
}

/// A terminated string is not changed by what is appended to the buffer: it
/// keeps its terminator, its bytes and its text.
pub proof fn lemma_string_survives_appending(data: Seq<u8>, excess: Seq<u8>, start: int)
    requires
        terminated(data, start),
    ensures
        terminator(data + excess, start) == terminator(data, start),
        string_bytes(data + excess, start) == string_bytes(data, start),
        string_at(data + excess, start) == string_at(data, start),
        string_ok(data + excess, start) == string_ok(data, start),
    decreases data.len() - start,
{
    if start < data.len() && data[start] != 0 {
        lemma_string_survives_appending(data, excess, start + 1);
    }
    lemma_terminator_is_first_zero(data, start);
    assert(string_bytes(data + excess, start) =~= string_bytes(data, start));
}

/// `std::str::from_utf8`: the bytes are accepted exactly when they are
/// well-formed UTF-8, and the string slice then holds the characters that
/// they encode.
#[verifier::external_body]
fn str_from_utf8(bytes: &[u8]) -> (r: Option<&str>)
    ensures
        r is Some <==> valid_utf8(bytes@),
        r matches Some(s) ==> s@ == decode_utf8(bytes@),
{
    match std::str::from_utf8(bytes) {
        Ok(s) => Some(s),
        Err(_) => None,
    }
}

/// Reads the zero-terminated string at `offset` and moves `offset` past the
/// terminator.
///
/// A string that runs to the end of the buffer without a terminator is
/// rejected with the cursor left in place; one that is terminated but not
/// valid UTF-8 is rejected with the cursor past its terminator.
pub fn get_string(data: &[u8], offset: &mut usize) -> (r: Result<String, SourceQueryError>)
    ensures
        match r {
            Ok(s) => {
                &&& string_ok(data@, *old(offset) as int)
                &&& s@ == string_at(data@, *old(offset) as int)
                &&& encode_utf8(s@) == string_bytes(data@, *old(offset) as int)
            },
            Err(e) => {
                &&& !string_ok(data@, *old(offset) as int)
                &&& e == SourceQueryError::MalformedPacketBody
            },
        },
        *final(offset) == if terminated(data@, *old(offset) as int) {
            after_string(data@, *old(offset) as int)
        } else {
            *old(offset) as int
        },
{
    let start: usize = *offset;
    let mut end: usize = start;
    while end < data.len() && data[end] != 0
        invariant
            start <= end,
            terminator(data@, start as int) == terminator(data@, end as int),
        decreases data.len() - end,
    {
        end += 1;
    }
    if end >= data.len() {
        return Err(SourceQueryError::MalformedPacketBody);
    }
    *offset = end + 1;
    match str_from_utf8(&data[start..end]) {
        Some(s) => {
            proof {
                vstd::utf8::decode_utf8_encode_utf8(data@.subrange(start as int, end as int));
            }
            Ok(s.to_owned())
        },
        None => Err(SourceQueryError::MalformedPacketBody),
    }
}

/// Reads the byte at `offset` and moves `offset` past it. A buffer that ends
/// at or before `offset` is rejected with the cursor left in place.
pub fn get_u8(data: &[u8], offset: &mut usize) -> (r: Result<u8, SourceQueryError>)
    ensures
        r == if in_bounds(data@, *old(offset) as int, 1) {
            Ok::<u8, SourceQueryError>(data@[*old(offset) as int])
        } else {
            Err(SourceQueryError::MalformedPacketBody)
        },
        *final(offset) == *old(offset) + if r is Ok { 1int } else { 0 },
{
    let at: usize = *offset;
    if at >= data.len() {
        return Err(SourceQueryError::MalformedPacketBody);
    }
    *offset = at + 1;
    Ok(data[at])
}

/// Reads the two bytes at `offset` as a little-endian number and moves
/// `offset` past them. A buffer with fewer than two bytes left is rejected
/// with the cursor left in place.
pub fn get_u16(data: &[u8], offset: &mut usize) -> (r: Result<u16, SourceQueryError>)
    ensures
        match r {
            Ok(v) => in_bounds(data@, *old(offset) as int, 2) && v == u16_le_at(
                data@,
                *old(offset) as int,
            ),
            Err(e) => !in_bounds(data@, *old(offset) as int, 2) && e
                == SourceQueryError::MalformedPacketBody,
        },
        *final(offset) == *old(offset) + if r is Ok { 2int } else { 0 },
{
    let at: usize = *offset;
    if at > data.len() || data.len() - at < 2 {
        return Err(SourceQueryError::MalformedPacketBody);
    }
    *offset = at + 2;
    Ok(read_u16_le(data, at))
}

/// Reads the eight bytes at `offset` as a little-endian number and moves
/// `offset` past them. A buffer with fewer than eight bytes left is rejected
/// with the cursor left in place.
pub fn get_u64(data: &[u8], offset: &mut usize) -> (r: Result<u64, SourceQueryError>)
    ensures
        match r {
            Ok(v) => in_bounds(data@, *old(offset) as int, 8) && v == u64_le_at(
                data@,
                *old(offset) as int,
            ),
            Err(e) => !in_bounds(data@, *old(offset) as int, 8) && e
                == SourceQueryError::MalformedPacketBody,
        },
        *final(offset) == *old(offset) + if r is Ok { 8int } else { 0 },
{
    let at: usize = *offset;
    if at > data.len() || data.len() - at < 8 {
        return Err(SourceQueryError::MalformedPacketBody);
    }
    *offset = at + 8;
    let low: u64 = read_u32_le(data, at) as u64;
    let high: u64 = read_u32_le(data, at + 4) as u64;
    Ok(high * 0x1_0000_0000 + low)
}

/// The little-endian number in the two bytes at `at`.
pub(crate) fn read_u16_le(data: &[u8], at: usize) -> (v: u16)
    requires
        in_bounds(data@, at as int, 2),
    ensures
        v == u16_le_at(data@, at as int),
{
    let low: u16 = data[at] as u16;
    let high: u16 = data[at + 1] as u16;
    high * 0x100 + low
}

/// The little-endian number in the four bytes at `at`.
pub(crate) fn read_u32_le(data: &[u8], at: usize) -> (v: u32)
    requires
        in_bounds(data@, at as int, 4),
    ensures
        v == u32_le_at(data@, at as int),
{
    assert(data@.len() == data.len());
    let low: u32 = read_u16_le(data, at) as u32;
    let high: u32 = read_u16_le(data, at + 2) as u32;
    high * 0x1_0000 + low
}

/// The little-endian two's-complement number in the four bytes at `at`.
pub(crate) fn read_i32_le(data: &[u8], at: usize) -> (v: i32)
    requires
        in_bounds(data@, at as int, 4),
    ensures
        v == i32_le_at(data@, at as int),
{
    let unsigned: u32 = read_u32_le(data, at);
    if unsigned >= 0x8000_0000 {
        ((unsigned - 0x8000_0000) as i32) + i32::MIN
    } else {
        unsigned as i32
    }
}

} // verus!
