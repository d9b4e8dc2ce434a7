//! Reading fixed-width little-endian integers and NUL-terminated strings from
//! the front of a byte buffer. Each reader returns the value and the number of
//! bytes it took, or the error it is handed when the buffer is too short.

use crate::errors::{ImmuxError, ImmuxResult};
use crate::utils::{
    le_u16_value, le_u32_value, le_u64_value, u8_array_to_u16, u8_array_to_u32, u8_array_to_u64,
};
use vstd::prelude::*;
use vstd::utf8::{decode_utf8, encode_scalar, encode_utf8, valid_utf8};

verus! {

/// How reading a packet ends: with a value, with the error the reader
/// reports, or by running past the end of the buffer, which the reader does
/// not guard against.
pub enum ParseOutcome<T> {
    Parsed(T),
    Failed(ImmuxError),
    OutOfBounds,
}

#[derive(Debug, PartialEq, Eq, Structural)]
pub enum DeserializationError {
    InsufficientDataWidthU8,
    InsufficientDataWidthU16,
    InsufficientDataWidthU32,
    InsufficientDataWidthU64,
}

/// `std::str::from_utf8`: the bytes read as a string when they are valid
/// UTF-8, and nothing otherwise. Claimed: the call succeeds exactly on valid
/// UTF-8, and the string it gives holds the characters those bytes encode.
#[verifier::external_body]
pub(crate) fn utf8_str(bytes: &[u8]) -> (res: Option<&str>)
    ensures
        res is Some <==> valid_utf8(bytes@),
        res matches Some(s) ==> s@ == decode_utf8(bytes@),
{
    std::str::from_utf8(bytes).ok()
}

/// Reads a string of valid UTF-8 out of `bytes`, or nothing when they are not.
pub(crate) fn utf8_string(bytes: &[u8]) -> (res: Option<String>)
    ensures
        res is Some <==> valid_utf8(bytes@),
        res matches Some(s) ==> s@ == decode_utf8(bytes@),
{
    match utf8_str(bytes) {
        Some(s) => Some(s.to_owned()),
        None => None,
    }
}

/// A character takes at least one byte of UTF-8.
pub proof fn lemma_encode_utf8_len(chars: Seq<char>)
    ensures
        chars.len() <= encode_utf8(chars).len(),
        chars.len() == 0 <==> encode_utf8(chars).len() == 0,
    decreases chars.len(),
{
    if chars.len() > 0 {
        assert(encode_scalar(chars[0] as u32).len() >= 1);
        lemma_encode_utf8_len(chars.drop_first());
    }
}

/// `t` is the position of the first zero byte of `s`.
pub open spec fn is_first_zero(s: Seq<u8>, t: int) -> bool {
    &&& 0 <= t < s.len()
    &&& s[t] == 0
    &&& forall|k: int| 0 <= k < t ==> s[k] != 0
}

/// The position of the first zero byte of `s`, if it has one.
pub open spec fn first_zero(s: Seq<u8>) -> Option<int> {
    if exists|t: int| is_first_zero(s, t) {
        Some(choose|t: int| is_first_zero(s, t))
    } else {
        None
    }
}

/// The C string at the front of `s`: the characters before its first zero
/// byte and the number of bytes it spans with that zero; nothing when there
/// is no zero byte or the bytes before it are not valid UTF-8.
pub open spec fn cstring_at(s: Seq<u8>) -> Option<(Seq<char>, int)> {
    match first_zero(s) {
        None => None,
        Some(t) => if valid_utf8(s.take(t)) {
            Some((decode_utf8(s.take(t)), t + 1))
        } else {
            None
        },
    }
}

/// The first zero byte is where it is found to be.
pub proof fn lemma_first_zero_unique(s: Seq<u8>, t: int)
    requires
        is_first_zero(s, t),
    ensures
        first_zero(s) == Some(t),
{
    let c = choose|u: int| is_first_zero(s, u);
    assert(is_first_zero(s, c));
    if c < t {
        assert(s[c] != 0);
    } else if t < c {
        assert(s[t] != 0);
    }
}

pub fn parse_u8(buffer: &[u8], error: ImmuxError) -> (res: ImmuxResult<(u8, usize)>)
    ensures
        buffer@.len() < 1 ==> res == Err::<(u8, usize), ImmuxError>(error),
        buffer@.len() >= 1 ==> res == Ok::<(u8, usize), ImmuxError>((buffer@[0], 1usize)),
{
    if buffer.len() < 1 {
        Err(error)
    } else {
        Ok((buffer[0], 1))
    }
}

pub fn parse_u16(buffer: &[u8], error: ImmuxError) -> (res: ImmuxResult<(u16, usize)>)
    ensures
        buffer@.len() < 2 ==> res == Err::<(u16, usize), ImmuxError>(error),
        buffer@.len() >= 2 ==> res == Ok::<(u16, usize), ImmuxError>(
            (le_u16_value(buffer@) as u16, 2usize),
        ),
{
    if buffer.len() < 2 {
        Err(error)
    } else {
        Ok((u8_array_to_u16(&[buffer[0], buffer[1]]), 2))
    }
}

pub fn parse_u32(buffer: &[u8], error: ImmuxError) -> (res: ImmuxResult<(u32, usize)>)
    ensures
        buffer@.len() < 4 ==> res == Err::<(u32, usize), ImmuxError>(error),
        buffer@.len() >= 4 ==> res == Ok::<(u32, usize), ImmuxError>(
            (le_u32_value(buffer@) as u32, 4usize),
        ),
{
    if buffer.len() < 4 {
        Err(error)
    } else {
        Ok((u8_array_to_u32(&[buffer[0], buffer[1], buffer[2], buffer[3]]), 4))
    }
}

pub fn parse_u64(buffer: &[u8], error: ImmuxError) -> (res: ImmuxResult<(u64, usize)>)
    ensures
        buffer@.len() < 8 ==> res == Err::<(u64, usize), ImmuxError>(error),
        buffer@.len() >= 8 ==> res == Ok::<(u64, usize), ImmuxError>(
            (le_u64_value(buffer@) as u64, 8usize),
        ),
{
    if buffer.len() < 8 {
        Err(error)
    } else {
        let arr = [
            buffer[0],
            buffer[1],
            buffer[2],
            buffer[3],
            buffer[4],
            buffer[5],
            buffer[6],
            buffer[7],
        ];
        let v = u8_array_to_u64(&arr);
        assert(arr@.subrange(4, 8) =~= buffer@.subrange(4, 8));
        Ok((v, 8))
    }
}

/// Reads the NUL-terminated UTF-8 string at the front of `buffer`.
pub fn parse_cstring(buffer: &[u8], error: ImmuxError) -> (res: ImmuxResult<(String, usize)>)
    ensures
        match res {
            Ok((s, n)) => cstring_at(buffer@) == Some((s@, n as int)),
            Err(e) => cstring_at(buffer@) is None && e == error,
        },
{
    let mut t: usize = 0;
    while t < buffer.len() && buffer[t] != 0
        invariant
            t <= buffer@.len(),
            forall|k: int| 0 <= k < t ==> buffer@[k] != 0,
        decreases buffer@.len() - t,
    {
        t = t + 1;
    }
    if t == buffer.len() {
        assert(!exists|u: int| is_first_zero(buffer@, u));
        return Err(error);
    }
    proof {
        lemma_first_zero_unique(buffer@, t as int);
    }
    let prefix = &buffer[0..t];
    assert(prefix@ =~= buffer@.take(t as int));
    match utf8_string(prefix) {
        None => Err(error),
        Some(s) => Ok((s, t + 1)),
    }
}

/// Appends `bytes` to `res`.
pub fn append_bytes(res: &mut Vec<u8>, bytes: &[u8])
    ensures
        final(res)@ == old(res)@ + bytes@,
{
    let mut i: usize = 0;
    while i < bytes.len()
        invariant
            i <= bytes@.len(),
            res@ == old(res)@ + bytes@.take(i as int),
        decreases bytes@.len() - i,
    {
        res.push(bytes[i]);
        i = i + 1;
        assert(res@ =~= old(res)@ + bytes@.take(i as int));
    }
    assert(bytes@.take(bytes@.len() as int) =~= bytes@);
}

/// Appends the UTF-8 bytes of `s` to `res`.
pub fn append_str(res: &mut Vec<u8>, s: &str)
    ensures
        final(res)@ == old(res)@ + encode_utf8(s@),
{
    append_bytes(res, s.as_bytes());
}

} // verus!
