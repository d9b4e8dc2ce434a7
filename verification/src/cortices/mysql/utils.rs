//! MySQL wire primitives: length-encoded integers and strings, three-byte
//! packet lengths, hex plugin data, and the packet sequence number.
//! @see https://dev.mysql.com/doc/internals/en/integer.html

use crate::cortices::mysql::error::{MySQLParserError, MySQLSerializeError};
use crate::cortices::utils::{lemma_encode_utf8_len, parse_u16, parse_u64, parse_u8, utf8_string, DeserializationError};
use crate::errors::{ImmuxError, ImmuxResult};
use crate::utils::{
    le_u16_value, le_u64_value, u16_le_bytes, u16_to_u8_array, u32_le_bytes, u32_to_u8_array,
    u64_le_bytes, u64_to_u8_array, lemma_u16_bytes_roundtrip, lemma_u32_bytes_roundtrip,
    lemma_u64_bytes_roundtrip,
};
use vstd::prelude::*;
use vstd::utf8::{
    decode_utf8, encode_utf8, encode_utf8_decode_utf8, encode_utf8_valid_utf8,
    is_char_boundary_iff_not_is_continuation_byte,
    is_ascii_chars, is_ascii_chars_encode_utf8, is_char_boundary_start_end_of_seq,
    is_continuation_byte, valid_utf8,
};

verus! {

pub const MYSQL_PACKET_HEADER_LENGTH: usize = 4;

/// The value of three little-endian bytes.
pub open spec fn le_u24_value(s: Seq<u8>) -> int {
    s[0] as int + 256 * s[1] as int + 65536 * s[2] as int
}

/// The length-encoded integer at the front of `s`: its value and the number
/// of bytes it spans, or the error that reading it meets.
pub open spec fn length_encoded_integer_at(s: Seq<u8>) -> Result<(u64, int), ImmuxError> {
    if s.len() < 1 {
        Err(ImmuxError::Deserialization(DeserializationError::InsufficientDataWidthU8))
    } else if s[0] < 0xfb {
        Ok((s[0] as u64, 1))
    } else if s[0] == 0xfc {
        if s.len() < 3 {
            Err(ImmuxError::Deserialization(DeserializationError::InsufficientDataWidthU16))
        } else {
            Ok((le_u16_value(s.subrange(1, 3)) as u64, 3))
        }
    } else if s[0] == 0xfd {
        if s.len() < 4 {
            Err(ImmuxError::Deserialization(DeserializationError::InsufficientDataWidthU32))
        } else {
            Ok((le_u24_value(s.subrange(1, 4)) as u64, 4))
        }
    } else if s[0] == 0xfe {
        if s.len() < 9 {
            Err(ImmuxError::Deserialization(DeserializationError::InsufficientDataWidthU64))
        } else {
            Ok((le_u64_value(s.subrange(1, 9)) as u64, 9))
        }
    } else {
        Err(ImmuxError::MySQLParser(MySQLParserError::UnknownIdentifier(s[0])))
    }
}

/// The bytes that encode `n` as a length-encoded integer, for `n < 2^64`.
/// Values from 2^16 up to 2^24 take a 0xfd marker and four value bytes.
pub open spec fn length_encoded_integer_bytes(n: u128) -> Seq<u8> {
    if n < 251 {
        seq![n as u8]
    } else if n < 0x1_0000 {
        seq![0xfcu8] + u16_le_bytes(n as u16)
    } else if n < 0x100_0000 {
        seq![0xfdu8] + u32_le_bytes(n as u32)
    } else {
        seq![0xfeu8] + u64_le_bytes(n as u64)
    }
}

pub fn parse_length_encoded_integer(buffer: &[u8]) -> (res: ImmuxResult<(usize, usize)>)
    ensures
        match length_encoded_integer_at(buffer@) {
            Ok((v, n)) => res == Ok::<(usize, usize), ImmuxError>((v as usize, n as usize)),
            Err(e) => res == Err::<(usize, usize), ImmuxError>(e),
        },
{
    let index: usize = 0;
    let (identifier, offset) = parse_u8(
        buffer,
        ImmuxError::Deserialization(DeserializationError::InsufficientDataWidthU8),
    )?;
    let index = index + offset;
    let rest = &buffer[index..buffer.len()];
    if identifier < 0xfb {
        Ok((identifier as usize, index))
    } else if identifier == 0xfc {
        let (value, offset) = parse_u16(
            rest,
            ImmuxError::Deserialization(DeserializationError::InsufficientDataWidthU16),
        )?;
        assert(rest@.subrange(0, 2) =~= buffer@.subrange(1, 3));
        Ok((value as usize, index + offset))
    } else if identifier == 0xfd {
        let (value, offset) = parse_u32_with_length_3(rest)?;
        assert(rest@.subrange(0, 3) =~= buffer@.subrange(1, 4));
        Ok((value as usize, index + offset))
    } else if identifier == 0xfe {
        let (value, offset) = parse_u64(
            rest,
            ImmuxError::Deserialization(DeserializationError::InsufficientDataWidthU64),
        )?;
        assert(rest@.subrange(0, 8) =~= buffer@.subrange(1, 9));
        assert(rest@.subrange(4, 8) =~= buffer@.subrange(1, 9).subrange(4, 8));
        Ok((value as usize, index + offset))
    } else {
        Err(ImmuxError::MySQLParser(MySQLParserError::UnknownIdentifier(identifier)))
    }
}

pub fn serialize_length_encoded_integer(num: u128) -> (res: ImmuxResult<Vec<u8>>)
    ensures
        num < 0x1_0000_0000_0000_0000 ==> (res matches Ok(v) && v@ == length_encoded_integer_bytes(num)),
        num >= 0x1_0000_0000_0000_0000 ==> res matches Err(ImmuxError::MySQLSerializer(
            MySQLSerializeError::LengthEncodedIntegerTooLarge,
        )),
{
    if num < 251 {
        let res = vec![num as u8];
        assert(res@ =~= length_encoded_integer_bytes(num));
        Ok(res)
    } else if num < 0x1_0000 {
        let mut res = vec![0xfcu8];
        let val = u16_to_u8_array(num as u16);
        res.push(val[0]);
        res.push(val[1]);
        assert(res@ =~= length_encoded_integer_bytes(num));
        Ok(res)
    } else if num < 0x100_0000 {
        let mut res = vec![0xfdu8];
        let val = u32_to_u8_array(num as u32);
        res.push(val[0]);
        res.push(val[1]);
        res.push(val[2]);
        res.push(val[3]);
        assert(res@ =~= length_encoded_integer_bytes(num));
        Ok(res)
    } else if num < 0x1_0000_0000_0000_0000 {
        let mut res = vec![0xfeu8];
        let val = u64_to_u8_array(num as u64);
        let mut i: usize = 0;
        while i < 8
            invariant
                0 <= i <= 8,
                val@ == u64_le_bytes(num as u64),
                res@ =~= seq![0xfeu8] + val@.take(i as int),
            decreases 8 - i,
        {
            res.push(val[i]);
            i = i + 1;
        }
        assert(val@.take(8) =~= val@);
        Ok(res)
    } else {
        Err(ImmuxError::MySQLSerializer(MySQLSerializeError::LengthEncodedIntegerTooLarge))
    }
}

/// Reading back a length-encoded integer gives the value written; the bytes it
/// spans are the bytes written, except for values from 2^16 up to 2^24, whose
/// four written value bytes are read as three.
pub proof fn lemma_length_encoded_integer_roundtrip(n: u128, rest: Seq<u8>)
    requires
        n < 0x1_0000_0000_0000_0000,
    ensures
        length_encoded_integer_at(length_encoded_integer_bytes(n) + rest) matches Ok((v, len))
            && v == n
            && (n < 0x1_0000 || n >= 0x100_0000 ==> len == length_encoded_integer_bytes(n).len())
            && (0x1_0000 <= n < 0x100_0000 ==> len == 4 && length_encoded_integer_bytes(n).len() == 5),
{
    let b = length_encoded_integer_bytes(n);
    let s = b + rest;
    if n < 251 {
    } else if n < 0x1_0000 {
        lemma_u16_bytes_roundtrip(n as u16);
        assert(s.subrange(1, 3) =~= u16_le_bytes(n as u16));
    } else if n < 0x100_0000 {
        lemma_u32_bytes_roundtrip(n as u32);
        assert(s.subrange(1, 4) =~= u32_le_bytes(n as u32).take(3));
    } else {
        lemma_u64_bytes_roundtrip(n as u64);
        assert(s.subrange(1, 9) =~= u64_le_bytes(n as u64));
    }
}

pub fn serialize_length_encoded_string(string: String) -> (res: ImmuxResult<Vec<u8>>)
    ensures
        res matches Ok(v) && v@ == length_encoded_integer_bytes(encode_utf8(string@).len() as u128)
            + encode_utf8(string@),
{
    let s = string.as_str();
    let bytes = s.as_bytes();
    let mut res = serialize_length_encoded_integer(s.len() as u128)?;
    let ghost head = res@;
    let mut i: usize = 0;
    while i < bytes.len()
        invariant
            0 <= i <= bytes@.len(),
            res@ =~= head + bytes@.take(i as int),
        decreases bytes@.len() - i,
    {
        res.push(bytes[i]);
        i = i + 1;
    }
    assert(bytes@.take(bytes@.len() as int) =~= bytes@);
    Ok(res)
}

/// Reads `length` bytes of UTF-8 as a string. The caller owes a buffer of at
/// least `length` bytes.
pub fn parse_string_with_fixed_length(buffer: &[u8], length: usize) -> (res: ImmuxResult<(String, usize)>)
    requires
        length <= buffer@.len(),
    ensures
        valid_utf8(buffer@.take(length as int)) ==> (res matches Ok((s, n)) && s@ == decode_utf8(
            buffer@.take(length as int),
        ) && n == length),
        !valid_utf8(buffer@.take(length as int)) ==> res matches Err(ImmuxError::MySQLParser(
            MySQLParserError::ParseStringError,
        )),
{
    let bytes = &buffer[0..length];
    assert(bytes@ =~= buffer@.take(length as int));
    match utf8_string(bytes) {
        Some(val) => Ok((val, length)),
        None => Err(ImmuxError::MySQLParser(MySQLParserError::ParseStringError)),
    }
}

pub fn parse_u32_with_length_3(buffer: &[u8]) -> (res: ImmuxResult<(u32, usize)>)
    ensures
        buffer@.len() < 3 ==> res matches Err(
            ImmuxError::Deserialization(DeserializationError::InsufficientDataWidthU32),
        ),
        buffer@.len() >= 3 ==> res == Ok::<(u32, usize), ImmuxError>(
            (le_u24_value(buffer@) as u32, 3usize),
        ),
{
    let field_size: usize = 3;
    if buffer.len() < field_size {
        Err(ImmuxError::Deserialization(DeserializationError::InsufficientDataWidthU32))
    } else {
        let res = buffer[0] as u32 + 256 * (buffer[1] as u32) + 65536 * (buffer[2] as u32);
        Ok((res, field_size))
    }
}

pub fn u32_to_u8_array_with_length_3(x: u32) -> (res: ImmuxResult<[u8; 3]>)
    ensures
        x > 0xff_ffff ==> res matches Err(
            ImmuxError::MySQLSerializer(MySQLSerializeError::PacketSizeTooLarge),
        ),
        x <= 0xff_ffff ==> (res matches Ok(a) && a@ == u32_le_bytes(x).take(3)),
{
    if x > 0xff_ffff {
        Err(ImmuxError::MySQLSerializer(MySQLSerializeError::PacketSizeTooLarge))
    } else {
        let bytes = u32_to_u8_array(x);
        let res = [bytes[0], bytes[1], bytes[2]];
        assert(res@ =~= u32_le_bytes(x).take(3));
        Ok(res)
    }
}

/// Writing a packet length as three bytes and reading it back gives the length.
pub proof fn lemma_u24_roundtrip(x: u32)
    requires
        x <= 0xff_ffff,
    ensures
        le_u24_value(u32_le_bytes(x).take(3)) == x,
{
    lemma_u32_bytes_roundtrip(x);
}

/// The value of a hexadecimal digit.
pub open spec fn hex_digit_value(c: char) -> Option<u8> {
    if '0' <= c && c <= '9' {
        Some((c as u32 - '0' as u32) as u8)
    } else if 'a' <= c && c <= 'f' {
        Some((c as u32 - 'a' as u32 + 10) as u8)
    } else if 'A' <= c && c <= 'F' {
        Some((c as u32 - 'A' as u32 + 10) as u8)
    } else {
        None
    }
}

/// What `u8::from_str_radix(s, 16)` gives for a string of one or two
/// characters: an optional leading `+` followed by hexadecimal digits.
pub open spec fn hex_radix_value(s: Seq<char>) -> Option<u8> {
    if s.len() == 1 {
        hex_digit_value(s[0])
    } else if s.len() == 2 {
        if s[0] == '+' {
            hex_digit_value(s[1])
        } else {
            match (hex_digit_value(s[0]), hex_digit_value(s[1])) {
                (Some(h), Some(l)) => Some((16 * h + l) as u8),
                _ => None,
            }
        }
    } else {
        None
    }
}

/// `u8::from_str_radix(s, 16)` on one or two characters. Claimed, as std
/// documents it: an optional `+` followed by hexadecimal digits is read as a
/// number; anything else is an error. The error's kind is not stated.
#[verifier::external_body]
fn u8_from_hex_str(s: &str) -> (res: Result<u8, std::num::ParseIntError>)
    requires
        1 <= s@.len() <= 2,
    ensures
        res is Ok <==> hex_radix_value(s@) is Some,
        res matches Ok(v) ==> hex_radix_value(s@) == Some(v),
{
    u8::from_str_radix(s, 16)
}

/// The end of the chunk of at most two bytes that starts at `i`.
pub open spec fn hex_chunk_end(n: int, i: int) -> int {
    if i + 2 <= n {
        i + 2
    } else {
        n
    }
}

/// Splitting `bytes` into chunks of two bytes cuts no character in two.
pub open spec fn hex_chunks_split_cleanly(bytes: Seq<u8>) -> bool {
    forall|k: int| 0 <= k < bytes.len() && k % 2 == 0 ==> !is_continuation_byte(#[trigger] bytes[k])
}

/// The bytes that the hex text `bytes` decodes to from byte `i` on, two
/// characters at a time, or nothing when a chunk is not a hex number.
pub open spec fn hex_decoded_from(bytes: Seq<u8>, i: int) -> Option<Seq<u8>>
    decreases bytes.len() + 1 - i,
{
    if i >= bytes.len() || i < 0 {
        Some(Seq::empty())
    } else {
        match hex_radix_value(decode_utf8(bytes.subrange(i, hex_chunk_end(bytes.len() as int, i)))) {
            None => None,
            Some(v) => match hex_decoded_from(bytes, i + 2) {
                None => None,
                Some(rest) => Some(seq![v] + rest),
            },
        }
    }
}

/// The bytes that the hex text `chars` decodes to from character `i` on, two
/// characters at a time, or nothing when a chunk is not a hex number.
pub open spec fn hex_text_value(chars: Seq<char>, i: int) -> Option<Seq<u8>>
    decreases chars.len() + 1 - i,
{
    if i >= chars.len() || i < 0 {
        Some(Seq::empty())
    } else {
        match hex_radix_value(chars.subrange(i, hex_chunk_end(chars.len() as int, i))) {
            None => None,
            Some(v) => match hex_text_value(chars, i + 2) {
                None => None,
                Some(rest) => Some(seq![v] + rest),
            },
        }
    }
}

/// ASCII text splits cleanly into chunks, and its bytes decode as its
/// characters do.
pub proof fn lemma_ascii_hex_text(chars: Seq<char>, i: int)
    requires
        is_ascii_chars(chars),
    ensures
        hex_chunks_split_cleanly(encode_utf8(chars)),
        hex_decoded_from(encode_utf8(chars), i) == hex_text_value(chars, i),
    decreases chars.len() + 1 - i,
{
    let bytes = encode_utf8(chars);
    is_ascii_chars_encode_utf8(chars);
    assert forall|k: int| 0 <= k < bytes.len() && k % 2 == 0 implies !is_continuation_byte(
        #[trigger] bytes[k],
    ) by {
        assert(bytes[k] < 0x80);
    }
    if i >= chars.len() || i < 0 {
    } else {
        let e = hex_chunk_end(chars.len() as int, i);
        let sub = chars.subrange(i, e);
        assert(is_ascii_chars(sub));
        is_ascii_chars_encode_utf8(sub);
        assert(bytes.subrange(i, e) =~= encode_utf8(sub));
        encode_utf8_decode_utf8(sub);
        lemma_ascii_hex_text(chars, i + 2);
    }
}

/// Decodes hex text two characters at a time; a last odd character is a
/// number of its own. The caller owes text whose two-byte chunks cut no
/// character in two.
pub fn decode_hex(s: &str) -> (res: Result<Vec<u8>, std::num::ParseIntError>)
    requires
        hex_chunks_split_cleanly(encode_utf8(s@)),
    ensures
        match hex_decoded_from(encode_utf8(s@), 0) {
            Some(v) => res matches Ok(r) && r@ == v,
            None => res is Err,
        },
{
    let ghost bytes = encode_utf8(s@);
    proof {
        encode_utf8_valid_utf8(s@);
    }
    let n = s.as_bytes().len();
    let mut res: Vec<u8> = Vec::new();
    let mut i: usize = 0;
    while i < n
        invariant
            n == bytes.len(),
            bytes == encode_utf8(s@),
            valid_utf8(bytes),
            hex_chunks_split_cleanly(bytes),
            i % 2 == 0 || i == n,
            i <= n,
            hex_decoded_from(bytes, 0) == match hex_decoded_from(bytes, i as int) {
                Some(r) => Some(res@ + r),
                None => None::<Seq<u8>>,
            },
        decreases n - i,
    {
        let end: usize = if n - i == 1 {
            i + 1
        } else {
            i + 2
        };
        proof {
            is_char_boundary_iff_not_is_continuation_byte(bytes, i as int);
        }
        let (_, tail) = s.split_at(i);
        let ghost tail_bytes = bytes.subrange(i as int, n as int);
        proof {
            encode_utf8_valid_utf8(tail@);
            if end < n {
                assert(tail_bytes[end - i] == bytes[end as int]);
                is_char_boundary_iff_not_is_continuation_byte(tail_bytes, end - i);
            } else {
                is_char_boundary_start_end_of_seq(tail_bytes);
            }
        }
        let (chunk, _) = tail.split_at(end - i);
        proof {
            assert(encode_utf8(chunk@) =~= bytes.subrange(i as int, end as int));
            encode_utf8_decode_utf8(chunk@);
            lemma_encode_utf8_len(chunk@);
            assert(hex_chunk_end(n as int, i as int) == end);
        }
        let v = u8_from_hex_str(chunk)?;
        proof {
            assert(res@.push(v) + hex_decoded_from(bytes, i + 2).unwrap_or(Seq::empty())
                =~= res@ + (seq![v] + hex_decoded_from(bytes, i + 2).unwrap_or(Seq::empty())));
        }
        res.push(v);
        i = end;
    }
    assert(res@ + Seq::<u8>::empty() =~= res@);
    Ok(res)
}

/// The phase of the connection handshake a client packet belongs to, told by
/// its sequence number.
#[derive(Debug, PartialEq, Eq, Structural)]
pub enum ConnectionStatePhase {
    LoginRequest,
    AuthSwitchResponse,
}

/// Whether `get_packet_number` has an answer for `buffer`: a sequence number
/// other than 1 or 3 belongs to no phase of the handshake this server runs.
pub open spec fn packet_number_is_handled(buffer: Seq<u8>) -> bool {
    buffer.len() < 4 || buffer[3] == 1 || buffer[3] == 3
}

pub fn get_packet_number(buffer: &[u8]) -> (res: ImmuxResult<ConnectionStatePhase>)
    requires
        packet_number_is_handled(buffer@),
    ensures
        buffer@.len() < 4 ==> res matches Err(
            ImmuxError::Deserialization(DeserializationError::InsufficientDataWidthU32),
        ),
        buffer@.len() >= 4 && buffer@[3] == 1 ==> res == Ok::<ConnectionStatePhase, ImmuxError>(
            ConnectionStatePhase::LoginRequest,
        ),
        buffer@.len() >= 4 && buffer@[3] == 3 ==> res == Ok::<ConnectionStatePhase, ImmuxError>(
            ConnectionStatePhase::AuthSwitchResponse,
        ),
{
    let packet_header_size: usize = 4;
    if buffer.len() < packet_header_size {
        return Err(ImmuxError::Deserialization(DeserializationError::InsufficientDataWidthU32));
    }
    if buffer[3] == 1 {
        Ok(ConnectionStatePhase::LoginRequest)
    } else {
        Ok(ConnectionStatePhase::AuthSwitchResponse)
    }
}

} // verus!
