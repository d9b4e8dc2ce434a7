//! The standard header in front of every message.
//! @see https://docs.mongodb.com/manual/reference/mongodb-wire-protocol/#standard-message-header

use crate::cortices::mongo::error::MongoParserError;
use crate::cortices::mongo::ops::opcodes::MongoOpCode;
use crate::cortices::mongo::utils::{
    get_op_code_value, lemma_op_code_roundtrip, op_code_of, op_code_value, pick_op_code,
};
use crate::cortices::utils::{append_bytes, parse_u32};
use crate::errors::{ImmuxError, ImmuxResult};
use crate::utils::{le_u32_value, lemma_u32_bytes_roundtrip, u32_le_bytes, u32_to_u8_array};
use vstd::prelude::*;

verus! {

#[derive(Debug, Clone, Copy, PartialEq, Eq, Structural)]
pub struct MsgHeader {
    /// total message size, including this header
    pub message_length: u32,
    /// identifier for this message
    pub request_id: u32,
    /// request id of the request this message answers
    pub response_to: u32,
    /// request type
    pub op_code: MongoOpCode,
}

/// The header at the front of `buffer`: four little-endian words, the last
/// an op code.
pub open spec fn msg_header_at(buffer: Seq<u8>) -> Result<MsgHeader, ImmuxError> {
    if buffer.len() < 16 {
        Err(ImmuxError::MongoParser(MongoParserError::NotEnoughBufferSize))
    } else {
        let op = le_u32_value(buffer.subrange(12, 16)) as u32;
        match op_code_of(op) {
            None => Err(ImmuxError::MongoParser(MongoParserError::UnknownOpCode(op))),
            Some(op_code) => Ok(
                MsgHeader {
                    message_length: le_u32_value(buffer) as u32,
                    request_id: le_u32_value(buffer.subrange(4, 8)) as u32,
                    response_to: le_u32_value(buffer.subrange(8, 12)) as u32,
                    op_code,
                },
            ),
        }
    }
}

/// The sixteen bytes written for a header.
pub open spec fn msg_header_bytes(h: MsgHeader) -> Seq<u8> {
    u32_le_bytes(h.message_length) + u32_le_bytes(h.request_id) + u32_le_bytes(h.response_to)
        + u32_le_bytes(op_code_value(h.op_code))
}

/// Reads the header; it takes sixteen bytes.
pub fn parse_msg_header(buffer: &[u8]) -> (res: ImmuxResult<(MsgHeader, usize)>)
    ensures
        match msg_header_at(buffer@) {
            Ok(h) => res == Ok::<(MsgHeader, usize), ImmuxError>((h, 16usize)),
            Err(e) => res == Err::<(MsgHeader, usize), ImmuxError>(e),
        },
{
    let mut index: usize = 0;
    let (message_length, offset) = parse_u32(
        &buffer[index..buffer.len()],
        ImmuxError::MongoParser(MongoParserError::NotEnoughBufferSize),
    )?;
    index += offset;
    let (request_id, offset) = parse_u32(
        &buffer[index..buffer.len()],
        ImmuxError::MongoParser(MongoParserError::NotEnoughBufferSize),
    )?;
    index += offset;
    let (response_to, offset) = parse_u32(
        &buffer[index..buffer.len()],
        ImmuxError::MongoParser(MongoParserError::NotEnoughBufferSize),
    )?;
    index += offset;
    let (op_code_u32, offset) = parse_u32(
        &buffer[index..buffer.len()],
        ImmuxError::MongoParser(MongoParserError::NotEnoughBufferSize),
    )?;
    index += offset;
    assert(buffer@.subrange(4, buffer@.len() as int).subrange(0, 4) =~= buffer@.subrange(4, 8));
    assert(buffer@.subrange(8, buffer@.len() as int).subrange(0, 4) =~= buffer@.subrange(8, 12));
    assert(buffer@.subrange(12, buffer@.len() as int).subrange(0, 4) =~= buffer@.subrange(12, 16));
    let op_code = pick_op_code(op_code_u32)?;
    Ok((MsgHeader { message_length, request_id, response_to, op_code }, index))
}

/// Writes the header: its four words, little-endian.
pub fn serialize_msg_header(message_header: &MsgHeader) -> (res: Vec<u8>)
    ensures
        res@ == msg_header_bytes(*message_header),
{
    let mut res: Vec<u8> = Vec::new();
    append_bytes(&mut res, &u32_to_u8_array(message_header.message_length));
    append_bytes(&mut res, &u32_to_u8_array(message_header.request_id));
    append_bytes(&mut res, &u32_to_u8_array(message_header.response_to));
    append_bytes(&mut res, &u32_to_u8_array(get_op_code_value(&message_header.op_code)));
    assert(res@ =~= msg_header_bytes(*message_header));
    res
}

/// Reading back a written header gives the header, whatever follows it.
pub proof fn lemma_msg_header_roundtrip(h: MsgHeader, rest: Seq<u8>)
    ensures
        msg_header_at(msg_header_bytes(h) + rest) == Ok::<MsgHeader, ImmuxError>(h),
{
    let b = msg_header_bytes(h) + rest;
    lemma_u32_bytes_roundtrip(h.message_length);
    lemma_u32_bytes_roundtrip(h.request_id);
    lemma_u32_bytes_roundtrip(h.response_to);
    lemma_u32_bytes_roundtrip(op_code_value(h.op_code));
    lemma_op_code_roundtrip(h.op_code, op_code_value(h.op_code));
    assert(b.subrange(4, 8) =~= u32_le_bytes(h.request_id));
    assert(b.subrange(8, 12) =~= u32_le_bytes(h.response_to));
    assert(b.subrange(12, 16) =~= u32_le_bytes(op_code_value(h.op_code)));
}

} // verus!
