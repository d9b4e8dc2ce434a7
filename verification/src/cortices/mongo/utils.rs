//! Op codes on the wire, and BSON documents inside messages.

use crate::cortices::mongo::error::MongoParserError;
use crate::cortices::mongo::ops::msg_header::MsgHeader;
use crate::cortices::mongo::ops::op_msg::{OpMsg, OpMsgFlags, Section};
use crate::cortices::mongo::ops::opcodes::{
    MongoOpCode, MONGO_OP_COMMAND_CODE, MONGO_OP_COMMAND_REPLY_CODE, MONGO_OP_DELETE_CODE,
    MONGO_OP_GET_MORE_CODE, MONGO_OP_INSERT_CODE, MONGO_OP_KILL_CURSORS_CODE, MONGO_OP_MSG_CODE,
    MONGO_OP_QUERY_CODE, MONGO_OP_REPLY_CODE, MONGO_OP_UPDATE_CODE,
};
use crate::cortices::utils::parse_u32;
use crate::errors::{ImmuxError, ImmuxResult};
use crate::utils::le_u32_value;
use vstd::prelude::*;
use vstd::slice::slice_to_vec;

verus! {

/// The number that stands for each op code on the wire.
pub open spec fn op_code_value(op_code: MongoOpCode) -> u32 {
    match op_code {
        MongoOpCode::OpReply => MONGO_OP_REPLY_CODE,
        MongoOpCode::OpUpdate => MONGO_OP_UPDATE_CODE,
        MongoOpCode::OpInsert => MONGO_OP_INSERT_CODE,
        MongoOpCode::OpQuery => MONGO_OP_QUERY_CODE,
        MongoOpCode::OpGetMore => MONGO_OP_GET_MORE_CODE,
        MongoOpCode::OpDelete => MONGO_OP_DELETE_CODE,
        MongoOpCode::OpKillCursors => MONGO_OP_KILL_CURSORS_CODE,
        MongoOpCode::OpCommand => MONGO_OP_COMMAND_CODE,
        MongoOpCode::OpCommandReply => MONGO_OP_COMMAND_REPLY_CODE,
        MongoOpCode::OpMsg => MONGO_OP_MSG_CODE,
    }
}

/// The op code a number stands for, if any.
pub open spec fn op_code_of(op: u32) -> Option<MongoOpCode> {
    if op == MONGO_OP_REPLY_CODE {
        Some(MongoOpCode::OpReply)
    } else if op == MONGO_OP_UPDATE_CODE {
        Some(MongoOpCode::OpUpdate)
    } else if op == MONGO_OP_INSERT_CODE {
        Some(MongoOpCode::OpInsert)
    } else if op == MONGO_OP_QUERY_CODE {
        Some(MongoOpCode::OpQuery)
    } else if op == MONGO_OP_GET_MORE_CODE {
        Some(MongoOpCode::OpGetMore)
    } else if op == MONGO_OP_DELETE_CODE {
        Some(MongoOpCode::OpDelete)
    } else if op == MONGO_OP_KILL_CURSORS_CODE {
        Some(MongoOpCode::OpKillCursors)
    } else if op == MONGO_OP_COMMAND_CODE {
        Some(MongoOpCode::OpCommand)
    } else if op == MONGO_OP_COMMAND_REPLY_CODE {
        Some(MongoOpCode::OpCommandReply)
    } else if op == MONGO_OP_MSG_CODE {
        Some(MongoOpCode::OpMsg)
    } else {
        None
    }
}

/// The op code a number stands for; an unknown number gives `UnknownOpCode`.
pub fn pick_op_code(op: u32) -> (res: ImmuxResult<MongoOpCode>)
    ensures
        match op_code_of(op) {
            Some(c) => res == Ok::<MongoOpCode, ImmuxError>(c),
            None => res == Err::<MongoOpCode, ImmuxError>(
                ImmuxError::MongoParser(MongoParserError::UnknownOpCode(op)),
            ),
        },
{
    if op == MONGO_OP_REPLY_CODE {
        Ok(MongoOpCode::OpReply)
    } else if op == MONGO_OP_UPDATE_CODE {
        Ok(MongoOpCode::OpUpdate)
    } else if op == MONGO_OP_INSERT_CODE {
        Ok(MongoOpCode::OpInsert)
    } else if op == MONGO_OP_QUERY_CODE {
        Ok(MongoOpCode::OpQuery)
    } else if op == MONGO_OP_GET_MORE_CODE {
        Ok(MongoOpCode::OpGetMore)
    } else if op == MONGO_OP_DELETE_CODE {
        Ok(MongoOpCode::OpDelete)
    } else if op == MONGO_OP_KILL_CURSORS_CODE {
        Ok(MongoOpCode::OpKillCursors)
    } else if op == MONGO_OP_COMMAND_CODE {
        Ok(MongoOpCode::OpCommand)
    } else if op == MONGO_OP_COMMAND_REPLY_CODE {
        Ok(MongoOpCode::OpCommandReply)
    } else if op == MONGO_OP_MSG_CODE {
        Ok(MongoOpCode::OpMsg)
    } else {
        Err(ImmuxError::MongoParser(MongoParserError::UnknownOpCode(op)))
    }
}

/// The number written for an op code.
pub fn get_op_code_value(op_code: &MongoOpCode) -> (res: u32)
    ensures
        res == op_code_value(*op_code),
{
    match op_code {
        MongoOpCode::OpReply => MONGO_OP_REPLY_CODE,
        MongoOpCode::OpUpdate => MONGO_OP_UPDATE_CODE,
        MongoOpCode::OpInsert => MONGO_OP_INSERT_CODE,
        MongoOpCode::OpQuery => MONGO_OP_QUERY_CODE,
        MongoOpCode::OpGetMore => MONGO_OP_GET_MORE_CODE,
        MongoOpCode::OpDelete => MONGO_OP_DELETE_CODE,
        MongoOpCode::OpKillCursors => MONGO_OP_KILL_CURSORS_CODE,
        MongoOpCode::OpCommand => MONGO_OP_COMMAND_CODE,
        MongoOpCode::OpCommandReply => MONGO_OP_COMMAND_REPLY_CODE,
        MongoOpCode::OpMsg => MONGO_OP_MSG_CODE,
    }
}

/// Reading back the number written for an op code gives the op code, and a
/// number that reads as an op code is the number written for it.
pub proof fn lemma_op_code_roundtrip(op_code: MongoOpCode, op: u32)
    ensures
        op_code_of(op_code_value(op_code)) == Some(op_code),
        op_code_of(op) == Some(op_code) ==> op_code_value(op_code) == op,
{
}

/// A BSON document, kept as the bytes it is encoded in: a four-byte
/// little-endian length, then the elements.
#[derive(Debug, Clone)]
pub struct BsonDocument {
    pub bytes: Vec<u8>,
}

/// Whether `bytes` decode as a BSON document with the bson crate.
pub uninterp spec fn bson_document_decodes(bytes: Seq<u8>) -> bool;

/// `bson::decode_document` on `bytes`, keeping only whether it succeeded.
/// Claimed: it succeeds exactly on what `bson_document_decodes` names, which
/// depends on the bytes alone. The decoder reads a four-byte length, then
/// elements up to a closing zero tag, so fewer than five bytes never decode;
/// what else it rejects is not stated here.
#[verifier::external_body]
fn check_bson_document(bytes: &[u8]) -> (res: Result<(), bson::DecoderError>)
    ensures
        res is Ok <==> bson_document_decodes(bytes@),
        bytes@.len() < 5 ==> res is Err,
{
    match bson::decode_document(&mut &bytes[..]) {
        Ok(_) => Ok(()),
        Err(error) => Err(error),
    }
}

/// The length a document at the front of `buffer` announces.
pub open spec fn bson_size_at(buffer: Seq<u8>) -> int {
    le_u32_value(buffer) as u32 as int
}

/// A document's announced length fits in `buffer`, where one is announced.
pub open spec fn bson_size_fits(buffer: Seq<u8>) -> bool {
    buffer.len() >= 4 ==> bson_size_at(buffer) <= buffer.len()
}

/// Reads the BSON document at the front of `buffer`: as many bytes as its
/// length prefix announces, which must decode. A buffer shorter than four
/// bytes gives `NotEnoughBufferSize`. The caller owes a buffer that holds
/// the announced length.
pub fn parse_bson_document(buffer: &[u8]) -> (res: ImmuxResult<(BsonDocument, usize)>)
    requires
        bson_size_fits(buffer@),
    ensures
        buffer@.len() < 4 ==> res == Err::<(BsonDocument, usize), ImmuxError>(
            ImmuxError::MongoParser(MongoParserError::NotEnoughBufferSize),
        ),
        buffer@.len() >= 4 ==> {
            let doc = buffer@.take(bson_size_at(buffer@));
            if doc.len() >= 5 && bson_document_decodes(doc) {
                res matches Ok((d, n)) && d.bytes@ == doc && n == bson_size_at(buffer@)
            } else {
                res matches Err(ImmuxError::MongoParser(MongoParserError::ParseBsonError(_)))
            }
        },
{
    let (bson_size, _) = parse_u32(
        buffer,
        ImmuxError::MongoParser(MongoParserError::NotEnoughBufferSize),
    )?;
    let size = bson_size as usize;
    let doc = &buffer[0..size];
    assert(doc@ =~= buffer@.take(bson_size_at(buffer@)));
    match check_bson_document(doc) {
        Err(error) => Err(ImmuxError::MongoParser(MongoParserError::ParseBsonError(error))),
        Ok(()) => Ok((BsonDocument { bytes: slice_to_vec(doc) }, size)),
    }
}

/// A reply to `incoming_header` carrying the single document `doc`: an OP_MSG
/// answering the request, with no flags set and the length left at zero.
pub fn construct_single_doc_op_msg(doc: BsonDocument, incoming_header: &MsgHeader) -> (res: OpMsg)
    ensures
        res.message_header == (MsgHeader {
            message_length: 0,
            request_id: 0,
            response_to: incoming_header.request_id,
            op_code: MongoOpCode::OpMsg,
        }),
        res.flags == (OpMsgFlags {
            check_sum_present: false,
            more_to_come: false,
            exhaust_allowed: false,
        }),
        res.sections@.len() == 1,
        res.sections@[0] matches Section::Single(d) && d.bytes@ == doc.bytes@,
        res.checksum is None,
{
    OpMsg {
        message_header: MsgHeader {
            message_length: 0,
            request_id: 0,
            response_to: incoming_header.request_id,
            op_code: MongoOpCode::OpMsg,
        },
        flags: OpMsgFlags { check_sum_present: false, more_to_come: false, exhaust_allowed: false },
        sections: vec![Section::Single(doc)],
        checksum: None,
    }
}

} // verus!
