//! Incoming bytes to a message, by the op code in their header.

use crate::cortices::mongo::error::MongoParserError;
use crate::cortices::mongo::ops::msg_header::{msg_header_at, parse_msg_header};
use crate::cortices::mongo::ops::op::MongoOp;
use crate::cortices::mongo::ops::op_msg::{
    op_msg_at, op_msg_is_in_bounds, op_msg_model, parse_op_msg, MongoOutcome, OpMsgModel,
};
use crate::cortices::mongo::ops::op_query::{
    op_query_at, op_query_model, parse_op_query, try_parse_op_query, OpQueryModel,
};
use crate::cortices::mongo::ops::opcodes::MongoOpCode;
use crate::errors::{ImmuxError, ImmuxResult};
use vstd::prelude::*;

verus! {

/// A message the parser reads, with its strings and documents taken as
/// sequences; the kinds it does not read are `Other`.
pub enum MongoOpModel {
    Query(OpQueryModel),
    Msg(OpMsgModel),
    Other,
}

pub open spec fn mongo_op_model(op: MongoOp) -> MongoOpModel {
    match op {
        MongoOp::Query(q) => MongoOpModel::Query(op_query_model(q)),
        MongoOp::Msg(m) => MongoOpModel::Msg(op_msg_model(m)),
        _ => MongoOpModel::Other,
    }
}

/// The message in `b`: a query or an OP_MSG, by the op code in the header;
/// another op code gives `UnimplementedOpCode`.
pub open spec fn mongo_incoming_at(b: Seq<u8>) -> MongoOutcome<MongoOpModel> {
    match msg_header_at(b) {
        Err(e) => MongoOutcome::Failed(e),
        Ok(header) => match header.op_code {
            MongoOpCode::OpQuery => match op_query_at(b) {
                MongoOutcome::Parsed(q) => MongoOutcome::Parsed(MongoOpModel::Query(q)),
                MongoOutcome::Failed(e) => MongoOutcome::Failed(e),
                MongoOutcome::BsonRejected => MongoOutcome::BsonRejected,
                MongoOutcome::OutOfBounds => MongoOutcome::OutOfBounds,
            },
            MongoOpCode::OpMsg => match op_msg_at(header, b.skip(16)) {
                MongoOutcome::Parsed(m) => MongoOutcome::Parsed(MongoOpModel::Msg(m)),
                MongoOutcome::Failed(e) => MongoOutcome::Failed(e),
                MongoOutcome::BsonRejected => MongoOutcome::BsonRejected,
                MongoOutcome::OutOfBounds => MongoOutcome::OutOfBounds,
            },
            op_code => MongoOutcome::Failed(
                ImmuxError::MongoParser(MongoParserError::UnimplementedOpCode(op_code)),
            ),
        },
    }
}

/// The inputs on which reading a message runs past the end of its buffer.
pub open spec fn mongo_incoming_out_of_bounds(buffer: Seq<u8>) -> bool {
    mongo_incoming_at(buffer) is OutOfBounds
}

/// Reads a whole message: a query or an OP_MSG. The caller owes a buffer
/// that holds every length and size it announces.
pub fn parse_mongo_incoming_bytes(buffer: &[u8]) -> (res: ImmuxResult<MongoOp>)
    requires
        !mongo_incoming_out_of_bounds(buffer@),
    ensures
        match mongo_incoming_at(buffer@) {
            MongoOutcome::Parsed(m) => res matches Ok(op) && mongo_op_model(op) == m,
            MongoOutcome::Failed(e) => res matches Err(f) && f == e,
            MongoOutcome::BsonRejected => res matches Err(
                ImmuxError::MongoParser(MongoParserError::ParseBsonError(_)),
            ),
            MongoOutcome::OutOfBounds => false,
        },
{
    let (header, offset) = parse_msg_header(buffer)?;
    match header.op_code {
        MongoOpCode::OpQuery => {
            let op = parse_op_query(buffer)?;
            Ok(MongoOp::Query(op))
        },
        MongoOpCode::OpMsg => {
            let body = &buffer[offset..buffer.len()];
            assert(body@ =~= buffer@.skip(16));
            let op = parse_op_msg(header, body)?;
            Ok(MongoOp::Msg(op))
        },
        op_code => Err(ImmuxError::MongoParser(MongoParserError::UnimplementedOpCode(op_code))),
    }
}

/// Reads the message where reading stays inside its buffer, and gives
/// nothing where it would not.
pub fn try_parse_mongo_incoming_bytes(buffer: &[u8]) -> (res: Option<ImmuxResult<MongoOp>>)
    ensures
        res is None <==> mongo_incoming_out_of_bounds(buffer@),
        res matches Some(r) ==> match mongo_incoming_at(buffer@) {
            MongoOutcome::Parsed(m) => r matches Ok(op) && mongo_op_model(op) == m,
            MongoOutcome::Failed(e) => r matches Err(f) && f == e,
            MongoOutcome::BsonRejected => r matches Err(
                ImmuxError::MongoParser(MongoParserError::ParseBsonError(_)),
            ),
            MongoOutcome::OutOfBounds => false,
        },
{
    let in_bounds = match parse_msg_header(buffer) {
        Err(_) => true,
        Ok((header, offset)) => match header.op_code {
            MongoOpCode::OpQuery => try_parse_op_query(buffer).is_some(),
            MongoOpCode::OpMsg => {
                let body = &buffer[offset..buffer.len()];
                assert(body@ =~= buffer@.skip(16));
                op_msg_is_in_bounds(header, body)
            },
            _ => true,
        },
    };
    if in_bounds {
        Some(parse_mongo_incoming_bytes(buffer))
    } else {
        None
    }
}

} // verus!
