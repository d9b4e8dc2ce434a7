//! OP_QUERY, a query on a collection.
//! @see https://docs.mongodb.com/manual/reference/mongodb-wire-protocol/#op-query

use crate::cortices::mongo::error::MongoParserError;
use crate::cortices::mongo::ops::msg_header::{msg_header_at, parse_msg_header, MsgHeader};
use crate::cortices::mongo::ops::op_msg::{not_enough_buffer, outcome_agrees, result_agrees, MongoOutcome};
use crate::cortices::mongo::utils::{
    bson_document_decodes, bson_size_at, parse_bson_document, BsonDocument,
};
use crate::cortices::utils::{cstring_at, parse_cstring, parse_u32, ParseOutcome};
use crate::errors::{ImmuxError, ImmuxResult};
use crate::utils::{le_u32_value, u8_array_to_u32};
use vstd::prelude::*;

verus! {

#[derive(Debug)]
pub struct OpQuery {
    pub message_header: MsgHeader,
    /// bit vector of query options
    pub flags: u32,
    /// "dbname.collectionname"
    pub full_collection_name: String,
    /// number of documents to skip
    pub number_to_skip: u32,
    /// number of documents to return in the first OP_REPLY batch
    pub number_to_return: u32,
    /// the query object
    pub query: BsonDocument,
    /// the fields to return, when given
    pub return_fields_selector: Option<BsonDocument>,
}

/// A query with its strings and documents taken as sequences.
pub struct OpQueryModel {
    pub message_header: MsgHeader,
    pub flags: u32,
    pub full_collection_name: Seq<char>,
    pub number_to_skip: u32,
    pub number_to_return: u32,
    pub query: Seq<u8>,
    pub return_fields_selector: Option<Seq<u8>>,
}

pub open spec fn op_query_model(q: OpQuery) -> OpQueryModel {
    OpQueryModel {
        message_header: q.message_header,
        flags: q.flags,
        full_collection_name: q.full_collection_name@,
        number_to_skip: q.number_to_skip,
        number_to_return: q.number_to_return,
        query: q.query.bytes@,
        return_fields_selector: match q.return_fields_selector {
            Some(d) => Some(d.bytes@),
            None => None,
        },
    }
}

/// The document at byte `i` of `b`, and the position after it.
pub open spec fn document_at(b: Seq<u8>, i: int) -> MongoOutcome<(Seq<u8>, int)> {
    if b.len() - i < 4 {
        MongoOutcome::Failed(not_enough_buffer())
    } else {
        let size = bson_size_at(b.skip(i));
        if size > b.len() - i {
            MongoOutcome::OutOfBounds
        } else if size < 5 || !bson_document_decodes(b.subrange(i, i + size)) {
            MongoOutcome::BsonRejected
        } else {
            MongoOutcome::Parsed((b.subrange(i, i + size), i + size))
        }
    }
}

/// The query a whole message `b` holds: the header, the option word, the
/// NUL-terminated collection name, the skip and return counts, the query
/// document, and a selector document when bytes remain.
pub open spec fn op_query_at(b: Seq<u8>) -> MongoOutcome<OpQueryModel> {
    match msg_header_at(b) {
        Err(e) => MongoOutcome::Failed(e),
        Ok(header) => if b.len() < 20 {
            MongoOutcome::Failed(not_enough_buffer())
        } else {
            match cstring_at(b.skip(20)) {
                None => MongoOutcome::Failed(
                    ImmuxError::MongoParser(MongoParserError::ParseStringError),
                ),
                Some((name, n)) => {
                    let i = 20 + n;
                    if b.len() - i < 8 {
                        MongoOutcome::Failed(not_enough_buffer())
                    } else {
                        match document_at(b, i + 8) {
                            MongoOutcome::Parsed((query, j)) => {
                                let selector = if j == b.len() {
                                    MongoOutcome::Parsed(None)
                                } else {
                                    match document_at(b, j) {
                                        MongoOutcome::Parsed((d, _)) => MongoOutcome::Parsed(Some(d)),
                                        MongoOutcome::Failed(e) => MongoOutcome::Failed(e),
                                        MongoOutcome::BsonRejected => MongoOutcome::BsonRejected,
                                        MongoOutcome::OutOfBounds => MongoOutcome::OutOfBounds,
                                    }
                                };
                                match selector {
                                    MongoOutcome::Parsed(return_fields_selector) => MongoOutcome::Parsed(
                                        OpQueryModel {
                                            message_header: header,
                                            flags: le_u32_value(b.subrange(16, 20)) as u32,
                                            full_collection_name: name,
                                            number_to_skip: le_u32_value(b.subrange(i, i + 4)) as u32,
                                            number_to_return: le_u32_value(b.subrange(i + 4, i + 8))
                                                as u32,
                                            query,
                                            return_fields_selector,
                                        },
                                    ),
                                    MongoOutcome::Failed(e) => MongoOutcome::Failed(e),
                                    MongoOutcome::BsonRejected => MongoOutcome::BsonRejected,
                                    MongoOutcome::OutOfBounds => MongoOutcome::OutOfBounds,
                                }
                            },
                            MongoOutcome::Failed(e) => MongoOutcome::Failed(e),
                            MongoOutcome::BsonRejected => MongoOutcome::BsonRejected,
                            MongoOutcome::OutOfBounds => MongoOutcome::OutOfBounds,
                        }
                    }
                },
            }
        },
    }
}

/// Reads the document at byte `index` of `buffer`.
fn read_document(buffer: &[u8], index: usize) -> (res: ParseOutcome<(BsonDocument, usize)>)
    requires
        index <= buffer@.len(),
    ensures
        outcome_agrees(
            res,
            document_at(buffer@, index as int),
            |r: (BsonDocument, usize)| (r.0.bytes@, r.1 as int),
        ),
{
    let rest = &buffer[index..buffer.len()];
    assert(rest@ =~= buffer@.skip(index as int));
    if rest.len() >= 4 {
        let size = u8_array_to_u32(&[rest[0], rest[1], rest[2], rest[3]]) as usize;
        assert(rest@.take(4) =~= rest@.subrange(0, 4));
        if size > rest.len() {
            return ParseOutcome::OutOfBounds;
        }
        assert(rest@.take(size as int) =~= buffer@.subrange(index as int, index + size));
    }
    match parse_bson_document(rest) {
        Err(e) => ParseOutcome::Failed(e),
        Ok((doc, offset)) => ParseOutcome::Parsed((doc, index + offset)),
    }
}

fn read_op_query(buffer: &[u8]) -> (res: ParseOutcome<OpQuery>)
    ensures
        outcome_agrees(res, op_query_at(buffer@), |q: OpQuery| op_query_model(q)),
{
    let mut index: usize = 0;
    let (message_header, offset) = match parse_msg_header(buffer) {
        Ok(v) => v,
        Err(e) => {
            return ParseOutcome::Failed(e);
        },
    };
    index += offset;
    let (flags, offset) = match parse_u32(
        &buffer[index..buffer.len()],
        ImmuxError::MongoParser(MongoParserError::NotEnoughBufferSize),
    ) {
        Ok(v) => v,
        Err(e) => {
            return ParseOutcome::Failed(e);
        },
    };
    index += offset;
    assert(buffer@.subrange(16, buffer@.len() as int).subrange(0, 4) =~= buffer@.subrange(16, 20));
    assert(buffer@.subrange(20, buffer@.len() as int) =~= buffer@.skip(20));
    let (full_collection_name, offset) = match parse_cstring(
        &buffer[index..buffer.len()],
        ImmuxError::MongoParser(MongoParserError::ParseStringError),
    ) {
        Ok(v) => v,
        Err(e) => {
            return ParseOutcome::Failed(e);
        },
    };
    index += offset;
    let after_name = index;
    let (number_to_skip, offset) = match parse_u32(
        &buffer[index..buffer.len()],
        ImmuxError::MongoParser(MongoParserError::NotEnoughBufferSize),
    ) {
        Ok(v) => v,
        Err(e) => {
            return ParseOutcome::Failed(e);
        },
    };
    index += offset;
    let (number_to_return, offset) = match parse_u32(
        &buffer[index..buffer.len()],
        ImmuxError::MongoParser(MongoParserError::NotEnoughBufferSize),
    ) {
        Ok(v) => v,
        Err(e) => {
            return ParseOutcome::Failed(e);
        },
    };
    index += offset;
    assert(buffer@.subrange(after_name as int, buffer@.len() as int).subrange(0, 4)
        =~= buffer@.subrange(after_name as int, after_name + 4));
    assert(buffer@.subrange(after_name + 4, buffer@.len() as int).subrange(0, 4)
        =~= buffer@.subrange(after_name + 4, after_name + 8));
    let (query, offset) = match read_document(buffer, index) {
        ParseOutcome::Parsed(v) => v,
        ParseOutcome::Failed(e) => {
            return ParseOutcome::Failed(e);
        },
        ParseOutcome::OutOfBounds => {
            return ParseOutcome::OutOfBounds;
        },
    };
    index = offset;
    let return_fields_selector = if index == buffer.len() {
        None
    } else {
        match read_document(buffer, index) {
            ParseOutcome::Parsed((selector, _)) => Some(selector),
            ParseOutcome::Failed(e) => {
                return ParseOutcome::Failed(e);
            },
            ParseOutcome::OutOfBounds => {
                return ParseOutcome::OutOfBounds;
            },
        }
    };
    ParseOutcome::Parsed(
        OpQuery {
            message_header,
            flags,
            full_collection_name,
            number_to_skip,
            number_to_return,
            query,
            return_fields_selector,
        },
    )
}

/// The inputs on which reading a query runs past the end of its buffer: a
/// document whose announced length is more than there is.
pub open spec fn op_query_out_of_bounds(buffer: Seq<u8>) -> bool {
    op_query_at(buffer) is OutOfBounds
}

/// A query read from the bytes `b` carries, as its option flags, the word
/// right after the 16-byte header (bytes 16 to 20, little-endian), and as
/// its header's request id and response-to the words at bytes 4 to 8 and 8
/// to 12.
pub proof fn lemma_op_query_flags_follow_header(b: Seq<u8>)
    ensures
        op_query_at(b) matches MongoOutcome::Parsed(q) ==> b.len() >= 20 && q.flags
            == le_u32_value(b.subrange(16, 20)) && q.message_header.request_id == le_u32_value(
            b.subrange(4, 8),
        ) && q.message_header.response_to == le_u32_value(b.subrange(8, 12)),
{
    if b.len() >= 20 {
        let w = b.subrange(16, 20);
        assert(0 <= le_u32_value(w) < 0x1_0000_0000);
        assert(0 <= le_u32_value(b.subrange(4, 8)) < 0x1_0000_0000);
        assert(0 <= le_u32_value(b.subrange(8, 12)) < 0x1_0000_0000);
    }
}

/// Reads a whole query message, header included. A short buffer gives
/// `NotEnoughBufferSize`, an unterminated collection name
/// `ParseStringError`, and a document the BSON decoder rejects
/// `ParseBsonError`. The caller owes a buffer that holds every document
/// length it announces.
pub fn parse_op_query(buffer: &[u8]) -> (res: ImmuxResult<OpQuery>)
    requires
        !op_query_out_of_bounds(buffer@),
    ensures
        result_agrees(res, op_query_at(buffer@), |q: OpQuery| op_query_model(q)),
        res matches Ok(q) ==> buffer@.len() >= 20 && q.flags == le_u32_value(
            buffer@.subrange(16, 20),
        ),
{
    proof {
        lemma_op_query_flags_follow_header(buffer@);
    }
    match read_op_query(buffer) {
        ParseOutcome::Parsed(op_query) => Ok(op_query),
        ParseOutcome::Failed(e) => Err(e),
        ParseOutcome::OutOfBounds => Err(ImmuxError::MongoParser(MongoParserError::InputBufferError)),
    }
}

/// Reads the query where reading stays inside its buffer, and gives nothing
/// where it would not.
pub fn try_parse_op_query(buffer: &[u8]) -> (res: Option<ImmuxResult<OpQuery>>)
    ensures
        res is None <==> op_query_out_of_bounds(buffer@),
        res matches Some(r) ==> result_agrees(r, op_query_at(buffer@), |q: OpQuery| op_query_model(q)),
{
    match read_op_query(buffer) {
        ParseOutcome::OutOfBounds => None,
        _ => Some(parse_op_query(buffer)),
    }
}

} // verus!
