//! OP_REPLY, the server's answer to an OP_QUERY.
//! @see https://docs.mongodb.com/manual/reference/mongodb-wire-protocol/#op-reply

use crate::cortices::mongo::error::{MongoParserError, MongoSerializeError};
use crate::cortices::mongo::ops::msg_header::{msg_header_bytes, serialize_msg_header, MsgHeader};
use crate::cortices::mongo::ops::op_msg::{
    concat_bytes, documents_view, lemma_concat_bytes_prepend, not_enough_buffer, outcome_agrees,
    prepend_documents,
    result_agrees, MongoOutcome,
};
use crate::cortices::mongo::utils::{
    bson_document_decodes, bson_size_at, parse_bson_document, BsonDocument,
};
use crate::cortices::utils::{append_bytes, parse_u32, parse_u64, ParseOutcome};
use crate::errors::{ImmuxError, ImmuxResult};
use crate::utils::{
    bit_u32, get_bit_u32, le_u32_value, le_u64_value, lemma_u32_le_bytes_of_value,
    lemma_u64_le_bytes_of_value, lemma_with_bit_u32, set_bit_u32,
    u32_le_bytes, u32_to_u8_array, u64_le_bytes, u64_to_u8_array, u8_array_to_u32, with_bit_u32,
};
use vstd::prelude::*;

verus! {

#[derive(Debug, Clone, Copy, PartialEq, Eq, Structural)]
pub struct OpReplyResponseFlags {
    pub cursor_not_found: bool,
    pub query_failure: bool,
    pub shard_config_stale: bool,
    pub await_capable: bool,
}

/// The flags the lowest four bits of a response word carry.
pub open spec fn op_reply_flags_of(word: u32) -> OpReplyResponseFlags {
    OpReplyResponseFlags {
        cursor_not_found: bit_u32(word, 0),
        query_failure: bit_u32(word, 1),
        shard_config_stale: bit_u32(word, 2),
        await_capable: bit_u32(word, 3),
    }
}

/// The response word written for `flags`.
pub open spec fn op_reply_flags_word(flags: OpReplyResponseFlags) -> u32 {
    with_bit_u32(
        with_bit_u32(
            with_bit_u32(with_bit_u32(0, 0, flags.cursor_not_found), 1, flags.query_failure),
            2,
            flags.shard_config_stale,
        ),
        3,
        flags.await_capable,
    )
}

/// Reads the flags out of the lowest four bits of a response word.
pub fn parse_op_reply_response_flags(flag_int: u32) -> (res: OpReplyResponseFlags)
    ensures
        res == op_reply_flags_of(flag_int),
{
    OpReplyResponseFlags {
        cursor_not_found: get_bit_u32(flag_int, 0),
        query_failure: get_bit_u32(flag_int, 1),
        shard_config_stale: get_bit_u32(flag_int, 2),
        await_capable: get_bit_u32(flag_int, 3),
    }
}

/// Writes the flags into the lowest four bits of a word.
pub fn serialize_op_reply_response_flags(flags_struct: &OpReplyResponseFlags) -> (res: u32)
    ensures
        res == op_reply_flags_word(*flags_struct),
{
    let mut result: u32 = 0;
    set_bit_u32(&mut result, 0, flags_struct.cursor_not_found);
    set_bit_u32(&mut result, 1, flags_struct.query_failure);
    set_bit_u32(&mut result, 2, flags_struct.shard_config_stale);
    set_bit_u32(&mut result, 3, flags_struct.await_capable);
    result
}

/// Reading back a written response word gives the flags.
pub proof fn lemma_op_reply_flags_roundtrip(flags: OpReplyResponseFlags)
    ensures
        op_reply_flags_of(op_reply_flags_word(flags)) == flags,
{
    let w0 = with_bit_u32(0, 0, flags.cursor_not_found);
    let w1 = with_bit_u32(w0, 1, flags.query_failure);
    let w2 = with_bit_u32(w1, 2, flags.shard_config_stale);
    lemma_with_bit_u32(0, 0, 0, flags.cursor_not_found);
    lemma_with_bit_u32(w0, 1, 0, flags.query_failure);
    lemma_with_bit_u32(w0, 1, 1, flags.query_failure);
    lemma_with_bit_u32(w1, 2, 0, flags.shard_config_stale);
    lemma_with_bit_u32(w1, 2, 1, flags.shard_config_stale);
    lemma_with_bit_u32(w1, 2, 2, flags.shard_config_stale);
    lemma_with_bit_u32(w2, 3, 0, flags.await_capable);
    lemma_with_bit_u32(w2, 3, 1, flags.await_capable);
    lemma_with_bit_u32(w2, 3, 2, flags.await_capable);
    lemma_with_bit_u32(w2, 3, 3, flags.await_capable);
}

#[derive(Debug)]
pub struct OpReply {
    pub message_header: MsgHeader,
    /// bit vector of response flags
    pub response_flags: u32,
    /// cursor id, for a client that asks for more
    pub cursor_id: u64,
    /// where in the cursor this reply starts
    pub starting_from: u32,
    /// number of documents in the reply
    pub number_returned: u32,
    pub documents: Vec<BsonDocument>,
}

/// A reply with its documents taken as byte strings.
pub struct OpReplyModel {
    pub message_header: MsgHeader,
    pub response_flags: u32,
    pub cursor_id: u64,
    pub starting_from: u32,
    pub number_returned: u32,
    pub documents: Seq<Seq<u8>>,
}

pub open spec fn op_reply_model(r: OpReply) -> OpReplyModel {
    OpReplyModel {
        message_header: r.message_header,
        response_flags: r.response_flags,
        cursor_id: r.cursor_id,
        starting_from: r.starting_from,
        number_returned: r.number_returned,
        documents: documents_view(r.documents@),
    }
}

/// `count` documents one after another from byte `i` of `b`, and the
/// position after them.
pub open spec fn documents_at(b: Seq<u8>, i: int, count: int) -> MongoOutcome<(Seq<Seq<u8>>, int)>
    decreases count,
{
    if count <= 0 {
        MongoOutcome::Parsed((Seq::empty(), i))
    } else if b.len() - i < 4 {
        MongoOutcome::Failed(not_enough_buffer())
    } else {
        let size = bson_size_at(b.skip(i));
        if size > b.len() - i {
            MongoOutcome::OutOfBounds
        } else if size < 5 || !bson_document_decodes(b.subrange(i, i + size)) {
            MongoOutcome::BsonRejected
        } else {
            prepend_documents(seq![b.subrange(i, i + size)], documents_at(b, i + size, count - 1))
        }
    }
}

/// The reply whose header is `header` and whose body is `b`: the response
/// word, cursor id, starting position and document count, then that many
/// documents, which must end the body.
pub open spec fn op_reply_at(header: MsgHeader, b: Seq<u8>) -> MongoOutcome<OpReplyModel> {
    if b.len() < 20 {
        MongoOutcome::Failed(not_enough_buffer())
    } else {
        let number_returned = le_u32_value(b.subrange(16, 20)) as u32;
        match documents_at(b, 20, number_returned as int) {
            MongoOutcome::Parsed((documents, end)) => if end != b.len() {
                MongoOutcome::Failed(ImmuxError::MongoParser(MongoParserError::InputBufferError))
            } else {
                MongoOutcome::Parsed(
                    OpReplyModel {
                        message_header: header,
                        response_flags: le_u32_value(b) as u32,
                        cursor_id: le_u64_value(b.subrange(4, 12)) as u64,
                        starting_from: le_u32_value(b.subrange(12, 16)) as u32,
                        number_returned,
                        documents,
                    },
                )
            },
            MongoOutcome::Failed(e) => MongoOutcome::Failed(e),
            MongoOutcome::BsonRejected => MongoOutcome::BsonRejected,
            MongoOutcome::OutOfBounds => MongoOutcome::OutOfBounds,
        }
    }
}

/// Reads `count` documents from byte `start` of `buffer` on.
fn read_documents(buffer: &[u8], start: usize, count: u32) -> (res: ParseOutcome<
    (Vec<BsonDocument>, usize),
>)
    requires
        start <= buffer@.len(),
    ensures
        outcome_agrees(
            res,
            documents_at(buffer@, start as int, count as int),
            |r: (Vec<BsonDocument>, usize)| (documents_view(r.0@), r.1 as int),
        ),
{
    let mut index = start;
    let mut documents: Vec<BsonDocument> = Vec::new();
    let mut k: u32 = 0;
    while k < count
        invariant
            k <= count,
            index <= buffer@.len(),
            documents_at(buffer@, start as int, count as int) == prepend_documents(
                documents_view(documents@),
                documents_at(buffer@, index as int, count - k),
            ),
        decreases count - k,
    {
        let ghost current = documents_at(buffer@, index as int, count - k);
        let rest = &buffer[index..buffer.len()];
        assert(rest@ =~= buffer@.skip(index as int));
        if rest.len() >= 4 {
            let size = u8_array_to_u32(&[rest[0], rest[1], rest[2], rest[3]]) as usize;
            assert(rest@.take(4) =~= rest@.subrange(0, 4));
            if size > rest.len() {
                assert(current is OutOfBounds);
                return ParseOutcome::OutOfBounds;
            }
            assert(rest@.take(size as int) =~= buffer@.subrange(index as int, index + size));
        }
        match parse_bson_document(rest) {
            Err(e) => {
                return ParseOutcome::Failed(e);
            },
            Ok((doc, offset)) => {
                let ghost before = documents_view(documents@);
                documents.push(doc);
                assert(documents_view(documents@) =~= before + seq![
                    buffer@.subrange(index as int, index + offset),
                ]);
                index += offset;
                proof {
                    match documents_at(buffer@, index as int, count - k - 1) {
                        MongoOutcome::Parsed((docs, j)) => {
                            assert(before + (seq![
                                buffer@.subrange(index - offset, index as int),
                            ] + docs) =~= documents_view(documents@) + docs);
                        },
                        _ => {},
                    }
                }
            },
        }
        k = k + 1;
    }
    assert(documents_view(documents@) + Seq::<Seq<u8>>::empty() =~= documents_view(documents@));
    ParseOutcome::Parsed((documents, index))
}

fn read_op_reply(message_header: MsgHeader, buffer: &[u8]) -> (res: ParseOutcome<OpReply>)
    ensures
        outcome_agrees(res, op_reply_at(message_header, buffer@), |r: OpReply| op_reply_model(r)),
{
    let mut index: usize = 0;
    if buffer.len() < 20 {
        return ParseOutcome::Failed(ImmuxError::MongoParser(MongoParserError::NotEnoughBufferSize));
    }
    let (response_flags, offset) = match parse_u32(
        buffer,
        ImmuxError::MongoParser(MongoParserError::NotEnoughBufferSize),
    ) {
        Ok(v) => v,
        Err(e) => {
            return ParseOutcome::Failed(e);
        },
    };
    index += offset;
    let (cursor_id, offset) = match parse_u64(
        &buffer[index..buffer.len()],
        ImmuxError::MongoParser(MongoParserError::NotEnoughBufferSize),
    ) {
        Ok(v) => v,
        Err(e) => {
            return ParseOutcome::Failed(e);
        },
    };
    index += offset;
    let (starting_from, offset) = match parse_u32(
        &buffer[index..buffer.len()],
        ImmuxError::MongoParser(MongoParserError::NotEnoughBufferSize),
    ) {
        Ok(v) => v,
        Err(e) => {
            return ParseOutcome::Failed(e);
        },
    };
    index += offset;
    let (number_returned, offset) = match parse_u32(
        &buffer[index..buffer.len()],
        ImmuxError::MongoParser(MongoParserError::NotEnoughBufferSize),
    ) {
        Ok(v) => v,
        Err(e) => {
            return ParseOutcome::Failed(e);
        },
    };
    index += offset;
    assert(buffer@.subrange(4, buffer@.len() as int).subrange(0, 8) =~= buffer@.subrange(4, 12));
    assert(buffer@.subrange(4, buffer@.len() as int).subrange(0, 8).subrange(4, 8)
        =~= buffer@.subrange(4, 12).subrange(4, 8));
    assert(buffer@.subrange(12, buffer@.len() as int).subrange(0, 4) =~= buffer@.subrange(12, 16));
    assert(buffer@.subrange(16, buffer@.len() as int).subrange(0, 4) =~= buffer@.subrange(16, 20));
    let documents = match read_documents(buffer, index, number_returned) {
        ParseOutcome::Parsed((documents, end)) => {
            if end != buffer.len() {
                return ParseOutcome::Failed(
                    ImmuxError::MongoParser(MongoParserError::InputBufferError),
                );
            }
            documents
        },
        ParseOutcome::Failed(e) => {
            return ParseOutcome::Failed(e);
        },
        ParseOutcome::OutOfBounds => {
            return ParseOutcome::OutOfBounds;
        },
    };
    ParseOutcome::Parsed(
        OpReply {
            message_header,
            response_flags,
            cursor_id,
            starting_from,
            number_returned,
            documents,
        },
    )
}

/// The inputs on which reading a reply runs past the end of its buffer: a
/// document whose announced length is more than there is.
pub open spec fn op_reply_out_of_bounds(message_header: MsgHeader, buffer: Seq<u8>) -> bool {
    op_reply_at(message_header, buffer) is OutOfBounds
}

/// Reads the body of a reply whose header is `message_header`. A short
/// buffer gives `NotEnoughBufferSize`, a document the BSON decoder rejects
/// `ParseBsonError`, and bytes left over after the documents
/// `InputBufferError`. The caller owes a buffer that holds every document
/// length it announces.
pub fn parse_op_reply(message_header: MsgHeader, buffer: &[u8]) -> (res: ImmuxResult<OpReply>)
    requires
        !op_reply_out_of_bounds(message_header, buffer@),
    ensures
        result_agrees(res, op_reply_at(message_header, buffer@), |r: OpReply| op_reply_model(r)),
{
    match read_op_reply(message_header, buffer) {
        ParseOutcome::Parsed(op_reply) => Ok(op_reply),
        ParseOutcome::Failed(e) => Err(e),
        ParseOutcome::OutOfBounds => Err(ImmuxError::MongoParser(MongoParserError::InputBufferError)),
    }
}

/// Reads the reply where reading stays inside its buffer, and gives nothing
/// where it would not.
pub fn try_parse_op_reply(message_header: MsgHeader, buffer: &[u8]) -> (res: Option<
    ImmuxResult<OpReply>,
>)
    ensures
        res is None <==> op_reply_out_of_bounds(message_header, buffer@),
        res matches Some(r) ==> result_agrees(
            r,
            op_reply_at(message_header, buffer@),
            |m: OpReply| op_reply_model(m),
        ),
{
    match read_op_reply(message_header, buffer) {
        ParseOutcome::OutOfBounds => None,
        _ => Some(parse_op_reply(message_header, buffer)),
    }
}

/// The bytes written for a reply: the header, the response word, cursor id,
/// starting position and document count, then the documents.
pub open spec fn op_reply_bytes(r: OpReplyModel) -> Seq<u8> {
    msg_header_bytes(r.message_header) + u32_le_bytes(r.response_flags) + u64_le_bytes(r.cursor_id)
        + u32_le_bytes(r.starting_from) + u32_le_bytes(r.number_returned) + concat_bytes(
        r.documents,
    )
}

/// Writes the reply; a document count other than the number of documents
/// gives `InputObjectError`. Each document is written as the bytes it is
/// kept in, not encoded anew.
pub fn serialize_op_reply(op_reply: &OpReply) -> (res: ImmuxResult<Vec<u8>>)
    ensures
        op_reply.number_returned != op_reply.documents@.len() ==> res matches Err(
            ImmuxError::MongoSerializer(MongoSerializeError::InputObjectError),
        ),
        op_reply.number_returned == op_reply.documents@.len() ==> (res matches Ok(v) && v@
            == op_reply_bytes(op_reply_model(*op_reply))),
{
    if (op_reply.number_returned as usize) != op_reply.documents.len() {
        return Err(ImmuxError::MongoSerializer(MongoSerializeError::InputObjectError));
    }
    let mut res_buffer = serialize_msg_header(&op_reply.message_header);
    append_bytes(&mut res_buffer, &u32_to_u8_array(op_reply.response_flags));
    append_bytes(&mut res_buffer, &u64_to_u8_array(op_reply.cursor_id));
    append_bytes(&mut res_buffer, &u32_to_u8_array(op_reply.starting_from));
    append_bytes(&mut res_buffer, &u32_to_u8_array(op_reply.number_returned));
    let ghost head = res_buffer@;
    let docs = &op_reply.documents;
    let mut i: usize = 0;
    while i < docs.len()
        invariant
            i <= docs@.len(),
            res_buffer@ == head + concat_bytes(documents_view(docs@).take(i as int)),
        decreases docs@.len() - i,
    {
        append_bytes(&mut res_buffer, docs[i].bytes.as_slice());
        assert(documents_view(docs@).take(i + 1).drop_last() =~= documents_view(docs@).take(
            i as int,
        ));
        i = i + 1;
    }
    assert(documents_view(docs@).take(docs@.len() as int) =~= documents_view(docs@));
    assert(res_buffer@ =~= op_reply_bytes(op_reply_model(*op_reply)));
    Ok(res_buffer)
}

/// The documents read from byte `i` on are the bytes from `i` to where
/// reading ended.
pub proof fn lemma_documents_at_bytes(b: Seq<u8>, i: int, count: int)
    requires
        0 <= i <= b.len(),
        documents_at(b, i, count) is Parsed,
    ensures
        documents_at(b, i, count) matches MongoOutcome::Parsed((docs, end)) && i <= end <= b.len()
            && concat_bytes(docs) == b.subrange(i, end),
    decreases count,
{
    if count <= 0 {
        assert(b.subrange(i, i) =~= Seq::<u8>::empty());
    } else {
        let size = bson_size_at(b.skip(i));
        lemma_documents_at_bytes(b, i + size, count - 1);
        let (rest, end) = documents_at(b, i + size, count - 1)->Parsed_0;
        lemma_concat_bytes_prepend(b.subrange(i, i + size), rest);
        assert(b.subrange(i, i + size) + b.subrange(i + size, end) =~= b.subrange(i, end));
    }
}

/// Writing back a reply that was read gives back the header and the bytes
/// it was read from.
pub proof fn lemma_op_reply_roundtrip(header: MsgHeader, b: Seq<u8>)
    requires
        op_reply_at(header, b) is Parsed,
    ensures
        op_reply_at(header, b) matches MongoOutcome::Parsed(m) && op_reply_bytes(m)
            == msg_header_bytes(header) + b,
{
    let m = op_reply_at(header, b)->Parsed_0;
    lemma_documents_at_bytes(b, 20, m.number_returned as int);
    assert(le_u32_value(b.take(4)) == le_u32_value(b));
    lemma_u32_le_bytes_of_value(b.take(4));
    lemma_u64_le_bytes_of_value(b.subrange(4, 12));
    lemma_u32_le_bytes_of_value(b.subrange(12, 16));
    lemma_u32_le_bytes_of_value(b.subrange(16, 20));
    assert(b.take(4) + b.subrange(4, 12) + b.subrange(12, 16) + b.subrange(16, 20) + b.subrange(
        20,
        b.len() as int,
    ) =~= b);
}

} // verus!
