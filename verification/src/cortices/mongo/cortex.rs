//! The MongoDB front end's replies: a message with its length filled in
//! after it is written, the reply to an admin query, and the single-document
//! replies to commands.

use crate::cortices::mongo::ops::msg_header::MsgHeader;
use crate::cortices::mongo::fields::{
    bson_field, read_bson_field, BsonField, BsonFieldModel, DOUBLE_ONE_BITS,
};
use crate::cortices::mongo::ops::op::MongoOp;
use crate::cortices::mongo::ops::op_msg::{op_msg_bytes, op_msg_model, serialize_op_msg, OpMsg, Section};
use crate::cortices::mongo::ops::op_query::OpQuery;
use crate::cortices::mongo::ops::op_reply::{
    op_reply_bytes, op_reply_flags_word, op_reply_model, serialize_op_reply,
    serialize_op_reply_response_flags, OpReply, OpReplyResponseFlags,
};
use crate::cortices::mongo::ops::opcodes::MongoOpCode;
use crate::cortices::mongo::utils::{construct_single_doc_op_msg, BsonDocument};
use crate::cortices::CortexResponse;
use crate::errors::{ImmuxError, ImmuxResult};
use crate::utils::{le_u32_value, lemma_u32_bytes_roundtrip, u32_le_bytes, u32_to_u8_array};
use vstd::prelude::*;

verus! {

/// The collection an admin command is sent to.
pub const ADMIN_QUERY: &'static str = "admin.$cmd";

/// `bytes` with its first four bytes replaced by its length, little-endian.
pub open spec fn with_computed_length(bytes: Seq<u8>) -> Seq<u8> {
    u32_le_bytes(bytes.len() as u32) + bytes.skip(4)
}

/// Serializes `op` and writes the length of what came out over its first
/// four bytes, where a message header keeps its length. The serializer's
/// error is passed on. The caller owes a serializer that writes at least
/// four bytes when it succeeds.
pub fn serialize_op_with_computed_length<OP, F: Fn(&OP) -> ImmuxResult<Vec<u8>>>(
    op: &OP,
    serializer: &F,
) -> (res: ImmuxResult<Vec<u8>>)
    requires
        serializer.requires((op,)),
        forall|r: ImmuxResult<Vec<u8>>|
            #[trigger] serializer.ensures((op,), r) ==> (r matches Ok(v) ==> v@.len() >= 4),
    ensures
        exists|r: ImmuxResult<Vec<u8>>|
            #[trigger] serializer.ensures((op,), r) && match r {
                Err(e) => res == Err::<Vec<u8>, ImmuxError>(e),
                Ok(v) => res matches Ok(w) && w@ == with_computed_length(v@),
            },
{
    let serialized = serializer(op);
    let ghost r = serialized;
    match serialized {
        Err(error) => Err(error),
        Ok(mut vec) => {
            let ghost written = vec@;
            let correct_width = u32_to_u8_array(vec.len() as u32);
            vec.set(0, correct_width[0]);
            vec.set(1, correct_width[1]);
            vec.set(2, correct_width[2]);
            vec.set(3, correct_width[3]);
            assert(vec@ =~= with_computed_length(written));
            Ok(vec)
        },
    }
}

/// Whether a query is an admin command.
pub fn is_admin_query(op_query: &OpQuery) -> (res: bool)
    ensures
        res == (op_query.full_collection_name@ == ADMIN_QUERY@),
{
    let admin = ADMIN_QUERY.to_string();
    op_query.full_collection_name == admin
}

/// Which of the server's own answers a message may get.
#[derive(Debug)]
pub enum ExceptionalQueryRoute<'a> {
    /// An admin query, answered with the stored configuration.
    AdminQuery,
    /// A message whose first section is the one document `0`; the command
    /// that document names may be answered by the server itself.
    Command(&'a BsonDocument),
    /// Anything else, which goes to the store.
    NotExceptional,
}

/// Where a message goes before the store sees it: an admin query to the
/// configuration reply, an OP_MSG whose first section is a single document
/// to the commands the server answers itself (by that document), and an
/// OP_MSG whose first section is a sequence, or any other kind of message,
/// to the store. The caller owes an OP_MSG at least one section.
pub fn route_exceptional_query(op: &MongoOp) -> (res: ExceptionalQueryRoute)
    requires
        op matches MongoOp::Msg(m) ==> m.sections.len() > 0,
    ensures
        match op {
            MongoOp::Query(q) => if q.full_collection_name@ == ADMIN_QUERY@ {
                res is AdminQuery
            } else {
                res is NotExceptional
            },
            MongoOp::Msg(m) => match m.sections[0] {
                Section::Single(d) => res matches ExceptionalQueryRoute::Command(c) && *c == d,
                Section::Sequence(_) => res is NotExceptional,
            },
            _ => res is NotExceptional,
        },
{
    match op {
        MongoOp::Query(op_query) => {
            if is_admin_query(op_query) {
                ExceptionalQueryRoute::AdminQuery
            } else {
                ExceptionalQueryRoute::NotExceptional
            }
        },
        MongoOp::Msg(op_msg) => match &op_msg.sections[0] {
            Section::Single(request_doc) => ExceptionalQueryRoute::Command(request_doc),
            Section::Sequence(_) => ExceptionalQueryRoute::NotExceptional,
        },
        _ => ExceptionalQueryRoute::NotExceptional,
    }
}

/// The commands the server answers by itself, without the store.
#[derive(Debug, Clone, Copy, PartialEq, Eq, Structural)]
pub enum ExceptionalCommand {
    WhatsMyUri,
    BuildInfo,
    GetLog,
    GetFreeMonitoringStatus,
    ReplSetGetStatus,
    EndSessions,
}

/// The field holds the double 1.0.
pub open spec fn is_double_one(field: Option<BsonFieldModel>) -> bool {
    field matches Some(BsonFieldModel::Double(bits)) && bits == DOUBLE_ONE_BITS
}

/// The command a request document asks for, among those the server answers
/// by itself, tried in this order: `whatsmyuri` holding the `i32` 1,
/// `buildinfo` or `buildInfo` holding the double 1.0, `getLog` holding a
/// string, `getFreeMonitoringStatus` or `replSetGetStatus` holding the double
/// 1.0, and any `endSessions` field. Nothing for other documents.
pub open spec fn exceptional_command_of(doc: Seq<u8>) -> Option<ExceptionalCommand> {
    if bson_field(doc, "whatsmyuri"@) matches Some(BsonFieldModel::Int32(v)) && v == 1 {
        Some(ExceptionalCommand::WhatsMyUri)
    } else if is_double_one(bson_field(doc, "buildinfo"@)) || is_double_one(
        bson_field(doc, "buildInfo"@),
    ) {
        Some(ExceptionalCommand::BuildInfo)
    } else if bson_field(doc, "getLog"@) matches Some(BsonFieldModel::Str(_)) {
        Some(ExceptionalCommand::GetLog)
    } else if is_double_one(bson_field(doc, "getFreeMonitoringStatus"@)) {
        Some(ExceptionalCommand::GetFreeMonitoringStatus)
    } else if is_double_one(bson_field(doc, "replSetGetStatus"@)) {
        Some(ExceptionalCommand::ReplSetGetStatus)
    } else if bson_field(doc, "endSessions"@) is Some {
        Some(ExceptionalCommand::EndSessions)
    } else {
        None
    }
}

fn field_is_double_one(doc: &[u8], key: &str) -> (res: bool)
    ensures
        res == is_double_one(bson_field(doc@, key@)),
{
    match read_bson_field(doc, key) {
        Some((BsonField::Double(bits), _)) => bits == DOUBLE_ONE_BITS,
        _ => false,
    }
}

/// Which of the commands the server answers by itself the request document
/// asks for, if any.
pub fn recognize_exceptional_command(request_doc: &BsonDocument) -> (res: Option<
    ExceptionalCommand,
>)
    ensures
        res == exceptional_command_of(request_doc.bytes@),
{
    let doc = request_doc.bytes.as_slice();
    if let Some((BsonField::Int32(v), _)) = read_bson_field(doc, "whatsmyuri") {
        if v == 1 {
            return Some(ExceptionalCommand::WhatsMyUri);
        }
    }
    if field_is_double_one(doc, "buildinfo") || field_is_double_one(doc, "buildInfo") {
        return Some(ExceptionalCommand::BuildInfo);
    }
    if let Some((BsonField::Str(_), _)) = read_bson_field(doc, "getLog") {
        return Some(ExceptionalCommand::GetLog);
    }
    if field_is_double_one(doc, "getFreeMonitoringStatus") {
        return Some(ExceptionalCommand::GetFreeMonitoringStatus);
    }
    if field_is_double_one(doc, "replSetGetStatus") {
        return Some(ExceptionalCommand::ReplSetGetStatus);
    }
    if read_bson_field(doc, "endSessions").is_some() {
        return Some(ExceptionalCommand::EndSessions);
    }
    None
}

/// The reply to an admin query: an OP_REPLY answering it with no flags, no
/// cursor and the one document `document`, its length filled in.
pub open spec fn admin_query_reply_bytes(request_id: u32, document: Seq<u8>) -> Seq<u8> {
    with_computed_length(
        op_reply_bytes(
            crate::cortices::mongo::ops::op_reply::OpReplyModel {
                message_header: MsgHeader {
                    message_length: 0,
                    request_id: 0,
                    response_to: request_id,
                    op_code: MongoOpCode::OpReply,
                },
                response_flags: op_reply_flags_word(
                    OpReplyResponseFlags {
                        cursor_not_found: false,
                        query_failure: false,
                        shard_config_stale: false,
                        await_capable: false,
                    },
                ),
                cursor_id: 0,
                starting_from: 0,
                number_returned: 1,
                documents: seq![document],
            },
        ),
    )
}

/// The reply to an admin query answers that query: the response-to word of
/// its header (bytes 8 to 12) is the query's request id, its op code (bytes
/// 12 to 16) is OP_REPLY's 1, its length word (bytes 0 to 4) is its length,
/// and the document follows the 36 bytes of header and reply fields.
pub proof fn lemma_admin_reply_answers_query(request_id: u32, document: Seq<u8>)
    ensures
        ({
            let r = admin_query_reply_bytes(request_id, document);
            &&& r.len() == 36 + document.len()
            &&& r.len() <= u32::MAX ==> le_u32_value(r.subrange(0, 4)) == r.len()
            &&& le_u32_value(r.subrange(8, 12)) == request_id
            &&& le_u32_value(r.subrange(12, 16)) == 1
            &&& r.skip(36) == document
        }),
{
    let header = MsgHeader {
        message_length: 0,
        request_id: 0,
        response_to: request_id,
        op_code: MongoOpCode::OpReply,
    };
    let model = crate::cortices::mongo::ops::op_reply::OpReplyModel {
        message_header: header,
        response_flags: op_reply_flags_word(
            OpReplyResponseFlags {
                cursor_not_found: false,
                query_failure: false,
                shard_config_stale: false,
                await_capable: false,
            },
        ),
        cursor_id: 0,
        starting_from: 0,
        number_returned: 1,
        documents: seq![document],
    };
    let body = op_reply_bytes(model);
    lemma_u32_bytes_roundtrip(request_id);
    lemma_u32_bytes_roundtrip(1);
    lemma_u32_bytes_roundtrip((36 + document.len()) as u32);
    lemma_u32_bytes_roundtrip(0);
    lemma_u32_bytes_roundtrip(op_reply_flags_word(
        OpReplyResponseFlags {
            cursor_not_found: false,
            query_failure: false,
            shard_config_stale: false,
            await_capable: false,
        },
    ));
    assert(crate::cortices::mongo::ops::op_msg::concat_bytes(seq![document]) =~= document) by {
        reveal_with_fuel(crate::cortices::mongo::ops::op_msg::concat_bytes, 2);
    }
    assert(body.len() == 36 + document.len());
    assert(body.subrange(8, 12) =~= u32_le_bytes(request_id));
    assert(body.subrange(12, 16) =~= u32_le_bytes(1));
    let r = admin_query_reply_bytes(request_id, document);
    assert(r.subrange(0, 4) =~= u32_le_bytes(r.len() as u32));
    assert(r.subrange(8, 12) =~= body.subrange(8, 12));
    assert(r.subrange(12, 16) =~= body.subrange(12, 16));
    assert(r.skip(36) =~= document);
}

/// Answers an admin query with `document`, the server's configuration: an
/// OP_REPLY whose response-to word (bytes 8 to 12) is the query's request
/// id.
pub fn reply_to_admin_query(op_query: &OpQuery, document: BsonDocument) -> (res: ImmuxResult<
    CortexResponse,
>)
    ensures
        res matches Ok(CortexResponse::Send(v)) && v@ == admin_query_reply_bytes(
            op_query.message_header.request_id,
            document.bytes@,
        ),
        res matches Ok(CortexResponse::Send(v)) && v@.len() >= 16 && le_u32_value(
            v@.subrange(8, 12),
        ) == op_query.message_header.request_id && le_u32_value(v@.subrange(12, 16)) == 1,
{
    let op_reply = OpReply {
        message_header: MsgHeader {
            message_length: 0,
            request_id: 0,
            response_to: op_query.message_header.request_id,
            op_code: MongoOpCode::OpReply,
        },
        response_flags: serialize_op_reply_response_flags(
            &OpReplyResponseFlags {
                cursor_not_found: false,
                query_failure: false,
                shard_config_stale: false,
                await_capable: false,
            },
        ),
        cursor_id: 0,
        starting_from: 0,
        number_returned: 1,
        documents: vec![document],
    };
    let ghost model = op_reply_model(op_reply);
    let ghost doc_bytes = document.bytes@;
    assert(model.documents =~= seq![document.bytes@]);
    let data = serialize_op_with_computed_length(&op_reply, &serialize_op_reply)?;
    proof {
        lemma_admin_reply_answers_query(op_query.message_header.request_id, doc_bytes);
    }
    Ok(CortexResponse::Send(data))
}

/// The reply to `incoming_header` carrying `response_doc`: an OP_MSG with
/// no flags and one single-document section, its length filled in.
pub open spec fn single_doc_reply_bytes(response_to: u32, document: Seq<u8>) -> Seq<u8> {
    with_computed_length(
        op_msg_bytes(
            crate::cortices::mongo::ops::op_msg::OpMsgModel {
                message_header: MsgHeader {
                    message_length: 0,
                    request_id: 0,
                    response_to,
                    op_code: MongoOpCode::OpMsg,
                },
                flags: crate::cortices::mongo::ops::op_msg::OpMsgFlags {
                    check_sum_present: false,
                    more_to_come: false,
                    exhaust_allowed: false,
                },
                sections: seq![crate::cortices::mongo::ops::op_msg::SectionModel::Single(document)],
                checksum: None,
            },
        ),
    )
}

/// Answers a command with the single document `response_doc`; the reply
/// asks to close the connection after it is sent when `then_disconnect`.
pub fn construct_reply_result_of_response_type(
    response_doc: BsonDocument,
    incoming_header: &MsgHeader,
    then_disconnect: bool,
) -> (res: ImmuxResult<CortexResponse>)
    ensures
        then_disconnect ==> (res matches Ok(CortexResponse::SendThenDisconnect(v)) && v@
            == single_doc_reply_bytes(incoming_header.request_id, response_doc.bytes@)),
        !then_disconnect ==> (res matches Ok(CortexResponse::Send(v)) && v@
            == single_doc_reply_bytes(incoming_header.request_id, response_doc.bytes@)),
{
    let ghost doc = response_doc.bytes@;
    let reply = construct_single_doc_op_msg(response_doc, incoming_header);
    assert(op_msg_model(reply).sections =~= seq![
        crate::cortices::mongo::ops::op_msg::SectionModel::Single(doc),
    ]);
    let data = serialize_op_with_computed_length(&reply, &serialize_op_msg)?;
    if then_disconnect {
        Ok(CortexResponse::SendThenDisconnect(data))
    } else {
        Ok(CortexResponse::Send(data))
    }
}

} // verus!
