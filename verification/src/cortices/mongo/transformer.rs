//! Between MongoDB messages and the store's commands.

use crate::cortices::mongo::cortex::is_double_one;
use crate::cortices::mongo::fields::{
    bson_field, bson_subdocument, read_bson_field, read_bson_subdocument, BsonField,
    BsonFieldModel, DOUBLE_ONE_BITS,
};
use crate::cortices::mongo::ops::msg_header::MsgHeader;
use crate::cortices::mongo::ops::op::MongoOp;
use crate::cortices::mongo::ops::op_msg::{documents_view, sections_view, Section, SectionModel};
use crate::cortices::mongo::utils::BsonDocument;
use crate::errors::{ImmuxError, ImmuxResult};
use vstd::prelude::*;
use vstd::utf8::encode_utf8;

verus! {

#[verifier::external_type_specification]
#[verifier::external_body]
pub struct ExBson(bson::Bson);

#[verifier::external_type_specification]
#[verifier::external_body]
pub struct ExBsonDocument(bson::Document);

#[derive(Debug)]
pub enum MongoTransformerError {
    GetObjectId,
    EncodeDocument,
    UnexpectedInputShape,
    UnimplementedWhereCondition(bson::Bson),
    UnexpectedFilterDocument(bson::Document),
    UnimplementedCommand,
    UnexpectedLastSection,
    NoSections,
    UnimplementedOp,
}

/// Which units a select picks.
#[derive(Debug, Clone)]
pub enum SelectCondition {
    UnconditionalMatch,
    JSCode(String),
}

/// One unit to insert: its id and its encoded document.
#[derive(Debug, Clone)]
pub struct InsertCommandSpec {
    pub id: Vec<u8>,
    pub value: Vec<u8>,
}

#[derive(Debug)]
pub struct InsertCommand {
    pub targets: Vec<InsertCommandSpec>,
    pub grouping: Vec<u8>,
    pub insert_with_index: bool,
}

#[derive(Debug)]
pub struct SelectCommand {
    pub grouping: Vec<u8>,
    pub condition: SelectCondition,
}

#[derive(Debug)]
pub struct PickChainCommand {
    pub new_chain_name: Vec<u8>,
}

/// What a MongoDB message asks of the store.
#[derive(Debug)]
pub enum MongoCommand {
    PickChain(PickChainCommand),
    Insert(InsertCommand),
    Select(SelectCommand),
}

pub enum SelectConditionModel {
    UnconditionalMatch,
    JSCode(Seq<char>),
}

/// A command taken as plain values: the chain to pick; the grouping and the
/// (id, document) pairs to insert; the grouping and condition to select by.
pub enum MongoCommandModel {
    PickChain(Seq<u8>),
    Insert(Seq<u8>, Seq<(Seq<u8>, Seq<u8>)>),
    Select(Seq<u8>, SelectConditionModel),
}

pub open spec fn insert_specs_view(t: Seq<InsertCommandSpec>) -> Seq<(Seq<u8>, Seq<u8>)> {
    t.map_values(|x: InsertCommandSpec| (x.id@, x.value@))
}

pub open spec fn mongo_command_model(c: MongoCommand) -> MongoCommandModel {
    match c {
        MongoCommand::PickChain(p) => MongoCommandModel::PickChain(p.new_chain_name@),
        MongoCommand::Insert(i) => MongoCommandModel::Insert(
            i.grouping@,
            insert_specs_view(i.targets@),
        ),
        MongoCommand::Select(s) => MongoCommandModel::Select(
            s.grouping@,
            match s.condition {
                SelectCondition::UnconditionalMatch => SelectConditionModel::UnconditionalMatch,
                SelectCondition::JSCode(code) => SelectConditionModel::JSCode(code@),
            },
        ),
    }
}

/// Why a message gives no command.
pub enum TransformFailure {
    GetObjectId,
    UnexpectedInputShape,
    UnimplementedWhereCondition,
    UnexpectedFilterDocument,
    UnimplementedCommand,
    UnexpectedLastSection,
    NoSections,
    UnimplementedOp,
}

pub open spec fn transform_failure_of(e: MongoTransformerError) -> Option<TransformFailure> {
    match e {
        MongoTransformerError::GetObjectId => Some(TransformFailure::GetObjectId),
        MongoTransformerError::UnexpectedInputShape => Some(TransformFailure::UnexpectedInputShape),
        MongoTransformerError::UnimplementedWhereCondition(_) => Some(
            TransformFailure::UnimplementedWhereCondition,
        ),
        MongoTransformerError::UnexpectedFilterDocument(_) => Some(
            TransformFailure::UnexpectedFilterDocument,
        ),
        MongoTransformerError::UnimplementedCommand => Some(TransformFailure::UnimplementedCommand),
        MongoTransformerError::UnexpectedLastSection => Some(TransformFailure::UnexpectedLastSection),
        MongoTransformerError::NoSections => Some(TransformFailure::NoSections),
        MongoTransformerError::UnimplementedOp => Some(TransformFailure::UnimplementedOp),
        _ => None,
    }
}

/// The units that the documents `docs` insert, in order: each document's
/// object id `_id` with the document; nothing when one has no object id.
pub open spec fn insert_targets(docs: Seq<Seq<u8>>) -> Option<Seq<(Seq<u8>, Seq<u8>)>>
    decreases docs.len(),
{
    if docs.len() == 0 {
        Some(Seq::empty())
    } else {
        match insert_targets(docs.drop_last()) {
            None => None,
            Some(t) => match bson_field(docs.last(), "_id"@) {
                Some(BsonFieldModel::ObjectId(id)) => Some(t.push((id, docs.last()))),
                _ => None,
            },
        }
    }
}

/// The select that a `find` of `collection` asks for, by the document held
/// in the request's `filter` field: every unit for an empty filter, those
/// that JavaScript code picks for a `$where` holding code.
pub open spec fn find_command(d: Seq<u8>, collection: Seq<char>) -> Result<
    MongoCommandModel,
    TransformFailure,
> {
    match bson_subdocument(d, "filter"@) {
        None => Err(TransformFailure::UnexpectedInputShape),
        Some((filter, empty)) => if empty {
            Ok(
                MongoCommandModel::Select(
                    encode_utf8(collection),
                    SelectConditionModel::UnconditionalMatch,
                ),
            )
        } else {
            match bson_field(filter, "$where"@) {
                Some(BsonFieldModel::JavaScriptCode(code)) => Ok(
                    MongoCommandModel::Select(
                        encode_utf8(collection),
                        SelectConditionModel::JSCode(code),
                    ),
                ),
                Some(_) => Err(TransformFailure::UnimplementedWhereCondition),
                None => Err(TransformFailure::UnexpectedFilterDocument),
            }
        },
    }
}

/// The command that an OP_MSG with `sections` asks for, read from its last
/// section, which must be a single document: `isMaster` holding the double
/// 1.0 picks the chain named by `$db`; `insert` holding a collection's name
/// inserts the documents of the first section, a sequence; `find` holding a
/// collection's name selects from it by the `filter` document. Anything else
/// is `UnimplementedCommand`.
pub open spec fn command_of_sections(sections: Seq<SectionModel>) -> Result<
    MongoCommandModel,
    TransformFailure,
> {
    if sections.len() == 0 {
        Err(TransformFailure::NoSections)
    } else {
        match sections.last() {
            SectionModel::Sequence(_, _, _) => Err(TransformFailure::UnexpectedLastSection),
            SectionModel::Single(d) => if is_double_one(bson_field(d, "isMaster"@)) {
                match bson_field(d, "$db"@) {
                    Some(BsonFieldModel::Str(db)) => Ok(
                        MongoCommandModel::PickChain(encode_utf8(db)),
                    ),
                    _ => Err(TransformFailure::UnexpectedInputShape),
                }
            } else {
                match bson_field(d, "insert"@) {
                    Some(BsonFieldModel::Str(collection)) => match sections[0] {
                        SectionModel::Sequence(_, _, docs) => match insert_targets(docs) {
                            Some(t) => Ok(MongoCommandModel::Insert(encode_utf8(collection), t)),
                            None => Err(TransformFailure::GetObjectId),
                        },
                        SectionModel::Single(_) => Err(TransformFailure::UnexpectedInputShape),
                    },
                    _ => match bson_field(d, "find"@) {
                        Some(BsonFieldModel::Str(collection)) => find_command(d, collection),
                        _ => Err(TransformFailure::UnimplementedCommand),
                    },
                }
            },
        }
    }
}

/// A transform's result agrees with what the spec gives: the command, or an
/// error of the kind the spec names.
pub open spec fn transform_result_agrees(
    res: ImmuxResult<MongoCommand>,
    spec: Result<MongoCommandModel, TransformFailure>,
) -> bool {
    match spec {
        Ok(c) => res matches Ok(r) && mongo_command_model(r) == c,
        Err(f) => res matches Err(ImmuxError::MongoTransformer(e)) && transform_failure_of(e)
            == Some(f),
    }
}

fn transform_error(e: MongoTransformerError) -> (res: ImmuxError)
    ensures
        res == ImmuxError::MongoTransformer(e),
{
    ImmuxError::MongoTransformer(e)
}

/// The units that the documents of an insert's sequence stand for.
fn insert_targets_of(docs: &Vec<BsonDocument>) -> (res: Option<Vec<InsertCommandSpec>>)
    ensures
        match insert_targets(documents_view(docs@)) {
            Some(t) => res matches Some(v) && insert_specs_view(v@) == t,
            None => res is None,
        },
{
    let ghost view = documents_view(docs@);
    let mut targets: Vec<InsertCommandSpec> = Vec::new();
    let mut i: usize = 0;
    while i < docs.len()
        invariant
            view == documents_view(docs@),
            i <= docs@.len(),
            insert_targets(view.take(i as int)) == Some(insert_specs_view(targets@)),
        decreases docs@.len() - i,
    {
        assert(view.take(i + 1).drop_last() =~= view.take(i as int));
        assert(view.take(i + 1).last() == docs@[i as int].bytes@);
        match read_bson_field(docs[i].bytes.as_slice(), "_id") {
            Some((BsonField::ObjectId(id), _)) => {
                let spec = InsertCommandSpec { id, value: docs[i].bytes.clone() };
                let ghost before = targets@;
                targets.push(spec);
                assert(insert_specs_view(targets@) =~= insert_specs_view(before).push(
                    (spec.id@, spec.value@),
                ));
            },
            _ => {
                proof {
                    lemma_insert_targets_none_extends(view, (i + 1) as int);
                }
                return None;
            },
        }
        i = i + 1;
    }
    assert(view.take(docs@.len() as int) =~= view);
    Some(targets)
}

proof fn lemma_insert_targets_none_extends(docs: Seq<Seq<u8>>, k: int)
    requires
        0 <= k <= docs.len(),
        insert_targets(docs.take(k)) is None,
    ensures
        insert_targets(docs) is None,
    decreases docs.len() - k,
{
    if k < docs.len() {
        assert(docs.take(k + 1).drop_last() =~= docs.take(k));
        lemma_insert_targets_none_extends(docs, k + 1);
    } else {
        assert(docs.take(k) =~= docs);
    }
}

fn find_command_of(d: &BsonDocument, collection: String) -> (res: ImmuxResult<MongoCommand>)
    ensures
        transform_result_agrees(res, find_command(d.bytes@, collection@)),
{
    let grouping = vstd::slice::slice_to_vec(collection.as_str().as_bytes());
    match read_bson_subdocument(d.bytes.as_slice(), "filter") {
        None => Err(transform_error(MongoTransformerError::UnexpectedInputShape)),
        Some((filter, empty, filter_document)) => {
            if empty {
                Ok(
                    MongoCommand::Select(
                        SelectCommand { grouping, condition: SelectCondition::UnconditionalMatch },
                    ),
                )
            } else {
                match read_bson_field(filter.bytes.as_slice(), "$where") {
                    Some((BsonField::JavaScriptCode(code), _)) => Ok(
                        MongoCommand::Select(
                            SelectCommand { grouping, condition: SelectCondition::JSCode(code) },
                        ),
                    ),
                    Some((_, where_condition)) => Err(
                        transform_error(
                            MongoTransformerError::UnimplementedWhereCondition(where_condition),
                        ),
                    ),
                    None => Err(
                        transform_error(
                            MongoTransformerError::UnexpectedFilterDocument(filter_document),
                        ),
                    ),
                }
            }
        },
    }
}

/// The command an OP_MSG asks of the store, read from its last section (see
/// `command_of_sections`); a message of another kind gives
/// `UnimplementedOp`. Each document to insert is kept as the bytes it came in.
pub fn transform_mongo_op_to_command(op: &MongoOp) -> (res: ImmuxResult<MongoCommand>)
    ensures
        match op {
            MongoOp::Msg(m) => transform_result_agrees(res, command_of_sections(sections_view(m.sections@))),
            _ => res matches Err(ImmuxError::MongoTransformer(MongoTransformerError::UnimplementedOp)),
        },
{
    match op {
        MongoOp::Msg(op_msg) => {
            let n = op_msg.sections.len();
            if n == 0 {
                return Err(transform_error(MongoTransformerError::NoSections));
            }
            let ghost sv = sections_view(op_msg.sections@);
            assert(sv.last() == crate::cortices::mongo::ops::op_msg::section_model(op_msg.sections@[n - 1]));
            match &op_msg.sections[n - 1] {
                Section::Sequence(_) => Err(transform_error(MongoTransformerError::UnexpectedLastSection)),
                Section::Single(request_doc) => {
                    let d = request_doc.bytes.as_slice();
                    let is_master = match read_bson_field(d, "isMaster") {
                        Some((BsonField::Double(bits), _)) => bits == DOUBLE_ONE_BITS,
                        _ => false,
                    };
                    if is_master {
                        return match read_bson_field(d, "$db") {
                            Some((BsonField::Str(target_db), _)) => Ok(
                                MongoCommand::PickChain(
                                    PickChainCommand {
                                        new_chain_name: vstd::slice::slice_to_vec(
                                            target_db.as_str().as_bytes(),
                                        ),
                                    },
                                ),
                            ),
                            _ => Err(transform_error(MongoTransformerError::UnexpectedInputShape)),
                        };
                    }
                    if let Some((BsonField::Str(collection), _)) = read_bson_field(d, "insert") {
                        assert(sv[0] == crate::cortices::mongo::ops::op_msg::section_model(op_msg.sections@[0]));
                        return match &op_msg.sections[0] {
                            Section::Sequence(sequence) => match insert_targets_of(&sequence.documents) {
                                Some(targets) => Ok(
                                    MongoCommand::Insert(
                                        InsertCommand {
                                            targets,
                                            grouping: vstd::slice::slice_to_vec(
                                                collection.as_str().as_bytes(),
                                            ),
                                            insert_with_index: false,
                                        },
                                    ),
                                ),
                                None => Err(transform_error(MongoTransformerError::GetObjectId)),
                            },
                            Section::Single(_) => Err(
                                transform_error(MongoTransformerError::UnexpectedInputShape),
                            ),
                        };
                    }
                    if let Some((BsonField::Str(collection), _)) = read_bson_field(d, "find") {
                        return find_command_of(request_doc, collection);
                    }
                    Err(transform_error(MongoTransformerError::UnimplementedCommand))
                },
            }
        },
        _ => Err(transform_error(MongoTransformerError::UnimplementedOp)),
    }
}

/// The header of a message that answers can be addressed by: that of an
/// OP_MSG, a reply or a query; another kind gives `UnimplementedOp`.
pub fn get_header_from_op(op: &MongoOp) -> (res: Result<MsgHeader, MongoTransformerError>)
    ensures
        match op {
            MongoOp::Msg(msg) => res == Ok::<MsgHeader, MongoTransformerError>(msg.message_header),
            MongoOp::Reply(reply) => res == Ok::<MsgHeader, MongoTransformerError>(
                reply.message_header,
            ),
            MongoOp::Query(query) => res == Ok::<MsgHeader, MongoTransformerError>(
                query.message_header,
            ),
            _ => res matches Err(MongoTransformerError::UnimplementedOp),
        },
{
    match op {
        MongoOp::Msg(msg) => Ok(msg.message_header),
        MongoOp::Reply(reply) => Ok(reply.message_header),
        MongoOp::Query(query) => Ok(query.message_header),
        _ => Err(MongoTransformerError::UnimplementedOp),
    }
}

} // verus!
