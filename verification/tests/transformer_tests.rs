use bson::oid::ObjectId;
use bson::spec::BinarySubtype;
use bson::{Bson, Document};
use immuxdb::cortices::mongo::ops::msg_header::MsgHeader;
use immuxdb::cortices::mongo::ops::op::MongoOp;
use immuxdb::cortices::mongo::ops::op_kill_cursors::OpKillCursors;
use immuxdb::cortices::mongo::ops::op_msg::{DocumentSequence, OpMsg, OpMsgFlags, Section};
use immuxdb::cortices::mongo::ops::opcodes::MongoOpCode;
use immuxdb::cortices::mongo::transformer::{
    transform_mongo_op_to_command, MongoCommand, MongoTransformerError, SelectCondition,
};
use immuxdb::cortices::mongo::utils::{construct_single_doc_op_msg, BsonDocument};
use immuxdb::errors::ImmuxError;

const HEADER: MsgHeader = MsgHeader {
    message_length: 0,
    request_id: 10,
    response_to: 0,
    op_code: MongoOpCode::OpMsg,
};

fn encoded(doc: &Document) -> BsonDocument {
    let mut bytes = Vec::new();
    bson::encode_document(&mut bytes, doc).unwrap();
    BsonDocument { bytes }
}

fn insert_adhoc_lsid(doc: &mut Document) {
    let mut lsid = Document::new();
    lsid.insert(
        "id",
        Bson::Binary(BinarySubtype::Uuid, vec![0, 0, 0, 0, 0, 0, 0, 0, 0, 0, 0, 0, 0, 0, 0, 0]),
    );
    doc.insert("lsid", lsid);
}

fn no_flags() -> OpMsgFlags {
    OpMsgFlags { check_sum_present: false, more_to_come: false, exhaust_allowed: false }
}

#[test]
fn test_ismaster() {
    let mut doc = Document::new();
    let target_db_name = String::from("test");
    doc.insert("isMaster", 1.0);
    doc.insert("forShell", 1.0);
    doc.insert("$db", target_db_name.clone());

    let op = construct_single_doc_op_msg(encoded(&doc), &HEADER);
    match transform_mongo_op_to_command(&MongoOp::Msg(op)) {
        Ok(MongoCommand::PickChain(pick_chain)) => {
            assert_eq!(pick_chain.new_chain_name, target_db_name.as_bytes());
        }
        Ok(_) => panic!("ismaster should be translated to pick_chain"),
        Err(error) => panic!("Failed to transform command {:#?}", error),
    }
}

// db.collection_name.insertMany([1, 2, 3])
#[test]
fn transformer_test_insert() {
    let data = vec![1u8, 2u8, 3u8];
    let collection = String::from("collection_name");
    let datum_key = "data";
    let op = OpMsg {
        message_header: HEADER,
        flags: no_flags(),
        sections: vec![
            Section::Sequence(DocumentSequence {
                section_size: 113,
                identifier: String::from("documents"),
                documents: data
                    .iter()
                    .map(|datum| {
                        let mut doc = Document::new();
                        doc.insert(
                            "_id",
                            Bson::ObjectId(ObjectId::with_bytes([
                                0, 0, 0, 0, 0, 0, 0, 0, 0, 0, 0, *datum,
                            ])),
                        );
                        doc.insert(datum_key, *datum as i32);
                        encoded(&doc)
                    })
                    .collect(),
            }),
            Section::Single({
                let mut doc = Document::new();
                doc.insert("insert", collection.clone());
                doc.insert("ordered", true);
                doc.insert("$db", "test");
                insert_adhoc_lsid(&mut doc);
                encoded(&doc)
            }),
        ],
        checksum: None,
    };
    match transform_mongo_op_to_command(&MongoOp::Msg(op)) {
        Ok(MongoCommand::Insert(insert)) => {
            assert_eq!(data.len(), insert.targets.len());
            assert_eq!(insert.grouping, collection.as_bytes());
            assert!(!insert.insert_with_index);
            let mut i = 0;
            while i < data.len() {
                let datum = data[i];
                let target = insert.targets[i].clone();
                assert_eq!(target.id, vec![0, 0, 0, 0, 0, 0, 0, 0, 0, 0, 0, datum]);
                let doc_bytes = target.value.clone();
                match bson::decode_document(&mut doc_bytes.as_slice()) {
                    Err(error) => panic!("Failed to parse document bytes: {:#?}", error),
                    Ok(doc) => match doc.get_i32(datum_key) {
                        Err(_error) => panic!("Missing datum on datum key {}", datum_key),
                        Ok(num) => assert_eq!(datum as i32, num),
                    },
                }
                i += 1;
            }
        }
        Ok(_) => panic!("Mongo insert should be translated to insert command"),
        Err(error) => panic!("Failed to transform command {:#?}", error),
    }
}

// db.collection_name.find({})
#[test]
fn test_find_all() {
    let collection = String::from("Collection name");

    let mut doc = Document::new();
    doc.insert("find", collection.clone());
    let filter = Document::new();
    doc.insert("filter", filter);
    insert_adhoc_lsid(&mut doc);
    doc.insert("$db", "test");
    let op = construct_single_doc_op_msg(encoded(&doc), &HEADER);
    match transform_mongo_op_to_command(&MongoOp::Msg(op)) {
        Ok(MongoCommand::Select(select)) => {
            assert_eq!(select.grouping, collection.as_bytes());
            match select.condition {
                SelectCondition::UnconditionalMatch => (),
                _ => panic!("select.condition is unexpected"),
            }
        }
        Ok(_) => panic!("Mongo find should be translated to select command"),
        Err(error) => panic!("Failed to transform command {:#?}", error),
    }
}

// db.collection_name.find(x => x == 1)
#[test]
fn test_find_by_javascript() {
    let collection = String::from("Collection name");
    let js_code = String::from("x => x == 1");

    let mut doc = Document::new();
    doc.insert("find", collection.clone());
    let mut filter = Document::new();
    filter.insert("$where", Bson::JavaScriptCode(js_code.clone()));
    doc.insert("filter", filter);
    insert_adhoc_lsid(&mut doc);
    doc.insert("$db", "test");
    let op = construct_single_doc_op_msg(encoded(&doc), &HEADER);
    match transform_mongo_op_to_command(&MongoOp::Msg(op)) {
        Ok(MongoCommand::Select(select)) => {
            assert_eq!(select.grouping, collection.as_bytes());
            match select.condition {
                SelectCondition::JSCode(transformed_code) => assert_eq!(transformed_code, js_code),
                _ => panic!("select.condition is unexpected"),
            }
        }
        Ok(_) => panic!("Mongo find should be translated to select command"),
        Err(error) => panic!("Failed to transform command {:#?}", error),
    }
}

fn transform_error(op: MongoOp) -> MongoTransformerError {
    match transform_mongo_op_to_command(&op) {
        Err(ImmuxError::MongoTransformer(error)) => error,
        other => panic!("expected a transformer error, got {:?}", other),
    }
}

fn single(doc: &Document) -> MongoOp {
    MongoOp::Msg(construct_single_doc_op_msg(encoded(doc), &HEADER))
}

#[test]
fn transformer_errors() {
    let empty = OpMsg { message_header: HEADER, flags: no_flags(), sections: vec![], checksum: None };
    assert!(matches!(transform_error(MongoOp::Msg(empty)), MongoTransformerError::NoSections));

    let last_sequence = OpMsg {
        message_header: HEADER,
        flags: no_flags(),
        sections: vec![Section::Sequence(DocumentSequence {
            section_size: 14,
            identifier: String::from("documents"),
            documents: vec![],
        })],
        checksum: None,
    };
    assert!(matches!(
        transform_error(MongoOp::Msg(last_sequence)),
        MongoTransformerError::UnexpectedLastSection
    ));

    let mut doc = Document::new();
    doc.insert("isMaster", 1.0);
    assert!(matches!(transform_error(single(&doc)), MongoTransformerError::UnexpectedInputShape));

    let mut doc = Document::new();
    doc.insert("insert", "c");
    assert!(matches!(transform_error(single(&doc)), MongoTransformerError::UnexpectedInputShape));

    let mut no_id = Document::new();
    no_id.insert("data", 1i32);
    let mut insert = Document::new();
    insert.insert("insert", "c");
    let op = OpMsg {
        message_header: HEADER,
        flags: no_flags(),
        sections: vec![
            Section::Sequence(DocumentSequence {
                section_size: 0,
                identifier: String::from("documents"),
                documents: vec![encoded(&no_id)],
            }),
            Section::Single(encoded(&insert)),
        ],
        checksum: None,
    };
    assert!(matches!(transform_error(MongoOp::Msg(op)), MongoTransformerError::GetObjectId));

    let mut doc = Document::new();
    doc.insert("find", "c");
    assert!(matches!(transform_error(single(&doc)), MongoTransformerError::UnexpectedInputShape));

    let mut filter = Document::new();
    filter.insert("$where", 3i32);
    let mut doc = Document::new();
    doc.insert("find", "c");
    doc.insert("filter", filter);
    assert!(matches!(
        transform_error(single(&doc)),
        MongoTransformerError::UnimplementedWhereCondition(Bson::I32(3))
    ));

    let mut filter = Document::new();
    filter.insert("name", "x");
    let mut doc = Document::new();
    doc.insert("find", "c");
    doc.insert("filter", filter.clone());
    match transform_error(single(&doc)) {
        MongoTransformerError::UnexpectedFilterDocument(f) => assert_eq!(f, filter),
        other => panic!("unexpected {:?}", other),
    }

    let mut doc = Document::new();
    doc.insert("isMaster", 2.0);
    doc.insert("$db", "test");
    assert!(matches!(transform_error(single(&doc)), MongoTransformerError::UnimplementedCommand));

    let kill = OpKillCursors { header: HEADER, zero: 0, number_of_cursor_ids: 0, cursor_ids: vec![] };
    assert!(matches!(
        transform_error(MongoOp::KillCursors(kill)),
        MongoTransformerError::UnimplementedOp
    ));
}
