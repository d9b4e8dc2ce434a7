use immuxdb::cortices::mongo::cortex::{
    construct_reply_result_of_response_type, is_admin_query, reply_to_admin_query,
    recognize_exceptional_command, route_exceptional_query, serialize_op_with_computed_length,
    ExceptionalCommand, ExceptionalQueryRoute,
};
use immuxdb::cortices::mongo::error::MongoParserError;
use immuxdb::cortices::mongo::ops::msg_header::{parse_msg_header, serialize_msg_header, MsgHeader};
use immuxdb::cortices::mongo::ops::op::MongoOp;
use immuxdb::cortices::mongo::ops::op_msg::{
    op_msg_is_in_bounds, parse_op_msg, serialize_op_msg, try_parse_op_msg, DocumentSequence,
    Section,
};
use immuxdb::cortices::mongo::ops::op_query::{parse_op_query, try_parse_op_query};
use immuxdb::cortices::mongo::ops::op_reply::{
    parse_op_reply, parse_op_reply_response_flags, serialize_op_reply,
    serialize_op_reply_response_flags, try_parse_op_reply, OpReplyResponseFlags,
};
use immuxdb::cortices::mongo::ops::opcodes::MongoOpCode;
use immuxdb::cortices::mongo::parser::{parse_mongo_incoming_bytes, try_parse_mongo_incoming_bytes};
use immuxdb::cortices::mongo::transformer::get_header_from_op;
use immuxdb::cortices::mongo::utils::{
    construct_single_doc_op_msg, get_op_code_value, parse_bson_document, pick_op_code,
    BsonDocument,
};
use immuxdb::cortices::utils::{parse_cstring, parse_u32, parse_u64};
use immuxdb::cortices::CortexResponse;
use immuxdb::errors::ImmuxError;

const OP_MSG_FIXTURE_SINGLE: [u8; 224] = [
    0xe0, 0x00, 0x00, 0x00, 0x09, 0x00, 0x00, 0x00, 0x07, 0x00, 0x00, 0x00,
    0xdd, 0x07, 0x00, 0x00, 0x00, 0x00, 0x00, 0x00, 0x00, 0xcb, 0x00, 0x00,
    0x00, 0x08, 0x69, 0x73, 0x6d, 0x61, 0x73, 0x74, 0x65, 0x72, 0x00, 0x01,
    0x10, 0x6d, 0x61, 0x78, 0x42, 0x73, 0x6f, 0x6e, 0x4f, 0x62, 0x6a, 0x65,
    0x63, 0x74, 0x53, 0x69, 0x7a, 0x65, 0x00, 0x00, 0x00, 0x00, 0x01, 0x10,
    0x6d, 0x61, 0x78, 0x4d, 0x65, 0x73, 0x73, 0x61, 0x67, 0x65, 0x53, 0x69,
    0x7a, 0x65, 0x42, 0x79, 0x74, 0x65, 0x73, 0x00, 0x00, 0x6c, 0xdc, 0x02,
    0x10, 0x6d, 0x61, 0x78, 0x57, 0x72, 0x69, 0x74, 0x65, 0x42, 0x61, 0x74,
    0x63, 0x68, 0x53, 0x69, 0x7a, 0x65, 0x00, 0xa0, 0x86, 0x01, 0x00, 0x09,
    0x6c, 0x6f, 0x63, 0x61, 0x6c, 0x54, 0x69, 0x6d, 0x65, 0x00, 0xfe, 0x09,
    0xa6, 0xe7, 0x69, 0x01, 0x00, 0x00, 0x10, 0x6c, 0x6f, 0x67, 0x69, 0x63,
    0x61, 0x6c, 0x53, 0x65, 0x73, 0x73, 0x69, 0x6f, 0x6e, 0x54, 0x69, 0x6d,
    0x65, 0x6f, 0x75, 0x74, 0x4d, 0x69, 0x6e, 0x75, 0x74, 0x65, 0x73, 0x00,
    0x1e, 0x00, 0x00, 0x00, 0x10, 0x6d, 0x69, 0x6e, 0x57, 0x69, 0x72, 0x65,
    0x56, 0x65, 0x72, 0x73, 0x69, 0x6f, 0x6e, 0x00, 0x00, 0x00, 0x00, 0x00,
    0x10, 0x6d, 0x61, 0x78, 0x57, 0x69, 0x72, 0x65, 0x56, 0x65, 0x72, 0x73,
    0x69, 0x6f, 0x6e, 0x00, 0x07, 0x00, 0x00, 0x00, 0x08, 0x72, 0x65, 0x61,
    0x64, 0x4f, 0x6e, 0x6c, 0x79, 0x00, 0x00, 0x01, 0x6f, 0x6b, 0x00, 0x00,
    0x00, 0x00, 0x00, 0x00, 0x00, 0xf0, 0x3f, 0x00,
];
const OP_MSG_FIXTURE_SEQUENCE: [u8; 294] = [
    0x26, 0x01, 0x00, 0x00, 0x1a, 0x00, 0x00, 0x00, 0x00, 0x00, 0x00, 0x00,
    0xdd, 0x07, 0x00, 0x00, 0x00, 0x00, 0x00, 0x00, 0x01, 0xb2, 0x00, 0x00,
    0x00, 0x64, 0x6f, 0x63, 0x75, 0x6d, 0x65, 0x6e, 0x74, 0x73, 0x00, 0x3f,
    0x00, 0x00, 0x00, 0x01, 0x5f, 0x69, 0x64, 0x00, 0x00, 0x00, 0x00, 0x00,
    0x00, 0x00, 0x26, 0x40, 0x02, 0x69, 0x74, 0x65, 0x6d, 0x00, 0x07, 0x00,
    0x00, 0x00, 0x70, 0x65, 0x6e, 0x63, 0x69, 0x6c, 0x00, 0x01, 0x71, 0x74,
    0x79, 0x00, 0x00, 0x00, 0x00, 0x00, 0x00, 0x00, 0x49, 0x40, 0x02, 0x74,
    0x79, 0x70, 0x65, 0x00, 0x05, 0x00, 0x00, 0x00, 0x6e, 0x6f, 0x2e, 0x32,
    0x00, 0x00, 0x31, 0x00, 0x00, 0x00, 0x07, 0x5f, 0x69, 0x64, 0x00, 0x5c,
    0xb1, 0x9e, 0x47, 0x0a, 0x00, 0x6f, 0x87, 0xdc, 0xd3, 0xc3, 0x80, 0x02,
    0x69, 0x74, 0x65, 0x6d, 0x00, 0x04, 0x00, 0x00, 0x00, 0x70, 0x65, 0x6e,
    0x00, 0x01, 0x71, 0x74, 0x79, 0x00, 0x00, 0x00, 0x00, 0x00, 0x00, 0x00,
    0x34, 0x40, 0x00, 0x34, 0x00, 0x00, 0x00, 0x07, 0x5f, 0x69, 0x64, 0x00,
    0x5c, 0xb1, 0x9e, 0x47, 0x0a, 0x00, 0x6f, 0x87, 0xdc, 0xd3, 0xc3, 0x81,
    0x02, 0x69, 0x74, 0x65, 0x6d, 0x00, 0x07, 0x00, 0x00, 0x00, 0x65, 0x72,
    0x61, 0x73, 0x65, 0x72, 0x00, 0x01, 0x71, 0x74, 0x79, 0x00, 0x00, 0x00,
    0x00, 0x00, 0x00, 0x00, 0x39, 0x40, 0x00, 0x00, 0x5e, 0x00, 0x00, 0x00,
    0x02, 0x69, 0x6e, 0x73, 0x65, 0x72, 0x74, 0x00, 0x09, 0x00, 0x00, 0x00,
    0x70, 0x72, 0x6f, 0x64, 0x75, 0x63, 0x74, 0x73, 0x00, 0x08, 0x6f, 0x72,
    0x64, 0x65, 0x72, 0x65, 0x64, 0x00, 0x01, 0x03, 0x6c, 0x73, 0x69, 0x64,
    0x00, 0x1e, 0x00, 0x00, 0x00, 0x05, 0x69, 0x64, 0x00, 0x10, 0x00, 0x00,
    0x00, 0x04, 0xff, 0xd9, 0xbb, 0x29, 0xec, 0xdc, 0x43, 0x1d, 0xb8, 0x6b,
    0x32, 0xb4, 0x02, 0x6b, 0x63, 0x86, 0x00, 0x02, 0x24, 0x64, 0x62, 0x00,
    0x0d, 0x00, 0x00, 0x00, 0x74, 0x65, 0x73, 0x74, 0x5f, 0x75, 0x6e, 0x75,
    0x6d, 0x5f, 0x64, 0x62, 0x00, 0x00,
];
const OP_REPLY_FIXTURE: [u8; 442] = [
    0xaa, 0x01, 0x00, 0x00, 0x91, 0x00, 0x00, 0x00, 0x00, 0x00, 0x00, 0x00,
    0x01, 0x00, 0x00, 0x00, 0x08, 0x00, 0x00, 0x00, 0x00, 0x00, 0x00, 0x00,
    0x00, 0x00, 0x00, 0x00, 0x00, 0x00, 0x00, 0x00, 0x02, 0x00, 0x00, 0x00,
    0xcb, 0x00, 0x00, 0x00, 0x08, 0x69, 0x73, 0x6d, 0x61, 0x73, 0x74, 0x65,
    0x72, 0x00, 0x01, 0x10, 0x6d, 0x61, 0x78, 0x42, 0x73, 0x6f, 0x6e, 0x4f,
    0x62, 0x6a, 0x65, 0x63, 0x74, 0x53, 0x69, 0x7a, 0x65, 0x00, 0x00, 0x00,
    0x00, 0x01, 0x10, 0x6d, 0x61, 0x78, 0x4d, 0x65, 0x73, 0x73, 0x61, 0x67,
    0x65, 0x53, 0x69, 0x7a, 0x65, 0x42, 0x79, 0x74, 0x65, 0x73, 0x00, 0x00,
    0x6c, 0xdc, 0x02, 0x10, 0x6d, 0x61, 0x78, 0x57, 0x72, 0x69, 0x74, 0x65,
    0x42, 0x61, 0x74, 0x63, 0x68, 0x53, 0x69, 0x7a, 0x65, 0x00, 0xa0, 0x86,
    0x01, 0x00, 0x09, 0x6c, 0x6f, 0x63, 0x61, 0x6c, 0x54, 0x69, 0x6d, 0x65,
    0x00, 0x9e, 0xd1, 0xfe, 0xbc, 0x69, 0x01, 0x00, 0x00, 0x10, 0x6c, 0x6f,
    0x67, 0x69, 0x63, 0x61, 0x6c, 0x53, 0x65, 0x73, 0x73, 0x69, 0x6f, 0x6e,
    0x54, 0x69, 0x6d, 0x65, 0x6f, 0x75, 0x74, 0x4d, 0x69, 0x6e, 0x75, 0x74,
    0x65, 0x73, 0x00, 0x1e, 0x00, 0x00, 0x00, 0x10, 0x6d, 0x69, 0x6e, 0x57,
    0x69, 0x72, 0x65, 0x56, 0x65, 0x72, 0x73, 0x69, 0x6f, 0x6e, 0x00, 0x00,
    0x00, 0x00, 0x00, 0x10, 0x6d, 0x61, 0x78, 0x57, 0x69, 0x72, 0x65, 0x56,
    0x65, 0x72, 0x73, 0x69, 0x6f, 0x6e, 0x00, 0x07, 0x00, 0x00, 0x00, 0x08,
    0x72, 0x65, 0x61, 0x64, 0x4f, 0x6e, 0x6c, 0x79, 0x00, 0x00, 0x01, 0x6f,
    0x6b, 0x00, 0x00, 0x00, 0x00, 0x00, 0x00, 0x00, 0xf0, 0x3f, 0x00, 0xcb,
    0x00, 0x00, 0x00, 0x08, 0x69, 0x73, 0x6d, 0x61, 0x73, 0x74, 0x65, 0x72,
    0x00, 0x01, 0x10, 0x6d, 0x61, 0x78, 0x42, 0x73, 0x6f, 0x6e, 0x4f, 0x62,
    0x6a, 0x65, 0x63, 0x74, 0x53, 0x69, 0x7a, 0x65, 0x00, 0x00, 0x00, 0x00,
    0x01, 0x10, 0x6d, 0x61, 0x78, 0x4d, 0x65, 0x73, 0x73, 0x61, 0x67, 0x65,
    0x53, 0x69, 0x7a, 0x65, 0x42, 0x79, 0x74, 0x65, 0x73, 0x00, 0x00, 0x6c,
    0xdc, 0x02, 0x10, 0x6d, 0x61, 0x78, 0x57, 0x72, 0x69, 0x74, 0x65, 0x42,
    0x61, 0x74, 0x63, 0x68, 0x53, 0x69, 0x7a, 0x65, 0x00, 0xa0, 0x86, 0x01,
    0x00, 0x09, 0x6c, 0x6f, 0x63, 0x61, 0x6c, 0x54, 0x69, 0x6d, 0x65, 0x00,
    0x9e, 0xd1, 0xfe, 0xbc, 0x69, 0x01, 0x00, 0x00, 0x10, 0x6c, 0x6f, 0x67,
    0x69, 0x63, 0x61, 0x6c, 0x53, 0x65, 0x73, 0x73, 0x69, 0x6f, 0x6e, 0x54,
    0x69, 0x6d, 0x65, 0x6f, 0x75, 0x74, 0x4d, 0x69, 0x6e, 0x75, 0x74, 0x65,
    0x73, 0x00, 0x1e, 0x00, 0x00, 0x00, 0x10, 0x6d, 0x69, 0x6e, 0x57, 0x69,
    0x72, 0x65, 0x56, 0x65, 0x72, 0x73, 0x69, 0x6f, 0x6e, 0x00, 0x00, 0x00,
    0x00, 0x00, 0x10, 0x6d, 0x61, 0x78, 0x57, 0x69, 0x72, 0x65, 0x56, 0x65,
    0x72, 0x73, 0x69, 0x6f, 0x6e, 0x00, 0x07, 0x00, 0x00, 0x00, 0x08, 0x72,
    0x65, 0x61, 0x64, 0x4f, 0x6e, 0x6c, 0x79, 0x00, 0x00, 0x01, 0x6f, 0x6b,
    0x00, 0x00, 0x00, 0x00, 0x00, 0x00, 0x00, 0xf0, 0x3f, 0x00,
];
const OP_QUERY_FIXTURE: [u8; 269] = [
    0x0d, 0x01, 0x00, 0x00, 0x00, 0x00, 0x00, 0x00, 0x00, 0x00, 0x00, 0x00,
    0xd4, 0x07, 0x00, 0x00, 0x00, 0x00, 0x00, 0x00, 0x61, 0x64, 0x6d, 0x69,
    0x6e, 0x2e, 0x24, 0x63, 0x6d, 0x64, 0x00, 0x00, 0x00, 0x00, 0x00, 0x01,
    0x00, 0x00, 0x00, 0xe6, 0x00, 0x00, 0x00, 0x10, 0x69, 0x73, 0x4d, 0x61,
    0x73, 0x74, 0x65, 0x72, 0x00, 0x01, 0x00, 0x00, 0x00, 0x03, 0x63, 0x6c,
    0x69, 0x65, 0x6e, 0x74, 0x00, 0xcb, 0x00, 0x00, 0x00, 0x03, 0x61, 0x70,
    0x70, 0x6c, 0x69, 0x63, 0x61, 0x74, 0x69, 0x6f, 0x6e, 0x00, 0x1d, 0x00,
    0x00, 0x00, 0x02, 0x6e, 0x61, 0x6d, 0x65, 0x00, 0x0e, 0x00, 0x00, 0x00,
    0x4d, 0x6f, 0x6e, 0x67, 0x6f, 0x44, 0x42, 0x20, 0x53, 0x68, 0x65, 0x6c,
    0x6c, 0x00, 0x00, 0x03, 0x64, 0x72, 0x69, 0x76, 0x65, 0x72, 0x00, 0x3a,
    0x00, 0x00, 0x00, 0x02, 0x6e, 0x61, 0x6d, 0x65, 0x00, 0x18, 0x00, 0x00,
    0x00, 0x4d, 0x6f, 0x6e, 0x67, 0x6f, 0x44, 0x42, 0x20, 0x49, 0x6e, 0x74,
    0x65, 0x72, 0x6e, 0x61, 0x6c, 0x20, 0x43, 0x6c, 0x69, 0x65, 0x6e, 0x74,
    0x00, 0x02, 0x76, 0x65, 0x72, 0x73, 0x69, 0x6f, 0x6e, 0x00, 0x06, 0x00,
    0x00, 0x00, 0x34, 0x2e, 0x30, 0x2e, 0x31, 0x00, 0x00, 0x03, 0x6f, 0x73,
    0x00, 0x56, 0x00, 0x00, 0x00, 0x02, 0x74, 0x79, 0x70, 0x65, 0x00, 0x07,
    0x00, 0x00, 0x00, 0x44, 0x61, 0x72, 0x77, 0x69, 0x6e, 0x00, 0x02, 0x6e,
    0x61, 0x6d, 0x65, 0x00, 0x09, 0x00, 0x00, 0x00, 0x4d, 0x61, 0x63, 0x20,
    0x4f, 0x53, 0x20, 0x58, 0x00, 0x02, 0x61, 0x72, 0x63, 0x68, 0x69, 0x74,
    0x65, 0x63, 0x74, 0x75, 0x72, 0x65, 0x00, 0x07, 0x00, 0x00, 0x00, 0x78,
    0x38, 0x36, 0x5f, 0x36, 0x34, 0x00, 0x02, 0x76, 0x65, 0x72, 0x73, 0x69,
    0x6f, 0x6e, 0x00, 0x07, 0x00, 0x00, 0x00, 0x31, 0x38, 0x2e, 0x32, 0x2e,
    0x30, 0x00, 0x00, 0x00, 0x00,
];

fn not_enough() -> ImmuxError {
    ImmuxError::MongoParser(MongoParserError::NotEnoughBufferSize)
}

fn decode(doc: &BsonDocument) -> bson::Document {
    bson::decode_document(&mut &doc.bytes[..]).unwrap()
}

#[test]
fn test_parse_op_msg_section_single() {
    let mut index: usize = 0;
    let buffer = OP_MSG_FIXTURE_SINGLE;
    let (header, offset) = parse_msg_header(&buffer[index..]).unwrap();
    index += offset;
    let op_msg = parse_op_msg(header, &buffer[index..]).unwrap();
    assert_eq!(op_msg.flags.check_sum_present, false);
    assert_eq!(op_msg.flags.exhaust_allowed, false);
    assert_eq!(op_msg.sections.len(), 1);

    match &op_msg.sections[0] {
        Section::Single(doc) => {
            let doc = decode(doc);
            assert!(doc.contains_key("ismaster"));
            assert!(doc.contains_key("ok"));
            assert!(doc.contains_key("readOnly"));
            assert!(doc.contains_key("localTime"));
            assert!(doc.contains_key("maxWriteBatchSize"));
            assert_eq!(doc.get_f64("ok").unwrap(), 1.0);
            assert_eq!(doc.get_bool("readOnly").unwrap(), false);
        }
        Section::Sequence(_document_sequence) => {
            assert!(false, "This buffer should contain only a single section type");
        }
    }
}

#[test]
fn test_serialize_op_msg_section_single() {
    let mut index: usize = 0;
    let buffer = OP_MSG_FIXTURE_SINGLE;
    let (header, offset) = parse_msg_header(&buffer[index..]).unwrap();
    index += offset;
    let op_msg = parse_op_msg(header, &buffer[index..]).unwrap();
    let op_msg_vec = serialize_op_msg(&op_msg).unwrap();
    assert_eq!(buffer.to_vec(), op_msg_vec);
}

#[test]
fn test_parse_op_msg_section_sequence() -> Result<(), String> {
    let buffer = OP_MSG_FIXTURE_SEQUENCE;
    let mut index: usize = 0;
    let (header, offset) = parse_msg_header(&buffer[index..]).unwrap();
    index += offset;
    let op_msg = parse_op_msg(header, &buffer[index..]).unwrap();
    assert_eq!(op_msg.flags.check_sum_present, false);
    assert_eq!(op_msg.flags.exhaust_allowed, false);
    assert_eq!(op_msg.sections.len(), 2);
    match &op_msg.sections[0] {
        Section::Single(_doc) => {
            return Err(String::from("The first section should be sequence type."));
        }
        Section::Sequence(document_sequence) => {
            assert_eq!(document_sequence.documents.len(), 3);
            let first = decode(&document_sequence.documents[0]);
            let second = decode(&document_sequence.documents[1]);
            assert!(first.contains_key("_id"));
            assert_eq!(first.get_f64("_id").unwrap(), 11.0);
            assert!(first.contains_key("item"));
            assert!(second.contains_key("item"));
            assert_eq!(second.get_str("item").unwrap(), "pen");
        }
    }
    match &op_msg.sections[1] {
        Section::Single(doc) => {
            let doc = decode(doc);
            assert!(doc.contains_key("insert"));
            assert_eq!(doc.get_str("insert").unwrap(), "products");
            Ok(())
        }
        Section::Sequence(_document_sequence) => {
            Err(String::from("The second section should be single type."))
        }
    }
}

#[test]
fn test_serialize_op_msg_section_sequence() {
    let buffer = OP_MSG_FIXTURE_SEQUENCE;
    let mut index: usize = 0;
    let (header, offset) = parse_msg_header(&buffer[index..]).unwrap();
    index += offset;
    let op_msg = parse_op_msg(header, &buffer[index..]).unwrap();
    let op_msg_vec = serialize_op_msg(&op_msg).unwrap();
    assert_eq!(buffer.to_vec(), op_msg_vec);
}

#[test]
fn op_msg_sequence_identifier_and_errors() {
    let buffer = OP_MSG_FIXTURE_SEQUENCE;
    let (header, offset) = parse_msg_header(&buffer).unwrap();
    let op_msg = parse_op_msg(header, &buffer[offset..]).unwrap();
    match &op_msg.sections[0] {
        Section::Sequence(sequence) => {
            assert_eq!(sequence.identifier, "documents");
            assert_eq!(sequence.section_size, 0xb2);
        }
        _ => panic!("expected a sequence"),
    }
    let mut unknown_kind = buffer[offset..].to_vec();
    unknown_kind[4] = 0x07;
    assert!(matches!(
        parse_op_msg(header, &unknown_kind),
        Err(ImmuxError::MongoParser(MongoParserError::UnknownSectionKind))
    ));
    assert!(matches!(parse_op_msg(header, &[0x00, 0x00]), Err(ImmuxError::MongoParser(MongoParserError::NotEnoughBufferSize))));
    let mut bad_document = OP_MSG_FIXTURE_SINGLE[16..].to_vec();
    bad_document[9] = 0x42;
    assert!(matches!(
        parse_op_msg(header, &bad_document),
        Err(ImmuxError::MongoParser(MongoParserError::ParseBsonError(_)))
    ));
}

#[test]
fn op_msg_out_of_bounds_is_told() {
    let buffer = OP_MSG_FIXTURE_SINGLE;
    let (header, offset) = parse_msg_header(&buffer).unwrap();
    let body = &buffer[offset..buffer.len() - 10];
    assert!(!op_msg_is_in_bounds(header, body));
    assert!(try_parse_op_msg(header, body).is_none());
    assert!(matches!(try_parse_op_msg(header, &buffer[offset..]), Some(Ok(_))));
}

#[test]
fn op_msg_checksum_is_read() {
    let buffer = OP_MSG_FIXTURE_SINGLE;
    let (header, offset) = parse_msg_header(&buffer).unwrap();
    let mut body = buffer[offset..].to_vec();
    body[0] = 0x01;
    body.extend_from_slice(&[0x78, 0x56, 0x34, 0x12]);
    let op_msg = parse_op_msg(header, &body).unwrap();
    assert!(op_msg.flags.check_sum_present);
    assert_eq!(op_msg.checksum, Some(0x1234_5678));
    let written = serialize_op_msg(&op_msg).unwrap();
    assert_eq!(written.len(), buffer.len());
}

#[test]
fn op_query_test_parse_msg_header() {
    let buffer = OP_QUERY_FIXTURE;
    let (message_header, _) = parse_msg_header(&buffer).unwrap();
    assert_eq!(message_header.message_length, 269);
    assert_eq!(message_header.request_id, 0);
    assert_eq!(message_header.response_to, 0);
    assert_eq!(get_op_code_value(&message_header.op_code), 2004);
}

#[test]
fn op_query_test_parse_bson_document() {
    let buffer = OP_QUERY_FIXTURE;
    let mut index: usize = 0;
    let (_, offset) = parse_msg_header(&buffer[index..]).unwrap();
    index += offset;
    let (_, offset) = parse_u32(&buffer[index..], not_enough()).unwrap();
    index += offset;
    let (_, offset) = parse_cstring(
        &buffer[index..],
        ImmuxError::MongoParser(MongoParserError::ParseStringError),
    )
    .unwrap();
    index += offset;
    let (_, offset) = parse_u32(&buffer[index..], not_enough()).unwrap();
    index += offset;
    let (_, offset) = parse_u32(&buffer[index..], not_enough()).unwrap();
    index += offset;
    let (doc, _) = parse_bson_document(&buffer[index..]).unwrap();
    let doc = decode(&doc);
    assert!(doc.contains_key("isMaster"));
    assert!(doc.contains_key("client"));
}

#[test]
fn op_query_test_parse_op_query() {
    let buffer = OP_QUERY_FIXTURE;
    let index: usize = 0;
    let op_query = parse_op_query(&buffer[index..]).unwrap();
    assert_eq!(op_query.flags, 0);
    assert_eq!(op_query.number_to_skip, 0);
    assert_eq!(op_query.number_to_return, 1);
    assert!(op_query.return_fields_selector.is_none());
}

#[test]
fn op_query_collection_and_selector() {
    let op_query = parse_op_query(&OP_QUERY_FIXTURE).unwrap();
    assert_eq!(op_query.full_collection_name, "admin.$cmd");
    assert!(is_admin_query(&op_query));
    let mut with_selector = OP_QUERY_FIXTURE.to_vec();
    with_selector.extend_from_slice(&[0x05, 0x00, 0x00, 0x00, 0x00]);
    let op_query = parse_op_query(&with_selector).unwrap();
    assert_eq!(op_query.return_fields_selector.unwrap().bytes, vec![0x05, 0x00, 0x00, 0x00, 0x00]);
    let mut too_long = OP_QUERY_FIXTURE.to_vec();
    too_long.extend_from_slice(&[0x50, 0x00, 0x00, 0x00, 0x00]);
    assert!(try_parse_op_query(&too_long).is_none());
}

#[test]
fn test_parse_op_reply_response_flags() {
    {
        let flags_0 = parse_op_reply_response_flags(0);
        assert_eq!(flags_0.cursor_not_found, false);
        assert_eq!(flags_0.query_failure, false);
        assert_eq!(flags_0.shard_config_stale, false);
        assert_eq!(flags_0.await_capable, false);
    }
    {
        let flags_1 = parse_op_reply_response_flags(1);
        assert_eq!(flags_1.cursor_not_found, true);
        assert_eq!(flags_1.query_failure, false);
        assert_eq!(flags_1.shard_config_stale, false);
        assert_eq!(flags_1.await_capable, false);
    }
    {
        let flags_2 = parse_op_reply_response_flags(2);
        assert_eq!(flags_2.cursor_not_found, false);
        assert_eq!(flags_2.query_failure, true);
        assert_eq!(flags_2.shard_config_stale, false);
        assert_eq!(flags_2.await_capable, false);
    }
    {
        let flags_4 = parse_op_reply_response_flags(4);
        assert_eq!(flags_4.cursor_not_found, false);
        assert_eq!(flags_4.query_failure, false);
        assert_eq!(flags_4.shard_config_stale, true);
        assert_eq!(flags_4.await_capable, false);
    }
    {
        let flags_8 = parse_op_reply_response_flags(8);
        assert_eq!(flags_8.cursor_not_found, false);
        assert_eq!(flags_8.query_failure, false);
        assert_eq!(flags_8.shard_config_stale, false);
        assert_eq!(flags_8.await_capable, true);
    }
    {
        let flags_15 = parse_op_reply_response_flags(255);
        assert_eq!(flags_15.cursor_not_found, true);
        assert_eq!(flags_15.query_failure, true);
        assert_eq!(flags_15.shard_config_stale, true);
        assert_eq!(flags_15.await_capable, true);
    }
}

#[test]
fn test_serialize_op_reply_response_flags() {
    let flags = |a, b, c, d| OpReplyResponseFlags {
        cursor_not_found: a,
        query_failure: b,
        shard_config_stale: c,
        await_capable: d,
    };
    assert_eq!(serialize_op_reply_response_flags(&flags(false, false, false, false)), 0);
    assert_eq!(serialize_op_reply_response_flags(&flags(true, false, false, false)), 1);
    assert_eq!(serialize_op_reply_response_flags(&flags(false, true, false, false)), 2);
    assert_eq!(serialize_op_reply_response_flags(&flags(false, false, true, false)), 4);
    assert_eq!(serialize_op_reply_response_flags(&flags(false, false, false, true)), 8);
    assert_eq!(serialize_op_reply_response_flags(&flags(true, true, true, true)), 15);
}

#[test]
fn op_reply_flags_read_back() {
    for word in 0u32..16 {
        let flags = parse_op_reply_response_flags(word);
        assert_eq!(serialize_op_reply_response_flags(&flags), word);
    }
}

fn check_op_reply_fixture_documents(op_query: &immuxdb::cortices::mongo::ops::op_reply::OpReply) {
    assert_eq!(op_query.response_flags, 8);
    assert_eq!(op_query.cursor_id, 0);
    assert_eq!(op_query.starting_from, 0);
    assert_eq!(op_query.number_returned, 2);
    let doc = decode(&op_query.documents[0]);
    assert!(doc.contains_key("ismaster"));
    assert_eq!(doc.contains_key("maxBsonObjectSize"), true);
    assert_eq!(doc.contains_key("maxMessageSizeBytes"), true);
    assert_eq!(doc.contains_key("maxWriteBatchSize"), true);
    assert!(doc.contains_key("localTime"));
    assert_eq!(doc.contains_key("logicalSessionTimeoutMinutes"), true);
    assert!(doc.contains_key("minWireVersion"));
    assert!(doc.contains_key("maxWireVersion"));
    assert!(doc.contains_key("readOnly"));
    assert!(doc.contains_key("ok"));
    assert_eq!(doc.get_f64("ok").unwrap(), 1.0);
    assert_eq!(doc.get_bool("readOnly").unwrap(), false);
}

#[test]
fn op_reply_test_parse_op_reply() {
    let buffer = OP_REPLY_FIXTURE;
    let mut index: usize = 0;
    let (header, offset) = parse_msg_header(&buffer[index..]).unwrap();
    index += offset;
    let op_query = parse_op_reply(header, &buffer[index..]).unwrap();
    check_op_reply_fixture_documents(&op_query);
}

#[test]
fn op_reply_test_serialize_op_reply() {
    let buffer = OP_REPLY_FIXTURE;
    let mut index: usize = 0;
    let (header, offset) = parse_msg_header(&buffer[index..]).unwrap();
    index += offset;
    let op_query = parse_op_reply(header, &buffer[index..]).unwrap();
    let op_reply_buffer = serialize_op_reply(&op_query).unwrap();
    assert_eq!(op_reply_buffer, buffer.to_vec());
}

#[test]
fn op_reply_errors() {
    let buffer = OP_REPLY_FIXTURE;
    let (header, offset) = parse_msg_header(&buffer).unwrap();
    let mut trailing = buffer[offset..].to_vec();
    trailing.push(0);
    assert!(matches!(
        parse_op_reply(header, &trailing),
        Err(ImmuxError::MongoParser(MongoParserError::InputBufferError))
    ));
    assert!(try_parse_op_reply(header, &buffer[offset..buffer.len() - 1]).is_none());
    let mut op_reply = parse_op_reply(header, &buffer[offset..]).unwrap();
    op_reply.number_returned = 3;
    assert!(serialize_op_reply(&op_reply).is_err());
}

#[test]
fn test_test_parse_u64() {
    let buffer = [0x0d, 0x01, 0x00, 0x00, 0x00, 0x00, 0x00, 0x00];
    let res = parse_u64(&buffer, not_enough());
    let (num, offset) = res.unwrap();
    assert_eq!(269, num);
    assert_eq!(buffer.len() - offset, 0);
}

#[test]
fn test_test_parse_u64_error() {
    match parse_u64(&[0x0d], not_enough()) {
        Ok(_) => {
            assert!(false, "buffer size less then 8 should return an error");
        }
        Err(_) => {
            assert!(true);
        }
    }
}

#[test]
fn test_test_parse_op_reply() {
    let buffer = OP_REPLY_FIXTURE;
    let (header, offset) = parse_msg_header(&buffer).unwrap();
    let op_query = parse_op_reply(header, &buffer[offset..]).unwrap();
    check_op_reply_fixture_documents(&op_query);
}

#[test]
fn test_test_serialize_op_reply() {
    let buffer = OP_REPLY_FIXTURE;
    let (header, offset) = parse_msg_header(&buffer).unwrap();
    let op_query = parse_op_reply(header, &buffer[offset..]).unwrap();
    let op_reply_buffer = serialize_op_reply(&op_query).unwrap();
    assert_eq!(op_reply_buffer, buffer.to_vec());
}

#[test]
fn test_test_parse_u32() {
    let buffer = [0x0d, 0x01, 0x00, 0x00];
    let res = parse_u32(&buffer, not_enough());
    let (num, offset) = res.unwrap();
    assert_eq!(269, num);
    assert_eq!(buffer.len() - offset, 0);
}

#[test]
fn test_test_parse_u32_error() {
    match parse_u32(&[0x0d], not_enough()) {
        Ok(_) => {
            assert!(false, "buffer size less then 4 should return an error");
        }
        Err(_) => {
            assert!(true);
        }
    }
}

#[test]
fn test_test_parse_msg_header() {
    let buffer = OP_QUERY_FIXTURE;
    let (message_header, _) = parse_msg_header(&buffer).unwrap();
    assert_eq!(message_header.message_length, 269);
    assert_eq!(message_header.request_id, 0);
    assert_eq!(message_header.response_to, 0);
    assert_eq!(get_op_code_value(&message_header.op_code), 2004);
}

#[test]
fn test_test_parse_cstring() {
    let buffer = OP_QUERY_FIXTURE;
    let (_, offset) = parse_msg_header(&buffer).unwrap();
    let (_, offset2) = parse_u32(&buffer[offset..], not_enough()).unwrap();
    let (res, _) = parse_cstring(
        &buffer[offset + offset2..],
        ImmuxError::MongoParser(MongoParserError::ParseStringError),
    )
    .unwrap();
    assert_eq!(res, "admin.$cmd");
}

#[test]
fn test_test_parse_cstring_error() {
    let buffer = [0x70, 0x70, 0x6c, 0x69];
    match parse_cstring(&buffer, ImmuxError::MongoParser(MongoParserError::ParseStringError)) {
        Ok((_, _)) => {
            assert!(false, "buffer is not a legal format for cstring");
        }
        Err(_) => {
            assert!(true);
        }
    }
}

#[test]
fn test_test_parse_bson_document() {
    let buffer = OP_QUERY_FIXTURE;
    let mut index = parse_msg_header(&buffer).unwrap().1;
    index += parse_u32(&buffer[index..], not_enough()).unwrap().1;
    index += parse_cstring(
        &buffer[index..],
        ImmuxError::MongoParser(MongoParserError::ParseStringError),
    )
    .unwrap()
    .1;
    index += parse_u32(&buffer[index..], not_enough()).unwrap().1;
    index += parse_u32(&buffer[index..], not_enough()).unwrap().1;
    let (doc, _) = parse_bson_document(&buffer[index..]).unwrap();
    let doc = decode(&doc);
    assert_eq!(doc.contains_key("isMaster"), true);
    assert_eq!(doc.contains_key("client"), true);
}

#[test]
fn test_test_parse_op_query() {
    let buffer = OP_QUERY_FIXTURE;
    let op_query = parse_op_query(&buffer).unwrap();
    assert_eq!(op_query.flags, 0);
    assert_eq!(op_query.number_to_skip, 0);
    assert_eq!(op_query.number_to_return, 1);
    assert!(op_query.return_fields_selector.is_none());
}

#[test]
fn msg_header_reads_back_and_errors() {
    let header = MsgHeader {
        message_length: 300,
        request_id: 7,
        response_to: 9,
        op_code: MongoOpCode::OpMsg,
    };
    let bytes = serialize_msg_header(&header);
    assert_eq!(bytes.len(), 16);
    let (read, offset) = parse_msg_header(&bytes).unwrap();
    assert_eq!(read, header);
    assert_eq!(offset, 16);
    let mut unknown = bytes.clone();
    unknown[12] = 0x09;
    assert!(matches!(
        parse_msg_header(&unknown),
        Err(ImmuxError::MongoParser(MongoParserError::UnknownOpCode(0x0709)))
    ));
    assert!(matches!(parse_msg_header(&bytes[0..15]), Err(ImmuxError::MongoParser(MongoParserError::NotEnoughBufferSize))));
}

#[test]
fn op_codes_read_back() {
    for code in [1u32, 2001, 2002, 2004, 2005, 2006, 2007, 2010, 2011, 2013] {
        assert_eq!(get_op_code_value(&pick_op_code(code).unwrap()), code);
    }
    assert!(pick_op_code(3).is_err());
}

#[test]
fn bson_document_errors() {
    assert!(matches!(parse_bson_document(&[0x05, 0x00]), Err(ImmuxError::MongoParser(MongoParserError::NotEnoughBufferSize))));
    let (doc, size) = parse_bson_document(&[0x05, 0x00, 0x00, 0x00, 0x00, 0x99]).unwrap();
    assert_eq!(size, 5);
    assert_eq!(doc.bytes, vec![0x05, 0x00, 0x00, 0x00, 0x00]);
    assert!(matches!(
        parse_bson_document(&[0x04, 0x00, 0x00, 0x00]),
        Err(ImmuxError::MongoParser(MongoParserError::ParseBsonError(_)))
    ));
}

#[test]
fn incoming_bytes_by_op_code() {
    match parse_mongo_incoming_bytes(&OP_QUERY_FIXTURE).unwrap() {
        MongoOp::Query(query) => assert_eq!(query.number_to_return, 1),
        _ => panic!("expected a query"),
    }
    match try_parse_mongo_incoming_bytes(&OP_MSG_FIXTURE_SINGLE) {
        Some(Ok(MongoOp::Msg(msg))) => assert_eq!(msg.sections.len(), 1),
        _ => panic!("expected a message"),
    }
    assert!(matches!(
        parse_mongo_incoming_bytes(&OP_REPLY_FIXTURE),
        Err(ImmuxError::MongoParser(MongoParserError::UnimplementedOpCode(MongoOpCode::OpReply)))
    ));
    let op = parse_mongo_incoming_bytes(&OP_MSG_FIXTURE_SINGLE).unwrap();
    let header = get_header_from_op(&op).unwrap();
    assert_eq!(header.request_id, 9);
}

#[test]
fn computed_length_replaces_the_first_word() {
    let bytes = serialize_op_with_computed_length(&5u8, &|_: &u8| Ok::<Vec<u8>, ImmuxError>(vec![0, 0, 0, 0, 1, 2])).unwrap();
    assert_eq!(bytes, vec![6, 0, 0, 0, 1, 2]);
}

#[test]
fn single_document_replies() {
    let doc = BsonDocument { bytes: vec![0x05, 0x00, 0x00, 0x00, 0x00] };
    let header = MsgHeader { message_length: 0, request_id: 42, response_to: 0, op_code: MongoOpCode::OpMsg };
    let reply = construct_single_doc_op_msg(doc.clone(), &header);
    assert_eq!(reply.message_header.response_to, 42);
    let expected = vec![
        0x1a, 0x00, 0x00, 0x00, 0x00, 0x00, 0x00, 0x00, 0x2a, 0x00, 0x00, 0x00, 0xdd, 0x07, 0x00,
        0x00, 0x00, 0x00, 0x00, 0x00, 0x00, 0x05, 0x00, 0x00, 0x00, 0x00,
    ];
    match construct_reply_result_of_response_type(doc.clone(), &header, false).unwrap() {
        CortexResponse::Send(bytes) => assert_eq!(bytes, expected),
        _ => panic!("expected a reply to send"),
    }
    match construct_reply_result_of_response_type(doc.clone(), &header, true).unwrap() {
        CortexResponse::SendThenDisconnect(bytes) => assert_eq!(bytes, expected),
        _ => panic!("expected a reply to send before closing"),
    }
    let op_query = parse_op_query(&OP_QUERY_FIXTURE).unwrap();
    match reply_to_admin_query(&op_query, doc).unwrap() {
        CortexResponse::Send(bytes) => {
            assert_eq!(bytes.len(), 41);
            assert_eq!(&bytes[0..4], &[41, 0, 0, 0]);
            assert_eq!(&bytes[12..16], &[0x01, 0x00, 0x00, 0x00]);
            assert_eq!(&bytes[32..36], &[0x01, 0x00, 0x00, 0x00]);
        }
        _ => panic!("expected a reply to send"),
    }
}

#[test]
fn exceptional_query_routes() {
    let op_query = parse_op_query(&OP_QUERY_FIXTURE).unwrap();
    assert!(matches!(
        route_exceptional_query(&MongoOp::Query(op_query)),
        ExceptionalQueryRoute::AdminQuery
    ));
    let mut other_query = parse_op_query(&OP_QUERY_FIXTURE).unwrap();
    other_query.full_collection_name = "test.$cmd".to_string();
    assert!(matches!(
        route_exceptional_query(&MongoOp::Query(other_query)),
        ExceptionalQueryRoute::NotExceptional
    ));

    let header = parse_msg_header(&OP_MSG_FIXTURE_SINGLE).unwrap().0;
    let doc = BsonDocument { bytes: vec![0x05, 0x00, 0x00, 0x00, 0x00] };
    let single = MongoOp::Msg(construct_single_doc_op_msg(doc.clone(), &header));
    match route_exceptional_query(&single) {
        ExceptionalQueryRoute::Command(d) => assert_eq!(d.bytes, doc.bytes),
        other => panic!("unexpected {:?}", other),
    }

    let mut sequence_first = construct_single_doc_op_msg(doc.clone(), &header);
    sequence_first.sections.insert(
        0,
        Section::Sequence(DocumentSequence {
            section_size: 4 + 10 + 5,
            identifier: "documents".to_string(),
            documents: vec![doc.clone()],
        }),
    );
    assert!(matches!(
        route_exceptional_query(&MongoOp::Msg(sequence_first)),
        ExceptionalQueryRoute::NotExceptional
    ));
    let (reply_header, offset) = parse_msg_header(&OP_REPLY_FIXTURE).unwrap();
    let reply = MongoOp::Reply(parse_op_reply(reply_header, &OP_REPLY_FIXTURE[offset..]).unwrap());
    assert!(matches!(route_exceptional_query(&reply), ExceptionalQueryRoute::NotExceptional));
}

fn encoded(doc: &bson::Document) -> BsonDocument {
    let mut bytes = Vec::new();
    bson::encode_document(&mut bytes, doc).unwrap();
    BsonDocument { bytes }
}

#[test]
fn exceptional_commands_are_recognized() {
    let with = |key: &str, value: bson::Bson| {
        let mut doc = bson::Document::new();
        doc.insert(key, value);
        doc.insert("$db", "admin");
        encoded(&doc)
    };
    assert_eq!(
        recognize_exceptional_command(&with("whatsmyuri", bson::Bson::I32(1))),
        Some(ExceptionalCommand::WhatsMyUri)
    );
    assert_eq!(recognize_exceptional_command(&with("whatsmyuri", bson::Bson::I32(2))), None);
    assert_eq!(
        recognize_exceptional_command(&with("buildinfo", bson::Bson::FloatingPoint(1.0))),
        Some(ExceptionalCommand::BuildInfo)
    );
    assert_eq!(
        recognize_exceptional_command(&with("buildInfo", bson::Bson::FloatingPoint(1.0))),
        Some(ExceptionalCommand::BuildInfo)
    );
    assert_eq!(recognize_exceptional_command(&with("buildInfo", bson::Bson::I32(1))), None);
    assert_eq!(
        recognize_exceptional_command(&with("buildInfo", bson::Bson::FloatingPoint(2.0))),
        None
    );
    assert_eq!(
        recognize_exceptional_command(&with("getLog", bson::Bson::String("startupWarnings".to_string()))),
        Some(ExceptionalCommand::GetLog)
    );
    assert_eq!(
        recognize_exceptional_command(&with("getFreeMonitoringStatus", bson::Bson::FloatingPoint(1.0))),
        Some(ExceptionalCommand::GetFreeMonitoringStatus)
    );
    assert_eq!(
        recognize_exceptional_command(&with("replSetGetStatus", bson::Bson::FloatingPoint(1.0))),
        Some(ExceptionalCommand::ReplSetGetStatus)
    );
    assert_eq!(
        recognize_exceptional_command(&with("endSessions", bson::Bson::Array(Vec::new()))),
        Some(ExceptionalCommand::EndSessions)
    );
    assert_eq!(
        recognize_exceptional_command(&with("find", bson::Bson::String("c".to_string()))),
        None
    );
}

#[test]
fn documents_are_written_as_kept() {
    // `a` twice: the bson crate decodes this, keeping one `a`, so encoding
    // the decoded document again would give other bytes.
    let repeated_key: Vec<u8> = vec![
        0x13, 0x00, 0x00, 0x00, 0x10, 0x61, 0x00, 0x01, 0x00, 0x00, 0x00, 0x10, 0x61, 0x00, 0x02,
        0x00, 0x00, 0x00, 0x00,
    ];
    let decoded = bson::decode_document(&mut repeated_key.as_slice()).unwrap();
    let mut reencoded = Vec::new();
    bson::encode_document(&mut reencoded, &decoded).unwrap();
    assert_ne!(reencoded, repeated_key);

    let header = parse_msg_header(&OP_MSG_FIXTURE_SINGLE).unwrap().0;
    let op_msg = construct_single_doc_op_msg(BsonDocument { bytes: repeated_key.clone() }, &header);
    let written = serialize_op_msg(&op_msg).unwrap();
    assert_eq!(written[written.len() - repeated_key.len()..].to_vec(), repeated_key);
}
