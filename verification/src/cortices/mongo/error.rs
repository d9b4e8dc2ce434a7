use crate::cortices::mongo::ops::opcodes::MongoOpCode;
use vstd::prelude::*;

verus! {

#[verifier::external_type_specification]
#[verifier::external_body]
pub struct ExBsonDecoderError(bson::DecoderError);

#[verifier::external_type_specification]
#[verifier::external_body]
pub struct ExBsonEncoderError(bson::EncoderError);

#[derive(Debug)]
pub enum MongoParserError {
    ParseBsonError(bson::DecoderError),
    InputBufferError,
    UnimplementedOpCode(MongoOpCode),
    UnknownOpCode(u32),
    UnknownSectionKind,
    NotEnoughBufferSize,
    ParseStringError,
}

#[derive(Debug)]
pub enum MongoSerializeError {
    InputObjectError,
    SerializeBsonError(bson::EncoderError),
}

} // verus!
