use vstd::prelude::*;

verus! {

#[verifier::external_type_specification]
#[verifier::external_body]
pub struct ExSqlParserError(sqlparser::sqlparser::ParserError);

#[verifier::external_type_specification]
#[verifier::external_body]
pub struct ExParseIntError(std::num::ParseIntError);

#[derive(Debug)]
pub enum MySQLParserError {
    ParseSqlStatementError(sqlparser::sqlparser::ParserError),
    UnknownCharacterSetValue(u8),
    UnknownIdentifier(u8),
    NoZeroTrailingInCstringBuffer,
    CstringContainZeroByte,
    ParseStringError,
    InputBufferError,
    CannotSetServerStatusFlags,
    CannotSetClientStatus,
}

#[derive(Debug)]
pub enum MySQLSerializeError {
    SerializeAuthPluginDataError,
    SerializePluginDataError(std::num::ParseIntError),
    SerializeInitialHandshakePacketError,
    PacketSizeTooLarge,
    LengthEncodedIntegerTooLarge,
    MissingFieldInStruct,
    CannotReadClientStatus,
    CannotReadServerStatusFlags,
}

} // verus!
