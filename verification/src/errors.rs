//! The error type shared by every codec and by the core.

use crate::config::ConfigError;
use crate::cortices::mongo::error::{MongoParserError, MongoSerializeError};
use crate::cortices::mongo::transformer::MongoTransformerError;
use crate::cortices::mysql::error::{MySQLParserError, MySQLSerializeError};
use crate::cortices::tcp::TcpError;
use crate::cortices::unicus::http::HttpParsingError;
use crate::cortices::utils::DeserializationError;
use vstd::prelude::*;

verus! {

#[derive(Debug)]
pub enum ImmuxError {
    Config(ConfigError),
    Deserialization(DeserializationError),
    MongoParser(MongoParserError),
    MongoSerializer(MongoSerializeError),
    MongoTransformer(MongoTransformerError),
    MySQLParser(MySQLParserError),
    MySQLSerializer(MySQLSerializeError),
    Tcp(TcpError),
    HttpParsing(HttpParsingError),
}

pub type ImmuxResult<T> = Result<T, ImmuxError>;

} // verus!
