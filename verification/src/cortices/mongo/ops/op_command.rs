//! @see https://docs.mongodb.com/manual/reference/mongodb-wire-protocol/#op-command

use crate::cortices::mongo::ops::msg_header::MsgHeader;
use crate::cortices::mongo::utils::BsonDocument;
use vstd::prelude::*;

verus! {

#[derive(Debug)]
pub struct OpCommand {
    /// standard message header
    pub header: MsgHeader,
    /// the name of the database to run the command on
    pub database: String,
    /// the name of the command
    pub command_name: String,
    /// a document containing any metadata
    pub metadata: BsonDocument,
    /// a document containing the command arguments
    pub command_args: BsonDocument,
    /// a set of zero or more documents
    pub input_docs: Vec<BsonDocument>,
}

} // verus!
