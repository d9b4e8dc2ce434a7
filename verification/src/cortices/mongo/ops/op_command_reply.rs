//! @see https://docs.mongodb.com/manual/reference/mongodb-wire-protocol/#wire-op-commandreply

use crate::cortices::mongo::ops::msg_header::MsgHeader;
use crate::cortices::mongo::utils::BsonDocument;
use vstd::prelude::*;

verus! {

#[derive(Debug)]
pub struct OpCommandReply {
    /// standard message header
    pub header: MsgHeader,
    /// a document containing any required metadata
    pub metadata: BsonDocument,
    /// a document containing the command reply
    pub command_reply: BsonDocument,
    /// a variable number of documents
    pub output_docs: BsonDocument,
}

} // verus!
