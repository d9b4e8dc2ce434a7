//! @see https://docs.mongodb.com/manual/reference/mongodb-wire-protocol/#op-update

use crate::cortices::mongo::ops::msg_header::MsgHeader;
use crate::cortices::mongo::utils::BsonDocument;
use vstd::prelude::*;

verus! {

#[derive(Debug)]
pub struct OpUpdate {
    /// standard message header
    pub header: MsgHeader,
    /// 0 - reserved for future use
    pub zero: u32,
    /// "dbname.collectionname"
    pub full_collection_name: String,
    /// bit vector
    pub flags: u32,
    /// the query to select the document
    pub selector: BsonDocument,
    /// specification of the update to perform
    pub update: BsonDocument,
}

} // verus!
