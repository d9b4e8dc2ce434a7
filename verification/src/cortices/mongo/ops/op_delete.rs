//! @see https://docs.mongodb.com/manual/reference/mongodb-wire-protocol/#op-delete

use crate::cortices::mongo::ops::msg_header::MsgHeader;
use crate::cortices::mongo::utils::BsonDocument;
use vstd::prelude::*;

verus! {

#[derive(Debug)]
pub struct OpDelete {
    /// standard message header
    pub header: MsgHeader,
    /// 0 - reserved for future use
    pub zero: u32,
    /// "dbname.collectionname"
    pub full_collection_name: String,
    /// bit vector
    pub flags: u32,
    /// query object
    pub selector: BsonDocument,
}

} // verus!
