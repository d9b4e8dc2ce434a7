//! @see https://docs.mongodb.com/manual/reference/mongodb-wire-protocol/#op-insert

use crate::cortices::mongo::ops::msg_header::MsgHeader;
use crate::cortices::mongo::utils::BsonDocument;
use vstd::prelude::*;

verus! {

#[derive(Debug)]
pub struct OpInsert {
    /// standard message header
    pub header: MsgHeader,
    /// bit vector
    pub flags: u32,
    /// "dbname.collectionname"
    pub full_collection_name: String,
    /// one or more documents to insert into the collection
    pub documents: Vec<BsonDocument>,
}

} // verus!
