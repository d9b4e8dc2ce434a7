//! @see https://docs.mongodb.com/manual/reference/mongodb-wire-protocol/#op-get-more

use crate::cortices::mongo::ops::msg_header::MsgHeader;
use vstd::prelude::*;

verus! {

#[derive(Debug)]
pub struct OpGetMore {
    /// standard message header
    pub header: MsgHeader,
    /// 0 - reserved for future use
    pub zero: u32,
    /// "dbname.collectionname"
    pub full_collection_name: String,
    /// number of documents to return
    pub number_to_return: u32,
    /// cursor id from the OP_REPLY
    pub cursor_id: i64,
}

} // verus!
