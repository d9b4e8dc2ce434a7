//! @see https://docs.mongodb.com/manual/reference/mongodb-wire-protocol/#op-kill-cursors

use crate::cortices::mongo::ops::msg_header::MsgHeader;
use vstd::prelude::*;

verus! {

#[derive(Debug)]
pub struct OpKillCursors {
    /// standard message header
    pub header: MsgHeader,
    /// 0 - reserved for future use
    pub zero: u32,
    /// number of cursor ids in the message
    pub number_of_cursor_ids: u32,
    /// cursor ids to close
    pub cursor_ids: Vec<i64>,
}

} // verus!
