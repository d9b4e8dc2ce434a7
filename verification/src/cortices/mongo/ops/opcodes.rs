//! @see https://docs.mongodb.com/manual/reference/mongodb-wire-protocol/#request-opcodes

use vstd::prelude::*;

verus! {

pub const MONGO_OP_REPLY_CODE: u32 = 1;
pub const MONGO_OP_UPDATE_CODE: u32 = 2001;
pub const MONGO_OP_INSERT_CODE: u32 = 2002;
pub const MONGO_OP_QUERY_CODE: u32 = 2004;
pub const MONGO_OP_GET_MORE_CODE: u32 = 2005;
pub const MONGO_OP_DELETE_CODE: u32 = 2006;
pub const MONGO_OP_KILL_CURSORS_CODE: u32 = 2007;
pub const MONGO_OP_COMMAND_CODE: u32 = 2010;
pub const MONGO_OP_COMMAND_REPLY_CODE: u32 = 2011;
pub const MONGO_OP_MSG_CODE: u32 = 2013;

#[derive(Debug, Clone, Copy, PartialEq, Eq, Structural)]
pub enum MongoOpCode {
    OpReply,
    OpUpdate,
    OpInsert,
    OpQuery,
    OpGetMore,
    OpDelete,
    OpKillCursors,
    OpCommand,
    OpCommandReply,
    OpMsg,
}

} // verus!
