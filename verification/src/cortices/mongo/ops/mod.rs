pub mod msg_header;
pub mod op;
pub mod op_command;
pub mod op_command_reply;
pub mod op_delete;
pub mod op_get_more;
pub mod op_insert;
pub mod op_kill_cursors;
pub mod op_msg;
pub mod op_query;
pub mod op_reply;
pub mod op_update;
pub mod opcodes;
