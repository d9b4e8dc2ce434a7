pub mod error;
pub mod utils;
pub mod capability_flags;
pub mod server_status_flags;
pub mod auth_switch_request;
pub mod auth_switch_response;
pub mod character_set;
pub mod handshake_response_41;
pub mod initial_handshake_packet;
pub mod ok_packet;
pub mod cortex;
pub mod mysql_parser;
