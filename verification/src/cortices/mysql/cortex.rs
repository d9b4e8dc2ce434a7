//! The MySQL front end: the greeting sent to a new connection, and the
//! answers to the login request and to the authentication switch response.

use crate::config::ImmuxDBConfiguration;
use crate::cortices::mysql::auth_switch_request::{
    auth_switch_request_bytes, serialize_auth_switch_request, AuthSwitchRequest,
};
use crate::cortices::mysql::auth_switch_response::parse_auth_switch_response;
use crate::cortices::mysql::capability_flags::{capability_word, CapabilityFlags};
use crate::cortices::mysql::character_set::{character_set_value, CharacterSet};
use crate::cortices::mysql::error::MySQLParserError;
use crate::cortices::mysql::handshake_response_41::{
    handshake_response_key, save_handshake_response, stored_handshake_response,
    stored_handshake_response_in_bounds,
};
use crate::cortices::mysql::initial_handshake_packet::{
    initial_handshake_packet_bytes, serialize_initial_handshake_packet,
    InitialHandshakePacket,
};
use crate::cortices::mysql::ok_packet::{
    ok_packet_bytes, serialize_ok_packet, HeaderOption, OkPacket,
};
use crate::cortices::mysql::server_status_flags::{
    save_server_status_flags, serialize_status_flags, server_status_flags_key, status_word,
    stored_server_status_flags, ServerStatusFlags,
};
use crate::cortices::mysql::utils::{
    get_packet_number, hex_text_value, lemma_ascii_hex_text, packet_number_is_handled,
    ConnectionStatePhase,
};
use crate::cortices::utils::{cstring_at, DeserializationError, ParseOutcome};
use crate::cortices::CortexResponse;
use crate::errors::{ImmuxError, ImmuxResult};
use crate::storage::kv_core::ImmuxDBCore;
use crate::utils::{u16_le_bytes, u16_to_u8_array, u32_le_bytes};
use vstd::prelude::*;
use vstd::utf8::{encode_utf8, is_ascii_chars, is_ascii_chars_encode_utf8};

verus! {

/// Every capability the server announces.
pub open spec fn full_capability_flags() -> CapabilityFlags {
    CapabilityFlags {
        client_long_password: true,
        client_found_rows: true,
        client_long_flag: true,
        client_connect_with_db: true,
        client_no_schema: true,
        client_compress: true,
        client_odbc: true,
        client_local_files: true,
        client_ignore_space: true,
        client_protocol_41: true,
        client_interactive: true,
        client_ssl: true,
        client_ignore_sigpipe: true,
        client_transactions: true,
        client_reserved: true,
        client_secure_connection: true,
        client_multi_statements: true,
        client_multi_results: true,
        client_ps_multi_results: true,
        client_plugin_auth: true,
        client_connect_attrs: true,
        client_plugin_auth_lenenc_client_data: true,
        client_can_handle_expired_passwords: true,
        client_session_track: true,
        client_deprecate_eof: true,
    }
}

/// The server status a connection starts in: autocommit on, nothing else.
pub open spec fn autocommit_status_flags() -> ServerStatusFlags {
    ServerStatusFlags {
        intrans: false,
        autocommit: true,
        more_results_exists: false,
        no_good_index_used: false,
        no_index_used: false,
        cursor_exists: false,
        last_row_sent: false,
        db_dropped: false,
        no_backslash_escapes: false,
        metadata_changed: false,
        query_was_slow: false,
        ps_out_params: false,
        intrans_readonly: false,
        session_state_changed: false,
    }
}

/// The greeting sent to every new connection: protocol 10, server version
/// 8.0.15, connection 8, the fixed plugin data, every capability, utf8, the
/// autocommit status and the caching_sha2_password plugin.
pub open spec fn mysql_greeting_bytes() -> Seq<u8> {
    let data = encode_utf8(r#"3h:Jo4\tyJy\177=Y)#rfIa%"#@);
    let word = u32_le_bytes(capability_word(full_capability_flags()));
    seq![0x4au8, 0x00, 0x00, 0x00, 0x0a] + encode_utf8("8.0.15"@) + seq![0x00u8, 0x08, 0x00, 0x00, 0x00]
        + data.take(8) + seq![0x00u8] + word.take(2) + seq![character_set_value(CharacterSet::Utf8GeneralCi)]
        + u16_le_bytes(status_word(autocommit_status_flags())) + word.subrange(2, 4) + seq![0x19u8]
        + Seq::new(10, |i: int| 0u8) + data.subrange(8, 20) + seq![0x00u8] + encode_utf8(
        "caching_sha2_password"@,
    ) + seq![0x00u8]
}

/// The request to switch to mysql_native_password, sent as packet 2.
pub open spec fn auth_switch_request_packet() -> Seq<u8> {
    seq![
        0x2cu8, 0x00, 0x00, 0x02, 0xfe,
        0x6d, 0x79, 0x73, 0x71, 0x6c, 0x5f, 0x6e, 0x61, 0x74, 0x69, 0x76, 0x65, 0x5f, 0x70,
        0x61, 0x73, 0x73, 0x77, 0x6f, 0x72, 0x64, 0x00,
        0x32, 0x22, 0x4d, 0x56, 0x3f, 0x1b, 0x0e, 0x6f, 0x78, 0x3b, 0x36, 0x7f, 0x0b, 0x36,
        0x6f, 0x4b, 0x1b, 0x5b, 0x48, 0x57, 0x00,
    ]
}

/// The OK packet, number 4, that ends the connection phase for a client with
/// capabilities `flags` while the server status is `status`.
pub open spec fn connection_ok_packet(flags: CapabilityFlags, status: ServerStatusFlags) -> Seq<u8> {
    seq![0x07u8, 0x00, 0x00, 0x04, 0x00, 0x00, 0x00] + if flags.client_protocol_41 {
        u16_le_bytes(status_word(status)) + seq![0x00u8, 0x00]
    } else if flags.client_transactions {
        u16_le_bytes(status_word(status))
    } else {
        Seq::empty()
    }
}

/// The request to switch plugins, with its plugin data decoded.
fn mysql_auth_switch_request() -> (res: Vec<u8>)
    ensures
        res@ == auth_switch_request_packet(),
{
    let payload_length: u32 = 44;
    let packet_number: u8 = 2;
    let status: u8 = 0xfe;
    let plugin_name = "mysql_native_password".to_string();
    let plugin_data = "32224d563f1b0e6f783b367f0b366f4b1b5b485700".to_string();
    let ghost data = seq![
        0x32u8, 0x22, 0x4d, 0x56, 0x3f, 0x1b, 0x0e, 0x6f, 0x78, 0x3b, 0x36, 0x7f, 0x0b, 0x36,
        0x6f, 0x4b, 0x1b, 0x5b, 0x48, 0x57, 0x00,
    ];
    proof {
        reveal_strlit("mysql_native_password");
        reveal_strlit("32224d563f1b0e6f783b367f0b366f4b1b5b485700");
        assert(is_ascii_chars(plugin_name@));
        assert(is_ascii_chars(plugin_data@));
        is_ascii_chars_encode_utf8(plugin_name@);
        lemma_ascii_hex_text(plugin_data@, 0);
        assert(hex_text_value(plugin_data@, 0) == Some(data)) by {
            reveal_with_fuel(hex_text_value, 22);
        }
    }
    let auth_switch_request = AuthSwitchRequest {
        payload_length,
        packet_number,
        status,
        plugin_name,
        plugin_data,
    };
    let ghost request = auth_switch_request;
    let res = serialize_auth_switch_request(auth_switch_request);
    assert(auth_switch_request_bytes(request, data) =~= auth_switch_request_packet());
    res.unwrap()
}

/// The OK packet that ends the connection phase.
fn mysql_connection_ok(core: &mut ImmuxDBCore) -> (res: ImmuxResult<Vec<u8>>)
    requires
        stored_handshake_response_in_bounds(old(core)@),
    ensures
        final(core)@ == old(core)@,
        match stored_handshake_response(old(core)@) {
            ParseOutcome::Parsed(m) => match stored_server_status_flags(old(core)@) {
                Err(e) => res == Err::<Vec<u8>, ImmuxError>(e),
                Ok(status) => (res matches Ok(v) && v@ == connection_ok_packet(
                    m.capability_flags,
                    status,
                )),
            },
            ParseOutcome::Failed(e) => res == Err::<Vec<u8>, ImmuxError>(e),
            ParseOutcome::OutOfBounds => false,
        },
{
    let ok_packet = OkPacket {
        payload_length: 7,
        packet_number: 4,
        header: HeaderOption::OK,
        affected_rows: 0,
        last_insert_id: 0,
        number_of_warnings: Some(0),
        info: None,
        session_state_changes: None,
    };
    let ghost p = ok_packet;
    let res = serialize_ok_packet(ok_packet, core, true);
    proof {
        match stored_handshake_response(old(core)@) {
            ParseOutcome::Parsed(m) => match stored_server_status_flags(old(core)@) {
                Ok(status) => {
                    let b = ok_packet_bytes(p, m.capability_flags, status, true);
                    assert(b matches Ok(v) && v =~= connection_ok_packet(m.capability_flags, status));
                },
                Err(_) => {},
            },
            _ => {},
        }
    }
    res
}

/// Answers a client packet by its sequence number. A login request (number
/// 1) is kept in the core as the client's handshake response and answered
/// with a request to switch to mysql_native_password; an authentication
/// switch response (number 3) is answered with the OK packet that ends the
/// connection phase. The caller owes a packet of one of those two numbers,
/// and, for number 3, a stored handshake response that reading does not run
/// past.
pub fn mysql_cortex_process_incoming_message(
    bytes: &[u8],
    core: &mut ImmuxDBCore,
    _config: &ImmuxDBConfiguration,
) -> (res: ImmuxResult<CortexResponse>)
    requires
        packet_number_is_handled(bytes@),
        bytes@.len() >= 4 && bytes@[3] == 3 ==> stored_handshake_response_in_bounds(old(core)@),
    ensures
        bytes@.len() < 4 ==> final(core)@ == old(core)@,
        bytes@.len() < 4 ==> res matches Err(
            ImmuxError::Deserialization(DeserializationError::InsufficientDataWidthU32),
        ),
        bytes@.len() >= 4 && bytes@[3] == 1 ==> final(core)@ == old(core)@.insert(
            handshake_response_key(),
            bytes@,
        ),
        bytes@.len() >= 4 && bytes@[3] == 1 ==> (res matches Ok(CortexResponse::Send(v)) && v@
            == auth_switch_request_packet()),
        bytes@.len() >= 4 && bytes@[3] == 3 ==> final(core)@ == old(core)@,
        bytes@.len() >= 4 && bytes@[3] == 3 ==> (if bytes@.len() > 4 && cstring_at(
            bytes@.skip(4),
        ) is None {
            res matches Err(ImmuxError::MySQLParser(MySQLParserError::NoZeroTrailingInCstringBuffer))
        } else {
            match stored_handshake_response(old(core)@) {
                ParseOutcome::Parsed(m) => match stored_server_status_flags(old(core)@) {
                    Err(e) => res == Err::<CortexResponse, ImmuxError>(e),
                    Ok(status) => (res matches Ok(CortexResponse::Send(v)) && v@
                        == connection_ok_packet(m.capability_flags, status)),
                },
                ParseOutcome::Failed(e) => res == Err::<CortexResponse, ImmuxError>(e),
                ParseOutcome::OutOfBounds => false,
            }
        }),
{
    match get_packet_number(bytes)? {
        ConnectionStatePhase::LoginRequest => {
            save_handshake_response(bytes, core)?;
            Ok(CortexResponse::Send(mysql_auth_switch_request()))
        },
        ConnectionStatePhase::AuthSwitchResponse => {
            let _auth_switch_response = parse_auth_switch_response(bytes)?;
            let ok_packet_vec = mysql_connection_ok(core)?;
            Ok(CortexResponse::Send(ok_packet_vec))
        },
    }
}

/// Greets a new connection: keeps the autocommit status in the core as the
/// server status, and sends the greeting.
pub fn mysql_cortex_process_first_connection(core: &mut ImmuxDBCore) -> (res: ImmuxResult<
    CortexResponse,
>)
    ensures
        final(core)@ == old(core)@.insert(
            server_status_flags_key(),
            u16_le_bytes(status_word(autocommit_status_flags())),
        ),
        res matches Ok(CortexResponse::Send(v)) && v@ == mysql_greeting_bytes(),
{
    let payload_length: u32 = 74;
    let packet_number: u8 = 0;
    let protocol_version: u8 = 10;
    let server_version = "8.0.15".to_string();
    let connection_id: u32 = 8;
    let auth_plugin_data = r#"3h:Jo4\tyJy\177=Y)#rfIa%"#.to_string();
    let capability_flags = CapabilityFlags {
        client_long_password: true,
        client_found_rows: true,
        client_long_flag: true,
        client_connect_with_db: true,
        client_no_schema: true,
        client_compress: true,
        client_odbc: true,
        client_local_files: true,
        client_ignore_space: true,
        client_protocol_41: true,
        client_interactive: true,
        client_ssl: true,
        client_ignore_sigpipe: true,
        client_transactions: true,
        client_reserved: true,
        client_secure_connection: true,
        client_multi_statements: true,
        client_multi_results: true,
        client_ps_multi_results: true,
        client_plugin_auth: true,
        client_connect_attrs: true,
        client_plugin_auth_lenenc_client_data: true,
        client_can_handle_expired_passwords: true,
        client_session_track: true,
        client_deprecate_eof: true,
    };
    let character_set = Some(CharacterSet::Utf8GeneralCi);
    let status_flags = Some(
        ServerStatusFlags {
            intrans: false,
            autocommit: true,
            more_results_exists: false,
            no_good_index_used: false,
            no_index_used: false,
            cursor_exists: false,
            last_row_sent: false,
            db_dropped: false,
            no_backslash_escapes: false,
            metadata_changed: false,
            query_was_slow: false,
            ps_out_params: false,
            intrans_readonly: false,
            session_state_changed: false,
        },
    );
    let auth_plugin_name = "caching_sha2_password".to_string();
    proof {
        reveal_strlit("8.0.15");
        reveal_strlit(r#"3h:Jo4\tyJy\177=Y)#rfIa%"#);
        reveal_strlit("caching_sha2_password");
        assert(is_ascii_chars(server_version@));
        assert(is_ascii_chars(auth_plugin_data@));
        assert(is_ascii_chars(auth_plugin_name@));
        is_ascii_chars_encode_utf8(server_version@);
        is_ascii_chars_encode_utf8(auth_plugin_data@);
        is_ascii_chars_encode_utf8(auth_plugin_name@);
    }
    let initial_handshake_packet = InitialHandshakePacket {
        payload_length,
        packet_number,
        protocol_version,
        server_version,
        connection_id,
        auth_plugin_data,
        capability_flags,
        character_set,
        status_flags,
        auth_plugin_name,
    };
    let ghost packet = initial_handshake_packet;
    match &initial_handshake_packet.status_flags {
        Some(data) => {
            let server_status_flags = serialize_status_flags(data);
            let server_status_flags_buffer = u16_to_u8_array(server_status_flags);
            let _ = save_server_status_flags(&server_status_flags_buffer, core);
        },
        None => {
            return Err(ImmuxError::MySQLParser(MySQLParserError::CannotSetServerStatusFlags));
        },
    }
    proof {
        assert(initial_handshake_packet_bytes(packet) =~= mysql_greeting_bytes());
    }
    let res = serialize_initial_handshake_packet(initial_handshake_packet);
    Ok(CortexResponse::Send(res.unwrap()))
}

} // verus!
