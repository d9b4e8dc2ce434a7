use immuxdb::config::{DEFAULT_CHAIN_NAME, DEFAULT_PERMANENCE_PATH};
use immuxdb::cortices::mysql::auth_switch_request::{serialize_auth_switch_request, AuthSwitchRequest};
use immuxdb::cortices::mysql::auth_switch_response::parse_auth_switch_response;
use immuxdb::cortices::mysql::capability_flags::{
    parse_capability_flags, serialize_capability_flags, CapabilityFlags,
};
use immuxdb::cortices::mysql::character_set::{
    get_character_set_value, parse_character_set, pick_character_set, CharacterSet, BINARY,
    LATIN1_SWEDISH_CI, UTF8_GENERAL_CI,
};
use immuxdb::cortices::mysql::handshake_response_41::{
    handshake_response_is_in_bounds, load_handshake_response, parse_handshake_response,
    save_handshake_response,
};
use immuxdb::cortices::mysql::initial_handshake_packet::{
    serialize_auth_plugin_data, serialize_initial_handshake_packet, InitialHandshakePacket,
};
use immuxdb::cortices::mysql::ok_packet::{serialize_ok_packet, HeaderOption, OkPacket};
use immuxdb::cortices::mysql::server_status_flags::{
    load_server_status_flags, parse_status_flags, save_server_status_flags,
    serialize_status_flags, ServerStatusFlags,
};
use immuxdb::cortices::mysql::utils::{
    decode_hex, get_packet_number, parse_length_encoded_integer, parse_string_with_fixed_length,
    parse_u32_with_length_3, serialize_length_encoded_integer, serialize_length_encoded_string,
    u32_to_u8_array_with_length_3, ConnectionStatePhase,
};
use immuxdb::cortices::utils::{parse_u16, DeserializationError};
use immuxdb::errors::ImmuxError;
use immuxdb::storage::kv::KeyValueEngine;
use immuxdb::storage::kv_core::ImmuxDBCore;
use std::str;

const HANDSHAKE_RESPONSE_FIXTURE: [u8; 171] = [
    0xa7, 0x00, 0x00, 0x01, 0x85, 0xa6, 0xff, 0x01, 0x00, 0x00, 0x00, 0x01,
    0x2d, 0x00, 0x00, 0x00, 0x00, 0x00, 0x00, 0x00, 0x00, 0x00, 0x00, 0x00,
    0x00, 0x00, 0x00, 0x00, 0x00, 0x00, 0x00, 0x00, 0x00, 0x00, 0x00, 0x00,
    0x72, 0x6f, 0x6f, 0x74, 0x00, 0x01, 0x00, 0x63, 0x61, 0x63, 0x68, 0x69,
    0x6e, 0x67, 0x5f, 0x73, 0x68, 0x61, 0x32, 0x5f, 0x70, 0x61, 0x73, 0x73,
    0x77, 0x6f, 0x72, 0x64, 0x00, 0x69, 0x04, 0x5f, 0x70, 0x69, 0x64, 0x05,
    0x39, 0x31, 0x36, 0x39, 0x34, 0x03, 0x5f, 0x6f, 0x73, 0x08, 0x6f, 0x73,
    0x78, 0x31, 0x30, 0x2e, 0x31, 0x34, 0x09, 0x5f, 0x70, 0x6c, 0x61, 0x74,
    0x66, 0x6f, 0x72, 0x6d, 0x06, 0x78, 0x38, 0x36, 0x5f, 0x36, 0x34, 0x0f,
    0x5f, 0x63, 0x6c, 0x69, 0x65, 0x6e, 0x74, 0x5f, 0x76, 0x65, 0x72, 0x73,
    0x69, 0x6f, 0x6e, 0x06, 0x38, 0x2e, 0x30, 0x2e, 0x31, 0x35, 0x0c, 0x5f,
    0x63, 0x6c, 0x69, 0x65, 0x6e, 0x74, 0x5f, 0x6e, 0x61, 0x6d, 0x65, 0x08,
    0x6c, 0x69, 0x62, 0x6d, 0x79, 0x73, 0x71, 0x6c, 0x0c, 0x70, 0x72, 0x6f,
    0x67, 0x72, 0x61, 0x6d, 0x5f, 0x6e, 0x61, 0x6d, 0x65, 0x05, 0x6d, 0x79,
    0x73, 0x71, 0x6c,
];

fn all_capabilities() -> CapabilityFlags {
    CapabilityFlags {
        client_long_password: true,
        client_found_rows: true,
        client_long_flag: true,
        client_connect_with_db: true,
        client_no_schema: true,
        client_compress: true,
        client_odbc: true,
        client_local_files: true,
        client_ignore_space: true,
        client_protocol_41: true,
        client_interactive: true,
        client_ssl: true,
        client_ignore_sigpipe: true,
        client_transactions: true,
        client_reserved: true,
        client_secure_connection: true,
        client_multi_statements: true,
        client_multi_results: true,
        client_ps_multi_results: true,
        client_plugin_auth: true,
        client_connect_attrs: true,
        client_plugin_auth_lenenc_client_data: true,
        client_can_handle_expired_passwords: true,
        client_session_track: true,
        client_deprecate_eof: true,
    }
}

fn autocommit_status() -> ServerStatusFlags {
    ServerStatusFlags {
        intrans: false,
        autocommit: true,
        more_results_exists: false,
        no_good_index_used: false,
        no_index_used: false,
        cursor_exists: false,
        last_row_sent: false,
        db_dropped: false,
        no_backslash_escapes: false,
        metadata_changed: false,
        query_was_slow: false,
        ps_out_params: false,
        intrans_readonly: false,
        session_state_changed: false,
    }
}

fn attribute<'a>(attributes: &'a [(String, String)], key: &str) -> Option<&'a String> {
    attributes.iter().find(|(k, _)| k == key).map(|(_, v)| v)
}

#[test]
fn test_serialize_auth_switch_request() {
    let payload_length = 44;
    let packet_number = 2;
    let status = 0xfe;
    let plugin_name = "mysql_native_password".to_string();
    let plugin_data = "4640602c36261e662d4848106437014f404e2a0300".to_string();
    let auth_switch_request = AuthSwitchRequest {
        payload_length,
        packet_number,
        status,
        plugin_name,
        plugin_data,
    };
    let res = serialize_auth_switch_request(auth_switch_request).unwrap();
    let buffer = [
        0x2c, 0x00, 0x00, 0x02, 0xfe, 0x6d, 0x79, 0x73, 0x71, 0x6c, 0x5f, 0x6e, 0x61, 0x74,
        0x69, 0x76, 0x65, 0x5f, 0x70, 0x61, 0x73, 0x73, 0x77, 0x6f, 0x72, 0x64, 0x00, 0x46,
        0x40, 0x60, 0x2c, 0x36, 0x26, 0x1e, 0x66, 0x2d, 0x48, 0x48, 0x10, 0x64, 0x37, 0x01,
        0x4f, 0x40, 0x4e, 0x2a, 0x03, 0x00,
    ];
    assert_eq!(res, buffer.to_vec());
}

#[test]
fn auth_switch_request_wrong_length_is_refused() {
    let auth_switch_request = AuthSwitchRequest {
        payload_length: 45,
        packet_number: 2,
        status: 0xfe,
        plugin_name: "mysql_native_password".to_string(),
        plugin_data: "4640602c36261e662d4848106437014f404e2a0300".to_string(),
    };
    assert!(matches!(
        serialize_auth_switch_request(auth_switch_request),
        Err(ImmuxError::MySQLSerializer(
            immuxdb::cortices::mysql::error::MySQLSerializeError::SerializeAuthPluginDataError
        ))
    ));
}

#[test]
fn auth_switch_request_with_bad_hex_is_refused() {
    let auth_switch_request = AuthSwitchRequest {
        payload_length: 44,
        packet_number: 2,
        status: 0xfe,
        plugin_name: "mysql_native_password".to_string(),
        plugin_data: "zz".to_string(),
    };
    assert!(matches!(
        serialize_auth_switch_request(auth_switch_request),
        Err(ImmuxError::MySQLSerializer(
            immuxdb::cortices::mysql::error::MySQLSerializeError::SerializePluginDataError(_)
        ))
    ));
}

#[test]
fn test_serialize_auth_switch_response() {
    let buffer = [0x00, 0x00, 0x00, 0x03];
    let auth_swtich_response = parse_auth_switch_response(&buffer).unwrap();
    assert_eq!(auth_swtich_response.payload_length, 0);
    assert_eq!(auth_swtich_response.packet_number, 3);
    assert_eq!(auth_swtich_response.data, None);
}

#[test]
fn auth_switch_response_reads_its_data() {
    let buffer = [0x03, 0x00, 0x00, 0x03, 0x61, 0x62, 0x00];
    let response = parse_auth_switch_response(&buffer).unwrap();
    assert_eq!(response.payload_length, 3);
    assert_eq!(response.data, Some("ab".to_string()));
    let unterminated = [0x03, 0x00, 0x00, 0x03, 0x61, 0x62];
    assert!(matches!(
        parse_auth_switch_response(&unterminated),
        Err(ImmuxError::MySQLParser(
            immuxdb::cortices::mysql::error::MySQLParserError::NoZeroTrailingInCstringBuffer
        ))
    ));
    assert!(matches!(
        parse_auth_switch_response(&[0x00, 0x00]),
        Err(ImmuxError::Deserialization(DeserializationError::InsufficientDataWidthU32))
    ));
}

#[test]
fn test_serialize_capability_flags() {
    let capability_flags = all_capabilities();
    assert_eq!(serialize_capability_flags(&capability_flags), 33554431);
}

#[test]
fn test_parse_capability_flags() {
    let capability_flags_buffer = [0x85, 0xa6, 0xff, 0x01];
    let (capability_flags, index_offset) = parse_capability_flags(&capability_flags_buffer).unwrap();
    assert_eq!(index_offset, 4);
    assert_eq!(capability_flags.client_long_password, true);
    assert_eq!(capability_flags.client_found_rows, false);
    assert_eq!(capability_flags.client_long_flag, true);
    assert_eq!(capability_flags.client_connect_with_db, false);
    assert_eq!(capability_flags.client_no_schema, false);
    assert_eq!(capability_flags.client_compress, false);
    assert_eq!(capability_flags.client_odbc, false);
    assert_eq!(capability_flags.client_local_files, true);
    assert_eq!(capability_flags.client_ignore_space, false);
    assert_eq!(capability_flags.client_protocol_41, true);
    assert_eq!(capability_flags.client_interactive, true);
    assert_eq!(capability_flags.client_ssl, false);
    assert_eq!(capability_flags.client_ignore_sigpipe, false);
    assert_eq!(capability_flags.client_transactions, true);
    assert_eq!(capability_flags.client_reserved, false);
    assert_eq!(capability_flags.client_secure_connection, true);
    assert_eq!(capability_flags.client_multi_statements, true);
    assert_eq!(capability_flags.client_multi_results, true);
    assert_eq!(capability_flags.client_ps_multi_results, true);
    assert_eq!(capability_flags.client_plugin_auth, true);
    assert_eq!(capability_flags.client_connect_attrs, true);
    assert_eq!(capability_flags.client_plugin_auth_lenenc_client_data, true);
    assert_eq!(capability_flags.client_can_handle_expired_passwords, true);
    assert_eq!(capability_flags.client_session_track, true);
    assert_eq!(capability_flags.client_deprecate_eof, true);
}

#[test]
fn capability_flags_roundtrip_on_a_word() {
    let word: u32 = 0x01ffa685;
    let (flags, _) = parse_capability_flags(&word.to_le_bytes()).unwrap();
    assert_eq!(serialize_capability_flags(&flags), word);
    let high_bits: u32 = 0xfe00_0001;
    let (flags, _) = parse_capability_flags(&high_bits.to_le_bytes()).unwrap();
    assert_eq!(serialize_capability_flags(&flags), 1);
    assert!(parse_capability_flags(&[0x01, 0x02]).is_err());
}

#[test]
fn test_get_character_set_value() {
    assert_eq!(get_character_set_value(CharacterSet::Binary), BINARY);
    assert_eq!(get_character_set_value(CharacterSet::Utf8GeneralCi), UTF8_GENERAL_CI);
    assert_eq!(get_character_set_value(CharacterSet::Latin1SwedishCi), LATIN1_SWEDISH_CI);
}

#[test]
fn test_pick_character_set() -> Result<(), String> {
    let character_set_value = 8;
    match pick_character_set(character_set_value).unwrap() {
        CharacterSet::Latin1SwedishCi => {}
        _ => {
            return Err(String::from("This should be CharacterSet::Latin1SwedishCi!"));
        }
    }

    let character_set_value = 33;
    match pick_character_set(character_set_value).unwrap() {
        CharacterSet::Utf8GeneralCi => {}
        _ => {
            return Err(String::from("This should be CharacterSet::Utf8GeneralCi!"));
        }
    }

    let character_set_value = 45;
    match pick_character_set(character_set_value).unwrap() {
        CharacterSet::Utf8mb4GeneralCi => {}
        _ => {
            return Err(String::from("This should be CharacterSet::Utf8mb4GeneralCi!"));
        }
    }

    let character_set_value = 63;
    match pick_character_set(character_set_value).unwrap() {
        CharacterSet::Binary => {}
        _ => {
            return Err(String::from("This should be CharacterSet::Binary!"));
        }
    }

    Ok(())
}

#[test]
#[should_panic]
fn test_pick_character_set_error() {
    let character_set_value = 99;
    pick_character_set(character_set_value).unwrap();
}

#[test]
fn character_set_unknown_value_is_reported() {
    assert!(matches!(
        pick_character_set(99),
        Err(ImmuxError::MySQLParser(
            immuxdb::cortices::mysql::error::MySQLParserError::UnknownCharacterSetValue(99)
        ))
    ));
    let (character_set, offset) = parse_character_set(&[0x2d, 0x00]).unwrap();
    assert_eq!(character_set, CharacterSet::Utf8mb4GeneralCi);
    assert_eq!(offset, 1);
    for value in [CharacterSet::Latin1SwedishCi, CharacterSet::Utf8GeneralCi, CharacterSet::Binary, CharacterSet::Utf8mb4GeneralCi] {
        assert_eq!(pick_character_set(get_character_set_value(value)).unwrap(), value);
    }
}

#[test]
fn test_parse_handshake_response() {
    let buffer = HANDSHAKE_RESPONSE_FIXTURE;
    assert!(handshake_response_is_in_bounds(&buffer));
    let handshake_response = parse_handshake_response(&buffer).unwrap();
    assert_eq!(handshake_response.payload_length, 167);
    assert_eq!(handshake_response.packet_number, 1);
    assert_eq!(handshake_response.max_packet_size, 16777216);
    assert_eq!(handshake_response.user_name, "root");
    assert_eq!(handshake_response.auth_plugin_name.unwrap(), "caching_sha2_password");

    let attributes = handshake_response.attribute.to_owned().unwrap();
    assert!(attribute(&attributes, "_pid").is_some());
    assert!(attribute(&attributes, "_os").is_some());
    assert!(attribute(&attributes, "_platform").is_some());
    assert!(attribute(&attributes, "_client_version").is_some());
    assert!(attribute(&attributes, "_client_name").is_some());
    assert!(attribute(&attributes, "program_name").is_some());

    assert_eq!(attribute(&attributes, "_pid").unwrap(), "91694");
    assert_eq!(attribute(&attributes, "_os").unwrap(), "osx10.14");
    assert_eq!(attribute(&attributes, "_platform").unwrap(), "x86_64");
    assert_eq!(attribute(&attributes, "_client_version").unwrap(), "8.0.15");
    assert_eq!(attribute(&attributes, "_client_name").unwrap(), "libmysql");
    assert_eq!(attribute(&attributes, "program_name").unwrap(), "mysql");
}

#[test]
fn handshake_response_that_runs_past_its_end_is_out_of_bounds() {
    let buffer = HANDSHAKE_RESPONSE_FIXTURE;
    assert!(!handshake_response_is_in_bounds(&buffer[0..30]));
}

#[test]
fn save_then_load_handshake_response() {
    let mut core =
        ImmuxDBCore::new(&KeyValueEngine::HashMap, DEFAULT_PERMANENCE_PATH, DEFAULT_CHAIN_NAME.as_bytes())
            .unwrap();
    assert!(load_handshake_response(&core).is_err());
    save_handshake_response(&HANDSHAKE_RESPONSE_FIXTURE, &mut core).unwrap();
    let response = load_handshake_response(&core).unwrap();
    assert_eq!(response.user_name, "root");
    assert_eq!(response.payload_length, 167);
    assert!(response.capability_flags.client_protocol_41);
    let parsed = parse_handshake_response(&HANDSHAKE_RESPONSE_FIXTURE).unwrap();
    assert_eq!(response.user_name, parsed.user_name);
    assert_eq!(response.auth_response, parsed.auth_response);
}

#[test]
fn test_serialize_auth_plugin_data() {
    let auth_plugin_data = r#"3h:Jo4\tyJy\177=Y)#rfIa%"#.to_string();
    let (part1, part2) = serialize_auth_plugin_data(auth_plugin_data).unwrap();
    assert_eq!(part1.len(), 9);
    assert_eq!(part2.len(), 13);
    assert_eq!(str::from_utf8(&part1[0..8]).unwrap(), r#"3h:Jo4\t"#);
    assert_eq!(str::from_utf8(&part2[0..12]).unwrap(), r#"yJy\177=Y)#r"#);
}

#[test]
fn auth_plugin_data_short_and_empty() {
    let (part1, part2) = serialize_auth_plugin_data("abc".to_string()).unwrap();
    assert_eq!(part1, vec![0x61, 0x62, 0x63, 0, 0, 0, 0, 0, 0]);
    assert_eq!(part2, vec![0]);
    let (part1, part2) = serialize_auth_plugin_data("0123456789".to_string()).unwrap();
    assert_eq!(part1, b"01234567\0".to_vec());
    assert_eq!(part2, b"89\0".to_vec());
    assert!(serialize_auth_plugin_data(String::new()).is_err());
}

fn greeting(payload_length: u32) -> InitialHandshakePacket {
    InitialHandshakePacket {
        payload_length,
        packet_number: 0,
        protocol_version: 10,
        server_version: "8.0.15".to_string(),
        connection_id: 8,
        auth_plugin_data: r#"3h:Jo4\tyJy\177=Y)#rfIa%"#.to_string(),
        capability_flags: all_capabilities(),
        character_set: Some(CharacterSet::Utf8GeneralCi),
        status_flags: Some(autocommit_status()),
        auth_plugin_name: "caching_sha2_password".to_string(),
    }
}

#[test]
fn test_serialize_initial_handshake_packet() {
    let res = serialize_initial_handshake_packet(greeting(74)).unwrap();
    assert_eq!(res[0], 0x4a);
    assert_eq!(res[4], 0x0a);
    assert_eq!(res[12], 0x08);
    assert_eq!(res[24], 0x00);
    assert_eq!(res[25], 0xff);
    assert_eq!(res[26], 0xff);
    assert_eq!(res[27], 0x21);
    assert_eq!(res[28], 0x02);
    assert_eq!(res[29], 0x00);
    assert_eq!(&res[33..43], [0x00; 10]);
}

#[test]
fn initial_handshake_packet_whole_and_refused() {
    let res = serialize_initial_handshake_packet(greeting(74)).unwrap();
    assert_eq!(res.len(), 78);
    assert_eq!(&res[30..33], [0xff, 0x01, 0x19]);
    assert_eq!(&res[43..56], b"yJy\\177=Y)#r\0");
    assert_eq!(&res[56..], b"caching_sha2_password\0");
    assert!(matches!(
        serialize_initial_handshake_packet(greeting(75)),
        Err(ImmuxError::MySQLSerializer(
            immuxdb::cortices::mysql::error::MySQLSerializeError::SerializeInitialHandshakePacketError
        ))
    ));
    assert!(matches!(
        serialize_initial_handshake_packet(greeting(0x0100_0000)),
        Err(ImmuxError::MySQLSerializer(
            immuxdb::cortices::mysql::error::MySQLSerializeError::PacketSizeTooLarge
        ))
    ));
}

#[test]
fn test_serialize_ok_packet() {
    let payload_length = 7;
    let packet_number = 4;
    let header = HeaderOption::OK;
    let affected_rows = 0;
    let last_insert_id = 0;
    let number_of_warnings = Some(0);
    let info = None;
    let session_state_changes = None;

    let ok_packet = OkPacket {
        payload_length,
        packet_number,
        header,
        affected_rows,
        last_insert_id,
        number_of_warnings,
        info,
        session_state_changes,
    };

    let engine_choice = KeyValueEngine::HashMap;
    let mut core =
        ImmuxDBCore::new(&engine_choice, DEFAULT_PERMANENCE_PATH, DEFAULT_CHAIN_NAME.as_bytes())
            .unwrap();
    let server_status_flags_buffer = [0x02, 0x00];
    let handshake_response_buffer = HANDSHAKE_RESPONSE_FIXTURE;
    save_server_status_flags(&server_status_flags_buffer, &mut core).unwrap();
    save_handshake_response(&handshake_response_buffer, &mut core).unwrap();
    let ok_packet_vec = serialize_ok_packet(ok_packet, &mut core, true).unwrap();
    let buffer = [0x07, 0x00, 0x00, 0x04, 0x00, 0x00, 0x00, 0x02, 0x00, 0x00, 0x00];
    assert_eq!(buffer.to_vec(), ok_packet_vec);
}

#[test]
fn ok_packet_outside_connection_phase() {
    let mut core =
        ImmuxDBCore::new(&KeyValueEngine::HashMap, DEFAULT_PERMANENCE_PATH, DEFAULT_CHAIN_NAME.as_bytes())
            .unwrap();
    save_server_status_flags(&[0x02, 0x00], &mut core).unwrap();
    save_handshake_response(&HANDSHAKE_RESPONSE_FIXTURE, &mut core).unwrap();
    let packet = |info: Option<String>| OkPacket {
        payload_length: 12,
        packet_number: 1,
        header: HeaderOption::EOF,
        affected_rows: 300,
        last_insert_id: 1,
        number_of_warnings: Some(2),
        info,
        session_state_changes: None,
    };
    let bytes = serialize_ok_packet(packet(Some("hi".to_string())), &mut core, false).unwrap();
    assert_eq!(
        bytes,
        vec![0x0c, 0x00, 0x00, 0x01, 0xfe, 0xfc, 0x2c, 0x01, 0x01, 0x02, 0x00, 0x02, 0x00, 0x02, 0x68, 0x69]
    );
    assert!(matches!(
        serialize_ok_packet(packet(None), &mut core, false),
        Err(ImmuxError::MySQLSerializer(
            immuxdb::cortices::mysql::error::MySQLSerializeError::MissingFieldInStruct
        ))
    ));
}

#[test]
fn ok_packet_without_stored_status_is_refused() {
    let mut core =
        ImmuxDBCore::new(&KeyValueEngine::HashMap, DEFAULT_PERMANENCE_PATH, DEFAULT_CHAIN_NAME.as_bytes())
            .unwrap();
    save_handshake_response(&HANDSHAKE_RESPONSE_FIXTURE, &mut core).unwrap();
    let ok_packet = OkPacket {
        payload_length: 7,
        packet_number: 4,
        header: HeaderOption::OK,
        affected_rows: 0,
        last_insert_id: 0,
        number_of_warnings: Some(0),
        info: None,
        session_state_changes: None,
    };
    assert!(matches!(
        serialize_ok_packet(ok_packet, &mut core, true),
        Err(ImmuxError::MySQLSerializer(
            immuxdb::cortices::mysql::error::MySQLSerializeError::CannotReadServerStatusFlags
        ))
    ));
}

#[test]
fn test_serialize_status_flags() {
    let status_flags = autocommit_status();
    assert_eq!(serialize_status_flags(&status_flags), 0x0002);
}

#[test]
fn test_parse_status_flags() {
    let buffer = 0x0002;
    let res = parse_status_flags(buffer);
    assert_eq!(serialize_status_flags(&res), 0x0002);
}

#[test]
fn status_flags_keep_only_known_bits() {
    let res = parse_status_flags(0xffff);
    assert_eq!(serialize_status_flags(&res), 0x7ffb);
    assert!(res.session_state_changed);
}

#[test]
fn status_flags_use_the_protocol_bits() {
    let mut flags = parse_status_flags(0);
    flags.more_results_exists = true;
    assert_eq!(serialize_status_flags(&flags), 0x0008);
    let mut flags = parse_status_flags(0);
    flags.no_good_index_used = true;
    assert_eq!(serialize_status_flags(&flags), 0x0010);
    let mut flags = parse_status_flags(0);
    flags.session_state_changed = true;
    assert_eq!(serialize_status_flags(&flags), 0x4000);
    let flags = parse_status_flags(0x0004);
    assert_eq!(serialize_status_flags(&flags), 0x0000);
    let flags = parse_status_flags(0x0009);
    assert!(flags.intrans && flags.more_results_exists && !flags.autocommit);
}

#[test]
fn test_save_load_server_status_flags() {
    let engine_choice = KeyValueEngine::HashMap;
    let server_status_flags_buffer = [0x02, 0x00];
    let mut core =
        ImmuxDBCore::new(&engine_choice, DEFAULT_PERMANENCE_PATH, DEFAULT_CHAIN_NAME.as_bytes())
            .unwrap();
    save_server_status_flags(&server_status_flags_buffer, &mut core).unwrap();
    let res = load_server_status_flags(&mut core).unwrap();
    assert_eq!(res.intrans, false);
    assert_eq!(res.autocommit, true);
    assert_eq!(res.more_results_exists, false);
    assert_eq!(res.no_good_index_used, false);
    assert_eq!(res.no_index_used, false);
    assert_eq!(res.cursor_exists, false);
    assert_eq!(res.last_row_sent, false);
    assert_eq!(res.db_dropped, false);
    assert_eq!(res.no_backslash_escapes, false);
    assert_eq!(res.metadata_changed, false);
    assert_eq!(res.query_was_slow, false);
    assert_eq!(res.ps_out_params, false);
    assert_eq!(res.intrans_readonly, false);
    assert_eq!(res.session_state_changed, false);
}

#[test]
fn load_server_status_flags_errors() {
    let mut core =
        ImmuxDBCore::new(&KeyValueEngine::HashMap, DEFAULT_PERMANENCE_PATH, DEFAULT_CHAIN_NAME.as_bytes())
            .unwrap();
    assert!(matches!(
        load_server_status_flags(&core),
        Err(ImmuxError::MySQLSerializer(
            immuxdb::cortices::mysql::error::MySQLSerializeError::CannotReadServerStatusFlags
        ))
    ));
    save_server_status_flags(&[0x02], &mut core).unwrap();
    assert!(matches!(
        load_server_status_flags(&core),
        Err(ImmuxError::Deserialization(DeserializationError::InsufficientDataWidthU16))
    ));
}

#[test]
fn test_parse_u16() {
    let buffer: &[u8] = &[0x01, 0x02];
    let (res, _) = parse_u16(
        buffer,
        ImmuxError::Deserialization(DeserializationError::InsufficientDataWidthU16),
    )
    .unwrap();
    assert_eq!(res, 513);
}

#[test]
#[should_panic]
fn test_parse_u16_error() {
    let buffer: &[u8] = &[0x01];
    parse_u16(
        buffer,
        ImmuxError::Deserialization(DeserializationError::InsufficientDataWidthU16),
    )
    .unwrap();
}

#[test]
fn test_parse_length_encoded_integer() {
    let buffer = [0x01];
    let (val, offset) = parse_length_encoded_integer(&buffer).unwrap();
    assert_eq!(val, 1);
    assert_eq!(offset, 1);

    let buffer = [0xfc, 0xfb, 0x00];
    let (val, offset) = parse_length_encoded_integer(&buffer).unwrap();
    assert_eq!(val, 251);
    assert_eq!(offset, 3);

    let buffer = [0xfc, 0x22, 0x01];
    let (val, offset) = parse_length_encoded_integer(&buffer).unwrap();
    assert_eq!(val, 290);
    assert_eq!(offset, 3);

    let buffer = [0xfd, 0xea, 0x75, 0xd1];
    let (val, offset) = parse_length_encoded_integer(&buffer).unwrap();
    assert_eq!(val, 13727210);
    assert_eq!(offset, 4);

    let buffer = [0xfe, 0x91, 0x5c, 0x00, 0x01, 0x00, 0x00, 0x00, 0x00];
    let (val, offset) = parse_length_encoded_integer(&buffer).unwrap();
    assert_eq!(val, 16800913);
    assert_eq!(offset, 9);
}

#[test]
fn length_encoded_integer_errors() {
    assert!(matches!(
        parse_length_encoded_integer(&[0xff]),
        Err(ImmuxError::MySQLParser(
            immuxdb::cortices::mysql::error::MySQLParserError::UnknownIdentifier(0xff)
        ))
    ));
    assert!(parse_length_encoded_integer(&[]).is_err());
    assert!(parse_length_encoded_integer(&[0xfc, 0x01]).is_err());
}

#[test]
fn test_serialize_length_encoded_integer() {
    let num = 250;
    let res = serialize_length_encoded_integer(num as u128).unwrap();
    assert_eq!(res, [0xfa].to_vec());

    let num = 2u32.pow(16) - 1;
    let res = serialize_length_encoded_integer(num as u128).unwrap();
    assert_eq!(res, [0xfc, 0xff, 0xff].to_vec());

    let num = 2u32.pow(24) - 1;
    let res = serialize_length_encoded_integer(num as u128).unwrap();
    assert_eq!(res, [0xfd, 0xff, 0xff, 0xff, 0x00].to_vec());

    let num = 2u128.pow(64) - 1;
    let res = serialize_length_encoded_integer(num).unwrap();
    assert_eq!(res, [0xfe, 0xff, 0xff, 0xff, 0xff, 0xff, 0xff, 0xff, 0xff].to_vec());
}

#[test]
#[should_panic]
fn test_serialize_length_encoded_integer_error() {
    let num = 2u128.pow(64);
    serialize_length_encoded_integer(num as u128).unwrap();
}

#[test]
fn length_encoded_integer_reads_back() {
    for n in [0u128, 250, 251, 65535, 65536, 0x00ff_ffff, 0x0100_0000, u64::MAX as u128] {
        let bytes = serialize_length_encoded_integer(n).unwrap();
        let (value, offset) = parse_length_encoded_integer(&bytes).unwrap();
        assert_eq!(value as u128, n);
        if (0x1_0000..0x100_0000).contains(&n) {
            assert_eq!(offset, 4);
            assert_eq!(bytes.len(), 5);
        } else {
            assert_eq!(offset, bytes.len());
        }
    }
}

#[test]
fn test_serialize_length_encoded_string() {
    let string = "test".to_string();
    let res = serialize_length_encoded_string(string).unwrap();
    assert_eq!(res, [0x04, 0x74, 0x65, 0x73, 0x74].to_vec());
}

#[test]
fn test_parse_string_with_fixed_length() {
    let string = "test".to_string();
    let buffer = string.as_bytes().to_vec();
    let (res, _) = parse_string_with_fixed_length(&buffer, buffer.len()).unwrap();
    assert_eq!(res, string);
}

// A length past the end of the buffer is outside what the function accepts;
// slicing the buffer panics there.
#[test]
#[should_panic]
fn test_parse_string_with_fixed_length_error() {
    let string = "test".to_string();
    let buffer = string.as_bytes().to_vec();
    parse_string_with_fixed_length(&buffer, buffer.len() + 1).unwrap();
}

#[test]
fn string_with_fixed_length_not_utf8() {
    let buffer = [0xff, 0xfe];
    assert!(matches!(
        parse_string_with_fixed_length(&buffer, 2),
        Err(ImmuxError::MySQLParser(
            immuxdb::cortices::mysql::error::MySQLParserError::ParseStringError
        ))
    ));
    let (res, offset) = parse_string_with_fixed_length(b"abcdef", 3).unwrap();
    assert_eq!(res, "abc");
    assert_eq!(offset, 3);
}

#[test]
fn test_parse_u32_with_length_3() {
    let buffer = [0x01, 0x00, 0x00];
    let (res, offset) = parse_u32_with_length_3(&buffer).unwrap();
    assert_eq!(res, 1);
    assert_eq!(offset, 3);
}

#[test]
#[should_panic]
fn test_parse_u32_with_length_3_error() {
    let buffer = [0x01];
    parse_u32_with_length_3(&buffer).unwrap();
}

#[test]
fn test_u32_to_u8_array_with_length_3() {
    let number: u32 = 74;
    let res = u32_to_u8_array_with_length_3(number).unwrap();
    assert_eq!(res[0], 0x4a);
    assert_eq!(res[1], 0x00);
    assert_eq!(res[2], 0x00);
}

#[test]
#[should_panic]
fn test_u32_to_u8_array_with_length_3_error() {
    let number: u32 = 2u32.pow(24);
    u32_to_u8_array_with_length_3(number).unwrap();
}

#[test]
fn u24_reads_back() {
    let bytes = u32_to_u8_array_with_length_3(0x00ab_cdef).unwrap();
    let (value, _) = parse_u32_with_length_3(&bytes).unwrap();
    assert_eq!(value, 0x00ab_cdef);
}

#[test]
fn test_decode_hex() {
    let hex_str = "01";
    let res = decode_hex(hex_str).unwrap();
    assert_eq!(res, [0x01].to_vec());

    let hex_str = "fb";
    let res = decode_hex(hex_str).unwrap();
    assert_eq!(res, [0xfb].to_vec());

    let hex_str = "fb3c";
    let res = decode_hex(hex_str).unwrap();
    assert_eq!(res, [0xfb, 0x3c].to_vec());

    let hex_str = "1fb";
    let res = decode_hex(hex_str).unwrap();
    assert_eq!(res, [0x1f, 0x0b].to_vec());

    let hex_str = "10ff";
    let res = decode_hex(hex_str).unwrap();
    assert_eq!(res, [0x10, 0xff].to_vec());
}

#[test]
#[should_panic]
fn test_decode_hex_error() {
    let hex_str = "hello world";
    let _res = decode_hex(hex_str).unwrap();
}

#[test]
fn decode_hex_plus_and_empty() {
    assert_eq!(decode_hex("+f").unwrap(), vec![0x0f]);
    assert_eq!(decode_hex("").unwrap(), Vec::<u8>::new());
    assert!(decode_hex("0g").is_err());
}

#[test]
fn packet_numbers() {
    assert_eq!(get_packet_number(&[0, 0, 0, 1]).unwrap(), ConnectionStatePhase::LoginRequest);
    assert_eq!(
        get_packet_number(&[0, 0, 0, 3, 9]).unwrap(),
        ConnectionStatePhase::AuthSwitchResponse
    );
    assert!(get_packet_number(&[0, 0]).is_err());
}
