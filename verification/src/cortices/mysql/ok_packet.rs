//! The OK packet that answers a command or ends the connection phase.
//! @see https://dev.mysql.com/doc/internals/en/packet-OK_Packet.html

use crate::cortices::mysql::capability_flags::CapabilityFlags;
use crate::cortices::mysql::error::MySQLSerializeError;
use crate::cortices::mysql::handshake_response_41::{
    load_handshake_response, stored_handshake_response, stored_handshake_response_in_bounds,
};
use crate::cortices::mysql::server_status_flags::{
    load_server_status_flags, serialize_status_flags, status_word, stored_server_status_flags,
    ServerStatusFlags,
};
use crate::cortices::mysql::utils::{
    length_encoded_integer_bytes, serialize_length_encoded_integer,
    serialize_length_encoded_string, u32_to_u8_array_with_length_3,
};
use crate::cortices::utils::{append_bytes, append_str, utf8_string, ParseOutcome};
use crate::errors::{ImmuxError, ImmuxResult};
use crate::storage::kv_core::ImmuxDBCore;
use crate::utils::{u16_le_bytes, u16_to_u8_array, u32_le_bytes};
use vstd::prelude::*;
use vstd::utf8::{encode_scalar, encode_utf8, encode_utf8_decode_utf8, encode_utf8_valid_utf8};

verus! {

#[derive(Debug, Clone, Copy, PartialEq, Eq, Structural)]
pub enum HeaderOption {
    OK,
    EOF,
}

/// The header byte of each kind of OK packet.
pub open spec fn header_option_byte(header: HeaderOption) -> u8 {
    match header {
        HeaderOption::OK => 0x00,
        HeaderOption::EOF => 0xfe,
    }
}

/// The header byte written for `header`.
pub fn header_option_value(header: HeaderOption) -> (res: u8)
    ensures
        res == header_option_byte(header),
{
    match header {
        HeaderOption::OK => 0x00,
        HeaderOption::EOF => 0xfe,
    }
}

#[derive(Debug, Clone, Copy, PartialEq, Eq, Structural)]
pub enum SessionStateChangeType {
    SessionTrackSystemVariables,
    SessionTrackSchema,
    SessionTrackStateChange,
    SessionTrackGTIDS,
}

/// The type byte of each kind of session state change.
pub open spec fn session_state_change_type_byte(t: SessionStateChangeType) -> u8 {
    match t {
        SessionStateChangeType::SessionTrackSystemVariables => 0x00,
        SessionStateChangeType::SessionTrackSchema => 0x01,
        SessionStateChangeType::SessionTrackStateChange => 0x02,
        SessionStateChangeType::SessionTrackGTIDS => 0x03,
    }
}

/// The type byte written for `t`.
pub fn session_state_change_type_value(t: SessionStateChangeType) -> (res: u8)
    ensures
        res == session_state_change_type_byte(t),
{
    match t {
        SessionStateChangeType::SessionTrackSystemVariables => 0x00,
        SessionStateChangeType::SessionTrackSchema => 0x01,
        SessionStateChangeType::SessionTrackStateChange => 0x02,
        SessionStateChangeType::SessionTrackGTIDS => 0x03,
    }
}

pub struct SessionStateInfo {
    pub session_state_change_type: SessionStateChangeType,
    pub data: String,
}

pub struct OkPacket {
    pub payload_length: u32,
    pub packet_number: u8,
    pub header: HeaderOption,
    pub affected_rows: usize,
    pub last_insert_id: usize,
    pub number_of_warnings: Option<u16>,
    pub info: Option<String>,
    pub session_state_changes: Option<SessionStateInfo>,
}

pub open spec fn missing_field() -> ImmuxError {
    ImmuxError::MySQLSerializer(MySQLSerializeError::MissingFieldInStruct)
}

/// A byte string preceded by its length as a length-encoded integer.
pub open spec fn length_encoded_bytes(b: Seq<u8>) -> Seq<u8> {
    length_encoded_integer_bytes(b.len() as u128) + b
}

/// The bytes of a session state change: its type byte, then its data.
pub open spec fn session_state_bytes(s: SessionStateInfo) -> Seq<u8> {
    seq![session_state_change_type_byte(s.session_state_change_type)] + encode_utf8(s.data@)
}

/// The packet up to the status word: payload length, sequence number,
/// header, affected rows and last insert id.
pub open spec fn ok_packet_head(p: OkPacket) -> Seq<u8> {
    u32_le_bytes(p.payload_length).take(3) + seq![p.packet_number, header_option_byte(p.header)]
        + length_encoded_integer_bytes(p.affected_rows as u128) + length_encoded_integer_bytes(
        p.last_insert_id as u128,
    )
}

/// The status word and warning count, as far as the client's capabilities
/// ask for them.
pub open spec fn ok_packet_status(
    number_of_warnings: Option<u16>,
    flags: CapabilityFlags,
    status: ServerStatusFlags,
) -> Result<Seq<u8>, ImmuxError> {
    if flags.client_protocol_41 {
        match number_of_warnings {
            Some(w) => Ok(u16_le_bytes(status_word(status)) + u16_le_bytes(w)),
            None => Err(missing_field()),
        }
    } else if flags.client_transactions {
        Ok(u16_le_bytes(status_word(status)))
    } else {
        Ok(Seq::empty())
    }
}

/// The human-readable info and, where the session state changed, the change:
/// length-encoded when the client tracks sessions, else the NUL-terminated info.
pub open spec fn ok_packet_trailer(
    info: Option<String>,
    session_state_changes: Option<SessionStateInfo>,
    flags: CapabilityFlags,
    status: ServerStatusFlags,
) -> Result<Seq<u8>, ImmuxError> {
    match info {
        None => Err(missing_field()),
        Some(info) => if flags.client_session_track {
            if status.session_state_changed {
                match session_state_changes {
                    Some(s) => Ok(
                        length_encoded_bytes(encode_utf8(info@)) + length_encoded_bytes(
                            session_state_bytes(s),
                        ),
                    ),
                    None => Err(missing_field()),
                }
            } else {
                Ok(length_encoded_bytes(encode_utf8(info@)))
            }
        } else {
            Ok(encode_utf8(info@) + seq![0u8])
        },
    }
}

/// The OK packet written for `p` to a client with capabilities `flags` while
/// the server status is `status`; a connection-phase packet ends after the
/// status part.
pub open spec fn ok_packet_bytes(
    p: OkPacket,
    flags: CapabilityFlags,
    status: ServerStatusFlags,
    is_connection_phase_ok_packet: bool,
) -> Result<Seq<u8>, ImmuxError> {
    match ok_packet_status(p.number_of_warnings, flags, status) {
        Err(e) => Err(e),
        Ok(s) => if is_connection_phase_ok_packet {
            Ok(ok_packet_head(p) + s)
        } else {
            match ok_packet_trailer(p.info, p.session_state_changes, flags, status) {
                Err(e) => Err(e),
                Ok(t) => Ok(ok_packet_head(p) + s + t),
            }
        },
    }
}

/// What a serializer gave, with the bytes taken as a sequence.
pub open spec fn bytes_result(r: ImmuxResult<Vec<u8>>) -> Result<Seq<u8>, ImmuxError> {
    match r {
        Ok(v) => Ok(v@),
        Err(e) => Err(e),
    }
}

/// A type byte below 0x80 followed by UTF-8 reads back as that character
/// followed by the text.
proof fn lemma_ascii_prefix_utf8(b: u8, text: Seq<char>)
    requires
        b < 0x80,
    ensures
        encode_utf8(seq![b as char] + text) == seq![b] + encode_utf8(text),
{
    let chars = seq![b as char] + text;
    assert(chars[0] == b as char);
    assert(chars.drop_first() =~= text);
    assert((b as char) as u32 == b as u32);
    let x: u32 = b as u32;
    assert(((x & 0x7f) as u8) == b) by (bit_vector)
        requires
            x == b as u32,
            b < 0x80,
    ;
    assert(encode_scalar(x) =~= seq![b]);
}

/// Appends the length-encoded info and session state change.
fn write_session_track(
    res: &mut Vec<u8>,
    info: String,
    session_state_changes: Option<SessionStateInfo>,
    session_state_changed: bool,
) -> (r: ImmuxResult<()>)
    ensures
        session_state_changed && session_state_changes is None ==> r == Err::<(), ImmuxError>(
            missing_field(),
        ),
        !(session_state_changed && session_state_changes is None) ==> r is Ok,
        r is Ok ==> final(res)@ == old(res)@ + length_encoded_bytes(encode_utf8(info@)) + (
        if session_state_changed {
            length_encoded_bytes(session_state_bytes(session_state_changes.unwrap()))
        } else {
            Seq::empty()
        }),
{
    let string_vec = serialize_length_encoded_string(info)?;
    append_bytes(res, string_vec.as_slice());
    if session_state_changed {
        match session_state_changes {
            Some(session_state_info) => {
                let ghost s = session_state_info;
                let mut session_state_info_vec: Vec<u8> = Vec::new();
                let type_byte = session_state_change_type_value(
                    session_state_info.session_state_change_type,
                );
                session_state_info_vec.push(type_byte);
                append_str(&mut session_state_info_vec, session_state_info.data.as_str());
                proof {
                    lemma_ascii_prefix_utf8(type_byte, s.data@);
                    encode_utf8_valid_utf8(seq![type_byte as char] + s.data@);
                    encode_utf8_decode_utf8(seq![type_byte as char] + s.data@);
                    assert(session_state_info_vec@ =~= session_state_bytes(s));
                }
                let session_state_info_string = match utf8_string(session_state_info_vec.as_slice()) {
                    Some(text) => text,
                    None => {
                        return Err(ImmuxError::MySQLSerializer(MySQLSerializeError::MissingFieldInStruct));
                    },
                };
                proof {
                    assert(encode_utf8(session_state_info_string@) == session_state_bytes(s));
                }
                let encoded = serialize_length_encoded_string(session_state_info_string)?;
                append_bytes(res, encoded.as_slice());
            },
            None => {
                return Err(ImmuxError::MySQLSerializer(MySQLSerializeError::MissingFieldInStruct));
            },
        }
    }
    Ok(())
}

/// Appends the packet up to the status word.
fn write_ok_packet_head(res: &mut Vec<u8>, ok_packet: &OkPacket, length_bytes: &[u8; 3])
    requires
        length_bytes@ == u32_le_bytes(ok_packet.payload_length).take(3),
    ensures
        final(res)@ == old(res)@ + ok_packet_head(*ok_packet),
{
    append_bytes(res, length_bytes);
    res.push(ok_packet.packet_number);
    res.push(header_option_value(ok_packet.header));
    match serialize_length_encoded_integer(ok_packet.affected_rows as u128) {
        Ok(v) => append_bytes(res, v.as_slice()),
        Err(_) => {},
    }
    match serialize_length_encoded_integer(ok_packet.last_insert_id as u128) {
        Ok(v) => append_bytes(res, v.as_slice()),
        Err(_) => {},
    }
    assert(res@ =~= old(res)@ + ok_packet_head(*ok_packet));
}

/// Appends the status word and warning count the client's capabilities ask for.
fn write_ok_packet_status(
    res: &mut Vec<u8>,
    number_of_warnings: Option<u16>,
    flags: &CapabilityFlags,
    status_flags: &ServerStatusFlags,
) -> (r: ImmuxResult<()>)
    ensures
        match ok_packet_status(number_of_warnings, *flags, *status_flags) {
            Ok(s) => r is Ok && final(res)@ == old(res)@ + s,
            Err(e) => r == Err::<(), ImmuxError>(e),
        },
{
    if flags.client_protocol_41 {
        let status_flags_vec = u16_to_u8_array(serialize_status_flags(status_flags));
        append_bytes(res, &status_flags_vec);
        match number_of_warnings {
            Some(w) => {
                let warnings = u16_to_u8_array(w);
                append_bytes(res, &warnings);
            },
            None => {
                return Err(ImmuxError::MySQLSerializer(MySQLSerializeError::MissingFieldInStruct));
            },
        }
    } else if flags.client_transactions {
        let status_flags_vec = u16_to_u8_array(serialize_status_flags(status_flags));
        append_bytes(res, &status_flags_vec);
    }
    assert(ok_packet_status(number_of_warnings, *flags, *status_flags) matches Ok(s) && res@
        =~= old(res)@ + s);
    Ok(())
}

/// Appends the info and the session state change the client's capabilities
/// and the server status ask for.
fn write_ok_packet_trailer(
    res: &mut Vec<u8>,
    info: Option<String>,
    session_state_changes: Option<SessionStateInfo>,
    flags: &CapabilityFlags,
    status_flags: &ServerStatusFlags,
) -> (r: ImmuxResult<()>)
    ensures
        match ok_packet_trailer(info, session_state_changes, *flags, *status_flags) {
            Ok(t) => r is Ok && final(res)@ == old(res)@ + t,
            Err(e) => r == Err::<(), ImmuxError>(e),
        },
{
    match info {
        None => Err(ImmuxError::MySQLSerializer(MySQLSerializeError::MissingFieldInStruct)),
        Some(info) => {
            if flags.client_session_track {
                write_session_track(
                    res,
                    info,
                    session_state_changes,
                    status_flags.session_state_changed,
                )
            } else {
                append_str(res, info.as_str());
                res.push(0x00);
                Ok(())
            }
        },
    }
}

/// Writes the OK packet. It reads the client's capabilities from the stored
/// handshake response and the status word from the stored status flags, and
/// fails with what either read fails with, when the payload length does not
/// fit in three bytes, or when a field the client's capabilities ask for is
/// missing. The caller owes a stored handshake response that reading does
/// not run past.
pub fn serialize_ok_packet(
    ok_packet: OkPacket,
    core: &mut ImmuxDBCore,
    is_connection_phase_ok_packet: bool,
) -> (res: ImmuxResult<Vec<u8>>)
    requires
        stored_handshake_response_in_bounds(old(core)@),
    ensures
        final(core)@ == old(core)@,
        match stored_handshake_response(old(core)@) {
            ParseOutcome::Parsed(m) => if ok_packet.payload_length > 0xff_ffff {
                res == Err::<Vec<u8>, ImmuxError>(
                    ImmuxError::MySQLSerializer(MySQLSerializeError::PacketSizeTooLarge),
                )
            } else {
                match stored_server_status_flags(old(core)@) {
                    Err(e) => res == Err::<Vec<u8>, ImmuxError>(e),
                    Ok(status) => bytes_result(res) == ok_packet_bytes(
                        ok_packet,
                        m.capability_flags,
                        status,
                        is_connection_phase_ok_packet,
                    ),
                }
            },
            ParseOutcome::Failed(e) => res == Err::<Vec<u8>, ImmuxError>(e),
            ParseOutcome::OutOfBounds => false,
        },
{
    let ghost p = ok_packet;
    let handshake_response = load_handshake_response(core)?;
    let flags = handshake_response.capability_flags;
    let length_bytes = u32_to_u8_array_with_length_3(ok_packet.payload_length)?;
    let mut res: Vec<u8> = Vec::new();
    write_ok_packet_head(&mut res, &ok_packet, &length_bytes);
    let status_flags = load_server_status_flags(core)?;
    write_ok_packet_status(&mut res, ok_packet.number_of_warnings, &flags, &status_flags)?;
    if is_connection_phase_ok_packet {
        return Ok(res);
    }
    write_ok_packet_trailer(
        &mut res,
        ok_packet.info,
        ok_packet.session_state_changes,
        &flags,
        &status_flags,
    )?;
    Ok(res)
}

} // verus!
