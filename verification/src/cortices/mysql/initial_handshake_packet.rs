//! The server's greeting, Protocol::HandshakeV10.
//! @see https://dev.mysql.com/doc/internals/en/connection-phase-packets.html#packet-Protocol::HandshakeV10

use crate::cortices::mysql::capability_flags::{
    capability_word, serialize_capability_flags, CapabilityFlags,
};
use crate::cortices::mysql::character_set::{
    character_set_value, get_character_set_value, CharacterSet,
};
use crate::cortices::mysql::error::MySQLSerializeError;
use crate::cortices::mysql::server_status_flags::{
    serialize_status_flags, status_word, ServerStatusFlags,
};
use crate::cortices::mysql::utils::{u32_to_u8_array_with_length_3, MYSQL_PACKET_HEADER_LENGTH};
use crate::cortices::utils::{append_bytes, append_str};
use crate::errors::{ImmuxError, ImmuxResult};
use crate::utils::{u16_le_bytes, u16_to_u8_array, u32_le_bytes, u32_to_u8_array};
use vstd::prelude::*;
use vstd::slice::slice_to_vec;
use vstd::utf8::encode_utf8;

verus! {

pub struct InitialHandshakePacket {
    pub payload_length: u32,
    pub packet_number: u8,
    pub protocol_version: u8,
    pub server_version: String,
    pub connection_id: u32,
    pub auth_plugin_data: String,
    pub capability_flags: CapabilityFlags,
    pub character_set: Option<CharacterSet>,
    pub status_flags: Option<ServerStatusFlags>,
    pub auth_plugin_name: String,
}

/// The two NUL-terminated parts the plugin data is sent in: the first eight
/// bytes, padded with zeros when shorter, and the next twelve bytes at most.
pub open spec fn auth_plugin_data_parts(data: Seq<u8>) -> (Seq<u8>, Seq<u8>) {
    if data.len() <= 8 {
        (data + Seq::new((8 - data.len()) as nat, |i: int| 0u8) + seq![0u8], seq![0u8])
    } else if data.len() <= 20 {
        (data.take(8) + seq![0u8], data.skip(8) + seq![0u8])
    } else {
        (data.take(8) + seq![0u8], data.subrange(8, 20) + seq![0u8])
    }
}

/// Splits the plugin data into its two parts; empty data is an error.
pub fn serialize_auth_plugin_data(auth_plugin_data: String) -> (res: ImmuxResult<(Vec<u8>, Vec<u8>)>)
    ensures
        encode_utf8(auth_plugin_data@).len() == 0 ==> res matches Err(
            ImmuxError::MySQLSerializer(MySQLSerializeError::SerializeAuthPluginDataError),
        ),
        encode_utf8(auth_plugin_data@).len() > 0 ==> (res matches Ok((p1, p2)) && (p1@, p2@)
            == auth_plugin_data_parts(encode_utf8(auth_plugin_data@))),
{
    let auth_plugin_data_vec = auth_plugin_data.as_str().as_bytes();
    let n = auth_plugin_data_vec.len();
    if n == 0 {
        return Err(ImmuxError::MySQLSerializer(MySQLSerializeError::SerializeAuthPluginDataError));
    }
    let mut auth_plugin_data_part1: Vec<u8>;
    let mut auth_plugin_data_part2: Vec<u8>;
    if n <= 8 {
        auth_plugin_data_part1 = slice_to_vec(auth_plugin_data_vec);
        auth_plugin_data_part2 = Vec::new();
        let padding_size = 8 - n;
        let mut i: usize = 0;
        while i < padding_size
            invariant
                i <= padding_size,
                padding_size == 8 - n,
                auth_plugin_data_part1@ =~= auth_plugin_data_vec@ + Seq::new(i as nat, |k: int| 0u8),
            decreases padding_size - i,
        {
            auth_plugin_data_part1.push(0x00);
            i = i + 1;
        }
    } else if n <= 20 {
        auth_plugin_data_part1 = slice_to_vec(&auth_plugin_data_vec[0..8]);
        auth_plugin_data_part2 = slice_to_vec(&auth_plugin_data_vec[8..n]);
    } else {
        auth_plugin_data_part1 = slice_to_vec(&auth_plugin_data_vec[0..8]);
        auth_plugin_data_part2 = slice_to_vec(&auth_plugin_data_vec[8..20]);
    }
    auth_plugin_data_part1.push(0x00);
    auth_plugin_data_part2.push(0x00);
    let ghost parts = auth_plugin_data_parts(auth_plugin_data_vec@);
    assert(auth_plugin_data_part1@ =~= parts.0);
    assert(auth_plugin_data_part2@ =~= parts.1);
    Ok((auth_plugin_data_part1, auth_plugin_data_part2))
}

/// The greeting `packet` writes when its fields are consistent: the payload
/// length, the sequence number, the protocol version, the NUL-terminated
/// server version, the connection id, the first part of the plugin data, the
/// low half of the capability word, the character set and status word when
/// given, the high half of the capability word, the length of the plugin data
/// (when plugin authentication is announced), ten reserved zero bytes, the
/// second part of the plugin data (for secure connections) and the
/// NUL-terminated plugin name (for plugin authentication).
pub open spec fn initial_handshake_packet_bytes(packet: InitialHandshakePacket) -> Seq<u8> {
    handshake_head(packet) + handshake_character_set(packet) + handshake_status(packet)
        + handshake_tail(packet)
}

/// The greeting up to the low half of the capability word.
pub open spec fn handshake_head(packet: InitialHandshakePacket) -> Seq<u8> {
    u32_le_bytes(packet.payload_length).take(3) + seq![packet.packet_number, packet.protocol_version]
        + encode_utf8(packet.server_version@) + seq![0u8] + u32_le_bytes(packet.connection_id)
        + auth_plugin_data_parts(encode_utf8(packet.auth_plugin_data@)).0 + u32_le_bytes(
        capability_word(packet.capability_flags),
    ).take(2)
}

/// The character set byte, when given.
pub open spec fn handshake_character_set(packet: InitialHandshakePacket) -> Seq<u8> {
    match packet.character_set {
        Some(c) => seq![character_set_value(c)],
        None => Seq::empty(),
    }
}

/// The status word, when given.
pub open spec fn handshake_status(packet: InitialHandshakePacket) -> Seq<u8> {
    match packet.status_flags {
        Some(f) => u16_le_bytes(status_word(f)),
        None => Seq::empty(),
    }
}

/// The greeting from the high half of the capability word on.
pub open spec fn handshake_tail(packet: InitialHandshakePacket) -> Seq<u8> {
    let data = encode_utf8(packet.auth_plugin_data@);
    u32_le_bytes(capability_word(packet.capability_flags)).subrange(2, 4) + seq![
        if packet.capability_flags.client_plugin_auth {
            ((data.len() + 1) % 256) as u8
        } else {
            0u8
        },
    ] + Seq::new(10, |i: int| 0u8) + (if packet.capability_flags.client_secure_connection {
        auth_plugin_data_parts(data).1
    } else {
        Seq::empty()
    }) + (if packet.capability_flags.client_plugin_auth {
        encode_utf8(packet.auth_plugin_name@) + seq![0u8]
    } else {
        Seq::empty()
    })
}

/// Appends the greeting up to the low half of the capability word.
fn write_handshake_head(
    res: &mut Vec<u8>,
    packet: &InitialHandshakePacket,
    length_bytes: &[u8; 3],
    part1: &Vec<u8>,
)
    requires
        length_bytes@ == u32_le_bytes(packet.payload_length).take(3),
        part1@ == auth_plugin_data_parts(encode_utf8(packet.auth_plugin_data@)).0,
    ensures
        final(res)@ == old(res)@ + handshake_head(*packet),
{
    append_bytes(res, length_bytes);
    res.push(packet.packet_number);
    res.push(packet.protocol_version);
    append_str(res, packet.server_version.as_str());
    res.push(0x00);
    let connection_id_bytes = u32_to_u8_array(packet.connection_id);
    append_bytes(res, &connection_id_bytes);
    append_bytes(res, part1.as_slice());
    let capability_flags_buffer = u32_to_u8_array(
        serialize_capability_flags(&packet.capability_flags),
    );
    append_bytes(res, &capability_flags_buffer[0..2]);
    assert(final(res)@ =~= old(res)@ + handshake_head(*packet)) by {
        assert(res@ =~= old(res)@ + handshake_head(*packet));
    }
}

/// Appends the character set byte and the status word, where given.
fn write_handshake_middle(res: &mut Vec<u8>, packet: &InitialHandshakePacket)
    ensures
        final(res)@ == old(res)@ + handshake_character_set(*packet) + handshake_status(*packet),
{
    match &packet.character_set {
        Some(character_set) => res.push(get_character_set_value(*character_set)),
        None => {},
    }
    let ghost before_status_flags = res@;
    assert(before_status_flags =~= old(res)@ + handshake_character_set(*packet));
    match &packet.status_flags {
        Some(status_flags) => {
            let status_bytes = u16_to_u8_array(serialize_status_flags(status_flags));
            append_bytes(res, &status_bytes);
        },
        None => {},
    }
    assert(res@ =~= before_status_flags + handshake_status(*packet));
}

/// Appends the greeting from the high half of the capability word on.
fn write_handshake_tail(res: &mut Vec<u8>, packet: &InitialHandshakePacket, part2: &Vec<u8>)
    requires
        part2@ == auth_plugin_data_parts(encode_utf8(packet.auth_plugin_data@)).1,
    ensures
        final(res)@ == old(res)@ + handshake_tail(*packet),
{
    let ghost data = encode_utf8(packet.auth_plugin_data@);
    let capability_flags_buffer = u32_to_u8_array(
        serialize_capability_flags(&packet.capability_flags),
    );
    append_bytes(res, &capability_flags_buffer[2..4]);
    let data_length = packet.auth_plugin_data.as_str().as_bytes().len();
    let length_byte: u8 = if packet.capability_flags.client_plugin_auth {
        let low = (data_length % 256) as u8;
        if low == 255 {
            0u8
        } else {
            low + 1
        }
    } else {
        0x00
    };
    assert(packet.capability_flags.client_plugin_auth ==> length_byte == ((data.len() + 1) % 256) as u8);
    res.push(length_byte);
    append_bytes(res, &[0u8; 10]);
    if packet.capability_flags.client_secure_connection {
        append_bytes(res, part2.as_slice());
    }
    if packet.capability_flags.client_plugin_auth {
        append_str(res, packet.auth_plugin_name.as_str());
        res.push(0x00);
    }
    assert(res@ =~= old(res)@ + handshake_tail(*packet));
}

/// Writes the greeting. It fails when the payload length does not fit in
/// three bytes, when the plugin data is empty, and when the payload it writes
/// is not `payload_length` bytes long.
pub fn serialize_initial_handshake_packet(initial_handshake_packet: InitialHandshakePacket) -> (res:
    ImmuxResult<Vec<u8>>)
    ensures
        initial_handshake_packet.payload_length > 0xff_ffff ==> res matches Err(
            ImmuxError::MySQLSerializer(MySQLSerializeError::PacketSizeTooLarge),
        ),
        initial_handshake_packet.payload_length <= 0xff_ffff && encode_utf8(
            initial_handshake_packet.auth_plugin_data@,
        ).len() == 0 ==> res matches Err(
            ImmuxError::MySQLSerializer(MySQLSerializeError::SerializeAuthPluginDataError),
        ),
        initial_handshake_packet.payload_length <= 0xff_ffff && encode_utf8(
            initial_handshake_packet.auth_plugin_data@,
        ).len() > 0 ==> {
            let bytes = initial_handshake_packet_bytes(initial_handshake_packet);
            if bytes.len() - 4 == initial_handshake_packet.payload_length {
                res matches Ok(v) && v@ == bytes
            } else {
                res matches Err(
                    ImmuxError::MySQLSerializer(
                        MySQLSerializeError::SerializeInitialHandshakePacketError,
                    ),
                )
            }
        },
{
    let length_bytes = u32_to_u8_array_with_length_3(initial_handshake_packet.payload_length)?;
    let (auth_plugin_data_part1, auth_plugin_data_part2) = serialize_auth_plugin_data(
        initial_handshake_packet.auth_plugin_data.clone(),
    )?;
    let mut res: Vec<u8> = Vec::new();
    write_handshake_head(&mut res, &initial_handshake_packet, &length_bytes, &auth_plugin_data_part1);
    write_handshake_middle(&mut res, &initial_handshake_packet);
    write_handshake_tail(&mut res, &initial_handshake_packet, &auth_plugin_data_part2);
    assert(res@ =~= initial_handshake_packet_bytes(initial_handshake_packet));
    if res.len() - MYSQL_PACKET_HEADER_LENGTH != initial_handshake_packet.payload_length as usize {
        return Err(
            ImmuxError::MySQLSerializer(MySQLSerializeError::SerializeInitialHandshakePacketError),
        );
    }
    Ok(res)
}

} // verus!
