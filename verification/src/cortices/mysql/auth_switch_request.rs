//! The server's request that the client authenticate with another plugin.

use crate::cortices::mysql::error::MySQLSerializeError;
use crate::cortices::mysql::utils::{
    decode_hex, hex_chunks_split_cleanly, hex_decoded_from, u32_to_u8_array_with_length_3,
    MYSQL_PACKET_HEADER_LENGTH,
};
use crate::cortices::utils::{append_bytes, append_str};
use crate::errors::{ImmuxError, ImmuxResult};
use crate::utils::u32_le_bytes;
use vstd::prelude::*;
use vstd::utf8::encode_utf8;

verus! {

pub struct AuthSwitchRequest {
    pub payload_length: u32,
    pub packet_number: u8,
    pub status: u8,
    pub plugin_name: String,
    /// The plugin data in hexadecimal.
    pub plugin_data: String,
}

/// The packet for a request whose plugin data decodes to `data`: the payload
/// length, the sequence number, the status, the NUL-terminated plugin name
/// and the data.
pub open spec fn auth_switch_request_bytes(request: AuthSwitchRequest, data: Seq<u8>) -> Seq<u8> {
    u32_le_bytes(request.payload_length).take(3) + seq![request.packet_number, request.status]
        + encode_utf8(request.plugin_name@) + seq![0u8] + data
}

/// Writes the request. It fails when the payload length does not fit in
/// three bytes, when the plugin data is not hexadecimal, and when the payload
/// it writes is not `payload_length` bytes long. The caller owes plugin data
/// whose two-byte chunks cut no character in two.
pub fn serialize_auth_switch_request(auth_switch_request: AuthSwitchRequest) -> (res: ImmuxResult<
    Vec<u8>,
>)
    requires
        hex_chunks_split_cleanly(encode_utf8(auth_switch_request.plugin_data@)),
    ensures
        auth_switch_request.payload_length > 0xff_ffff ==> res matches Err(
            ImmuxError::MySQLSerializer(MySQLSerializeError::PacketSizeTooLarge),
        ),
        auth_switch_request.payload_length <= 0xff_ffff ==> match hex_decoded_from(
            encode_utf8(auth_switch_request.plugin_data@),
            0,
        ) {
            None => res matches Err(
                ImmuxError::MySQLSerializer(MySQLSerializeError::SerializePluginDataError(_)),
            ),
            Some(data) => {
                let bytes = auth_switch_request_bytes(auth_switch_request, data);
                if bytes.len() - 4 == auth_switch_request.payload_length {
                    res matches Ok(v) && v@ == bytes
                } else {
                    res matches Err(
                        ImmuxError::MySQLSerializer(MySQLSerializeError::SerializeAuthPluginDataError),
                    )
                }
            },
        },
{
    let mut res: Vec<u8> = Vec::new();
    let length_bytes = u32_to_u8_array_with_length_3(auth_switch_request.payload_length)?;
    append_bytes(&mut res, &length_bytes);
    res.push(auth_switch_request.packet_number);
    res.push(auth_switch_request.status);
    append_str(&mut res, auth_switch_request.plugin_name.as_str());
    res.push(0x00);
    match decode_hex(auth_switch_request.plugin_data.as_str()) {
        Err(error) => {
            return Err(
                ImmuxError::MySQLSerializer(MySQLSerializeError::SerializePluginDataError(error)),
            );
        },
        Ok(data) => {
            append_bytes(&mut res, data.as_slice());
            assert(res@ =~= auth_switch_request_bytes(auth_switch_request, data@));
            if res.len() - MYSQL_PACKET_HEADER_LENGTH != auth_switch_request.payload_length as usize {
                return Err(
                    ImmuxError::MySQLSerializer(MySQLSerializeError::SerializeAuthPluginDataError),
                );
            }
            return Ok(res);
        },
    }
}

} // verus!
