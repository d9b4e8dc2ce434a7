//! The client's answer to an authentication switch request.

use crate::cortices::mysql::error::MySQLParserError;
use crate::cortices::mysql::utils::{le_u24_value, parse_u32_with_length_3};
use crate::cortices::utils::{cstring_at, parse_cstring, parse_u8, DeserializationError};
use crate::errors::{ImmuxError, ImmuxResult};
use vstd::prelude::*;

verus! {

pub struct AuthSwitchResponse {
    pub payload_length: u32,
    pub packet_number: u8,
    pub data: Option<String>,
}

/// Reads the response: the three-byte payload length, the sequence number,
/// and, when bytes remain, a NUL-terminated string of data.
pub fn parse_auth_switch_response(buffer: &[u8]) -> (res: ImmuxResult<AuthSwitchResponse>)
    ensures
        buffer@.len() < 3 ==> res matches Err(
            ImmuxError::Deserialization(DeserializationError::InsufficientDataWidthU32),
        ),
        buffer@.len() == 3 ==> res matches Err(
            ImmuxError::Deserialization(DeserializationError::InsufficientDataWidthU8),
        ),
        buffer@.len() >= 4 && (buffer@.len() == 4 || cstring_at(buffer@.skip(4)) is Some) ==> (
        res matches Ok(r) && r.payload_length == le_u24_value(buffer@) && r.packet_number
            == buffer@[3] && (buffer@.len() == 4 ==> r.data is None) && (buffer@.len() > 4 ==> (
        r.data matches Some(d) && cstring_at(buffer@.skip(4)) matches Some((s, _)) && d@ == s))),
        buffer@.len() > 4 && cstring_at(buffer@.skip(4)) is None ==> res matches Err(
            ImmuxError::MySQLParser(MySQLParserError::NoZeroTrailingInCstringBuffer),
        ),
{
    let mut index: usize = 0;
    let (payload_length, offset) = parse_u32_with_length_3(buffer)?;
    index = index + offset;
    let (packet_number, offset) = parse_u8(
        &buffer[index..buffer.len()],
        ImmuxError::Deserialization(DeserializationError::InsufficientDataWidthU8),
    )?;
    index = index + offset;

    let mut data = None;
    if index != buffer.len() {
        let rest = &buffer[index..buffer.len()];
        assert(rest@ =~= buffer@.skip(4));
        let (data_val, _offset) = parse_cstring(
            rest,
            ImmuxError::MySQLParser(MySQLParserError::NoZeroTrailingInCstringBuffer),
        )?;
        data = Some(data_val);
    }
    let auth_switch_response = AuthSwitchResponse { payload_length, packet_number, data };
    Ok(auth_switch_response)
}

} // verus!
