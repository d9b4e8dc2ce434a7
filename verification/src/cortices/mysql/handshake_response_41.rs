//! The client's login request, Protocol::HandshakeResponse41.
//! @see https://dev.mysql.com/doc/internals/en/connection-phase-packets.html#packet-Protocol::HandshakeResponse41

use crate::cortices::mysql::capability_flags::{
    capability_flags_of, parse_capability_flags, CapabilityFlags,
};
use crate::cortices::mysql::character_set::{character_set_of, parse_character_set, CharacterSet};
use crate::cortices::mysql::error::{MySQLParserError, MySQLSerializeError};
use crate::cortices::mysql::utils::{
    le_u24_value, length_encoded_integer_at, parse_length_encoded_integer,
    parse_string_with_fixed_length, parse_u32_with_length_3,
};
use crate::cortices::utils::{
    cstring_at, parse_cstring, parse_u32, parse_u8, DeserializationError, ParseOutcome,
};
use crate::errors::{ImmuxError, ImmuxResult};
use crate::storage::kv_core::ImmuxDBCore;
use crate::utils::le_u32_value;
use vstd::prelude::*;
use vstd::utf8::{decode_utf8, encode_utf8, valid_utf8};

verus! {

/// The error a NUL-terminated field of a MySQL packet reports when it has no
/// terminator or is not UTF-8.
pub open spec fn mysql_cstring_error() -> ImmuxError {
    ImmuxError::MySQLParser(MySQLParserError::NoZeroTrailingInCstringBuffer)
}

/// The NUL-terminated string at byte `i` of `b`, and the position after it.
pub open spec fn cstring_field(b: Seq<u8>, i: int) -> ParseOutcome<(Seq<char>, int)> {
    match cstring_at(b.skip(i)) {
        Some((s, n)) => ParseOutcome::Parsed((s, i + n)),
        None => ParseOutcome::Failed(mysql_cstring_error()),
    }
}

/// The string of `len` bytes at byte `i` of `b`, and the position after it.
pub open spec fn fixed_string_field(b: Seq<u8>, i: int, len: int) -> ParseOutcome<(Seq<char>, int)> {
    if i + len > b.len() {
        ParseOutcome::OutOfBounds
    } else if valid_utf8(b.subrange(i, i + len)) {
        ParseOutcome::Parsed((decode_utf8(b.subrange(i, i + len)), i + len))
    } else {
        ParseOutcome::Failed(ImmuxError::MySQLParser(MySQLParserError::ParseStringError))
    }
}

/// A string whose byte length is a length-encoded integer, at byte `i` of `b`.
pub open spec fn length_encoded_string_field(b: Seq<u8>, i: int) -> ParseOutcome<(Seq<char>, int)> {
    match length_encoded_integer_at(b.skip(i)) {
        Err(e) => ParseOutcome::Failed(e),
        Ok((v, n)) => fixed_string_field(b, i + n, (v as usize) as int),
    }
}

/// The authentication response at byte `i` of `b`, in the form the flags
/// announce: length-encoded, a single byte after a length byte, or
/// NUL-terminated.
pub open spec fn auth_response_field(b: Seq<u8>, flags: CapabilityFlags, i: int) -> ParseOutcome<
    (Seq<char>, int),
> {
    if flags.client_plugin_auth_lenenc_client_data {
        length_encoded_string_field(b, i)
    } else if flags.client_secure_connection {
        fixed_string_field(b, i + 1, 1)
    } else {
        cstring_field(b, i)
    }
}

/// A NUL-terminated string at byte `i` of `b` when `present`, else nothing.
pub open spec fn optional_cstring_field(b: Seq<u8>, present: bool, i: int) -> ParseOutcome<
    (Option<Seq<char>>, int),
> {
    if present {
        match cstring_field(b, i) {
            ParseOutcome::Parsed((s, j)) => ParseOutcome::Parsed((Some(s), j)),
            ParseOutcome::Failed(e) => ParseOutcome::Failed(e),
            ParseOutcome::OutOfBounds => ParseOutcome::OutOfBounds,
        }
    } else {
        ParseOutcome::Parsed((None, i))
    }
}

/// A string outcome of the reader and the outcome the spec gives agree.
pub open spec fn string_outcome_agrees(
    res: ParseOutcome<(String, usize)>,
    spec: ParseOutcome<(Seq<char>, int)>,
) -> bool {
    match (res, spec) {
        (ParseOutcome::Parsed((s, n)), ParseOutcome::Parsed((t, m))) => s@ == t && n == m,
        (ParseOutcome::Failed(e), ParseOutcome::Failed(f)) => e == f,
        (ParseOutcome::OutOfBounds, ParseOutcome::OutOfBounds) => true,
        _ => false,
    }
}

/// An optional string outcome of the reader and the outcome the spec gives agree.
pub open spec fn optional_string_outcome_agrees(
    res: ParseOutcome<(Option<String>, usize)>,
    spec: ParseOutcome<(Option<Seq<char>>, int)>,
) -> bool {
    match (res, spec) {
        (ParseOutcome::Parsed((s, n)), ParseOutcome::Parsed((t, m))) => n == m && match (s, t) {
            (Some(a), Some(c)) => a@ == c,
            (None, None) => true,
            _ => false,
        },
        (ParseOutcome::Failed(e), ParseOutcome::Failed(f)) => e == f,
        (ParseOutcome::OutOfBounds, ParseOutcome::OutOfBounds) => true,
        _ => false,
    }
}

fn read_cstring_field(buffer: &[u8], i: usize) -> (res: ParseOutcome<(String, usize)>)
    requires
        i <= buffer@.len(),
    ensures
        string_outcome_agrees(res, cstring_field(buffer@, i as int)),
        res matches ParseOutcome::Parsed((_, j)) ==> i < j <= buffer@.len(),
{
    let rest = &buffer[i..buffer.len()];
    assert(rest@ =~= buffer@.skip(i as int));
    match parse_cstring(rest, ImmuxError::MySQLParser(MySQLParserError::NoZeroTrailingInCstringBuffer)) {
        Ok((s, n)) => {
            proof {
                let t = choose|t: int| crate::cortices::utils::is_first_zero(rest@, t);
                assert(crate::cortices::utils::is_first_zero(rest@, t));
            }
            ParseOutcome::Parsed((s, i + n))
        },
        Err(e) => ParseOutcome::Failed(e),
    }
}

fn read_fixed_string_field(buffer: &[u8], i: usize, len: usize) -> (res: ParseOutcome<
    (String, usize),
>)
    requires
        i <= buffer@.len(),
    ensures
        string_outcome_agrees(res, fixed_string_field(buffer@, i as int, len as int)),
        res matches ParseOutcome::Parsed((_, j)) ==> i <= j <= buffer@.len() && j == i + len,
{
    if len > buffer.len() - i {
        return ParseOutcome::OutOfBounds;
    }
    let rest = &buffer[i..buffer.len()];
    assert(rest@.take(len as int) =~= buffer@.subrange(i as int, i + len));
    match parse_string_with_fixed_length(rest, len) {
        Ok((s, n)) => ParseOutcome::Parsed((s, i + n)),
        Err(e) => ParseOutcome::Failed(e),
    }
}

fn read_length_encoded_string_field(buffer: &[u8], i: usize) -> (res: ParseOutcome<
    (String, usize),
>)
    requires
        i <= buffer@.len(),
    ensures
        string_outcome_agrees(res, length_encoded_string_field(buffer@, i as int)),
        res matches ParseOutcome::Parsed((_, j)) ==> i < j <= buffer@.len(),
{
    let rest = &buffer[i..buffer.len()];
    assert(rest@ =~= buffer@.skip(i as int));
    match parse_length_encoded_integer(rest) {
        Err(e) => ParseOutcome::Failed(e),
        Ok((len, n)) => read_fixed_string_field(buffer, i + n, len),
    }
}

fn read_auth_response_field(buffer: &[u8], flags: &CapabilityFlags, i: usize) -> (res: ParseOutcome<
    (String, usize),
>)
    requires
        i <= buffer@.len(),
    ensures
        string_outcome_agrees(res, auth_response_field(buffer@, *flags, i as int)),
        res matches ParseOutcome::Parsed((_, j)) ==> i < j <= buffer@.len(),
{
    if flags.client_plugin_auth_lenenc_client_data {
        read_length_encoded_string_field(buffer, i)
    } else if flags.client_secure_connection {
        if i == buffer.len() {
            return ParseOutcome::OutOfBounds;
        }
        read_fixed_string_field(buffer, i + 1, 1)
    } else {
        read_cstring_field(buffer, i)
    }
}

fn read_optional_cstring_field(buffer: &[u8], present: bool, i: usize) -> (res: ParseOutcome<
    (Option<String>, usize),
>)
    requires
        i <= buffer@.len(),
    ensures
        optional_string_outcome_agrees(res, optional_cstring_field(buffer@, present, i as int)),
        res matches ParseOutcome::Parsed((_, j)) ==> i <= j <= buffer@.len(),
{
    if present {
        match read_cstring_field(buffer, i) {
            ParseOutcome::Parsed((s, j)) => ParseOutcome::Parsed((Some(s), j)),
            ParseOutcome::Failed(e) => ParseOutcome::Failed(e),
            ParseOutcome::OutOfBounds => ParseOutcome::OutOfBounds,
        }
    } else {
        ParseOutcome::Parsed((None, i))
    }
}

/// Connection attributes as (key, value) pairs, keys distinct.
pub open spec fn attributes_view(attrs: Seq<(String, String)>) -> Seq<(Seq<char>, Seq<char>)> {
    attrs.map_values(|p: (String, String)| (p.0@, p.1@))
}

/// No key occurs twice among the attributes.
pub open spec fn attribute_keys_distinct(attrs: Seq<(Seq<char>, Seq<char>)>) -> bool {
    forall|a: int, c: int| 0 <= a < attrs.len() && 0 <= c < attrs.len() && a != c ==> attrs[a].0 != attrs[c].0
}

/// The attributes after setting `key` to `value`: the value of an existing
/// key is replaced in place, a new key is added at the end.
pub open spec fn attribute_insert(attrs: Seq<(Seq<char>, Seq<char>)>, key: Seq<char>, value: Seq<char>) -> Seq<
    (Seq<char>, Seq<char>),
> {
    if exists|j: int| 0 <= j < attrs.len() && attrs[j].0 == key {
        attrs.update(choose|j: int| 0 <= j < attrs.len() && attrs[j].0 == key, (key, value))
    } else {
        attrs.push((key, value))
    }
}

fn insert_attribute(attrs: &mut Vec<(String, String)>, key: String, value: String)
    requires
        attribute_keys_distinct(attributes_view(old(attrs)@)),
    ensures
        attributes_view(final(attrs)@) == attribute_insert(attributes_view(old(attrs)@), key@, value@),
        attribute_keys_distinct(attributes_view(final(attrs)@)),
{
    let ghost before = attributes_view(attrs@);
    let mut j: usize = 0;
    while j < attrs.len()
        invariant
            attrs@ == old(attrs)@,
            before == attributes_view(attrs@),
            attribute_keys_distinct(before),
            j <= attrs@.len(),
            forall|k: int| 0 <= k < j ==> before[k].0 != key@,
        decreases attrs@.len() - j,
    {
        if attrs[j].0 == key {
            proof {
                assert(before[j as int].0 == key@);
                let c = choose|c: int| 0 <= c < before.len() && before[c].0 == key@;
                assert(c == j);
            }
            attrs.set(j, (key, value));
            assert(attributes_view(attrs@) =~= before.update(j as int, (key@, value@)));
            return;
        }
        j = j + 1;
    }
    attrs.push((key, value));
    assert(attributes_view(attrs@) =~= before.push((key@, value@)));
}

/// The connection attributes from byte `i` of `b` on, read until the bytes
/// they span, counted from where they started at `current`, reach `total`.
pub open spec fn attributes_field(
    b: Seq<u8>,
    i: int,
    total: int,
    current: int,
    acc: Seq<(Seq<char>, Seq<char>)>,
) -> ParseOutcome<(Seq<(Seq<char>, Seq<char>)>, int)>
    decreases b.len() - i,
{
    if current == total {
        ParseOutcome::Parsed((acc, i))
    } else if !(0 <= i <= b.len()) {
        ParseOutcome::OutOfBounds
    } else {
        match length_encoded_integer_at(b.skip(i)) {
            Err(e) => ParseOutcome::Failed(e),
            Ok((key_length, o1)) => match fixed_string_field(b, i + o1, (key_length as usize) as int) {
                ParseOutcome::Failed(e) => ParseOutcome::Failed(e),
                ParseOutcome::OutOfBounds => ParseOutcome::OutOfBounds,
                ParseOutcome::Parsed((key, i2)) => match length_encoded_integer_at(b.skip(i2)) {
                    Err(e) => ParseOutcome::Failed(e),
                    Ok((value_length, o2)) => match fixed_string_field(
                        b,
                        i2 + o2,
                        (value_length as usize) as int,
                    ) {
                        ParseOutcome::Failed(e) => ParseOutcome::Failed(e),
                        ParseOutcome::OutOfBounds => ParseOutcome::OutOfBounds,
                        ParseOutcome::Parsed((value, i3)) => if i3 <= i || i3 > b.len() {
                            ParseOutcome::OutOfBounds
                        } else {
                            attributes_field(
                                b,
                                i3,
                                total,
                                current + (i3 - i),
                                attribute_insert(acc, key, value),
                            )
                        },
                    },
                },
            },
        }
    }
}

fn read_attributes(buffer: &[u8], start: usize, total: usize) -> (res: ParseOutcome<
    (Vec<(String, String)>, usize),
>)
    requires
        start <= buffer@.len(),
    ensures
        match (res, attributes_field(buffer@, start as int, total as int, 0, Seq::empty())) {
            (ParseOutcome::Parsed((attrs, j)), ParseOutcome::Parsed((t, m))) => attributes_view(
                attrs@,
            ) == t && j == m && attribute_keys_distinct(t),
            (ParseOutcome::Failed(e), ParseOutcome::Failed(f)) => e == f,
            (ParseOutcome::OutOfBounds, ParseOutcome::OutOfBounds) => true,
            _ => false,
        },
{
    let ghost b = buffer@;
    let mut attrs: Vec<(String, String)> = Vec::new();
    let mut index = start;
    let mut current_length: usize = 0;
    assert(attributes_view(attrs@) =~= Seq::<(Seq<char>, Seq<char>)>::empty());
    loop
        invariant
            b == buffer@,
            start <= index <= b.len(),
            current_length == index - start,
            attribute_keys_distinct(attributes_view(attrs@)),
            attributes_field(b, start as int, total as int, 0, Seq::empty()) == attributes_field(
                b,
                index as int,
                total as int,
                current_length as int,
                attributes_view(attrs@),
            ),
        decreases b.len() - index,
    {
        if current_length == total {
            return ParseOutcome::Parsed((attrs, index));
        }
        let rest = &buffer[index..buffer.len()];
        assert(rest@ =~= b.skip(index as int));
        let (key_length, offset) = match parse_length_encoded_integer(rest) {
            Ok(v) => v,
            Err(e) => {
                return ParseOutcome::Failed(e);
            },
        };
        let (key, after_key) = match read_fixed_string_field(buffer, index + offset, key_length) {
            ParseOutcome::Parsed(v) => v,
            ParseOutcome::Failed(e) => {
                return ParseOutcome::Failed(e);
            },
            ParseOutcome::OutOfBounds => {
                return ParseOutcome::OutOfBounds;
            },
        };
        let rest = &buffer[after_key..buffer.len()];
        assert(rest@ =~= b.skip(after_key as int));
        let (value_length, offset) = match parse_length_encoded_integer(rest) {
            Ok(v) => v,
            Err(e) => {
                return ParseOutcome::Failed(e);
            },
        };
        let (value, after_value) = match read_fixed_string_field(
            buffer,
            after_key + offset,
            value_length,
        ) {
            ParseOutcome::Parsed(v) => v,
            ParseOutcome::Failed(e) => {
                return ParseOutcome::Failed(e);
            },
            ParseOutcome::OutOfBounds => {
                return ParseOutcome::OutOfBounds;
            },
        };
        insert_attribute(&mut attrs, key, value);
        current_length = current_length + (after_value - index);
        index = after_value;
    }
}

pub struct HandshakeResponse {
    pub payload_length: u32,
    pub packet_number: u8,
    pub capability_flags: CapabilityFlags,
    pub max_packet_size: u32,
    pub character_set: CharacterSet,
    pub user_name: String,
    pub auth_response: Option<String>,
    pub database: Option<String>,
    pub auth_plugin_name: Option<String>,
    /// The connection attributes, keys distinct; `None` when there are none.
    pub attribute: Option<Vec<(String, String)>>,
}

/// A handshake response with its strings taken as characters.
pub struct HandshakeResponseModel {
    pub payload_length: u32,
    pub packet_number: u8,
    pub capability_flags: CapabilityFlags,
    pub max_packet_size: u32,
    pub character_set: CharacterSet,
    pub user_name: Seq<char>,
    pub auth_response: Option<Seq<char>>,
    pub database: Option<Seq<char>>,
    pub auth_plugin_name: Option<Seq<char>>,
    pub attribute: Option<Seq<(Seq<char>, Seq<char>)>>,
}

pub open spec fn optional_string_view(s: Option<String>) -> Option<Seq<char>> {
    match s {
        Some(v) => Some(v@),
        None => None,
    }
}

pub open spec fn handshake_response_model(r: HandshakeResponse) -> HandshakeResponseModel {
    HandshakeResponseModel {
        payload_length: r.payload_length,
        packet_number: r.packet_number,
        capability_flags: r.capability_flags,
        max_packet_size: r.max_packet_size,
        character_set: r.character_set,
        user_name: r.user_name@,
        auth_response: optional_string_view(r.auth_response),
        database: optional_string_view(r.database),
        auth_plugin_name: optional_string_view(r.auth_plugin_name),
        attribute: match r.attribute {
            Some(v) => Some(attributes_view(v@)),
            None => None,
        },
    }
}

/// The connection attributes at byte `i` of `b` when `present`: a
/// length-encoded byte count, then that many bytes of length-encoded key and
/// value strings, which must end the packet. No attributes read as `None`.
pub open spec fn attributes_part(b: Seq<u8>, present: bool, i: int) -> ParseOutcome<
    Option<Seq<(Seq<char>, Seq<char>)>>,
> {
    if !present {
        ParseOutcome::Parsed(None)
    } else {
        match length_encoded_integer_at(b.skip(i)) {
            Err(e) => ParseOutcome::Failed(e),
            Ok((total, o)) => match attributes_field(b, i + o, (total as usize) as int, 0, Seq::empty()) {
                ParseOutcome::Failed(e) => ParseOutcome::Failed(e),
                ParseOutcome::OutOfBounds => ParseOutcome::OutOfBounds,
                ParseOutcome::Parsed((attrs, j)) => if j != b.len() {
                    ParseOutcome::Failed(ImmuxError::MySQLParser(MySQLParserError::InputBufferError))
                } else if attrs.len() != 0 {
                    ParseOutcome::Parsed(Some(attrs))
                } else {
                    ParseOutcome::Parsed(None)
                },
            },
        }
    }
}

/// The handshake response in `b`: the three-byte payload length, the
/// sequence number, the capability flags, the maximum packet size, the
/// character set, 23 reserved bytes, the user name, the authentication
/// response, and the database, plugin name and attributes when the flags
/// announce them.
pub open spec fn handshake_response_at(b: Seq<u8>) -> ParseOutcome<HandshakeResponseModel> {
    if b.len() < 3 {
        ParseOutcome::Failed(ImmuxError::Deserialization(DeserializationError::InsufficientDataWidthU32))
    } else if b.len() < 4 {
        ParseOutcome::Failed(ImmuxError::Deserialization(DeserializationError::InsufficientDataWidthU8))
    } else if b.len() < 12 {
        ParseOutcome::Failed(ImmuxError::Deserialization(DeserializationError::InsufficientDataWidthU32))
    } else if b.len() < 13 {
        ParseOutcome::Failed(ImmuxError::Deserialization(DeserializationError::InsufficientDataWidthU8))
    } else {
        match character_set_of(b[12]) {
            None => ParseOutcome::Failed(
                ImmuxError::MySQLParser(MySQLParserError::UnknownCharacterSetValue(b[12])),
            ),
            Some(character_set) => if b.len() < 36 {
                ParseOutcome::OutOfBounds
            } else {
                let flags = capability_flags_of(le_u32_value(b.skip(4)) as u32);
                match cstring_field(b, 36) {
                    ParseOutcome::Failed(e) => ParseOutcome::Failed(e),
                    ParseOutcome::OutOfBounds => ParseOutcome::OutOfBounds,
                    ParseOutcome::Parsed((user_name, i1)) => match auth_response_field(b, flags, i1) {
                        ParseOutcome::Failed(e) => ParseOutcome::Failed(e),
                        ParseOutcome::OutOfBounds => ParseOutcome::OutOfBounds,
                        ParseOutcome::Parsed((auth_response, i2)) => match optional_cstring_field(
                            b,
                            flags.client_connect_with_db,
                            i2,
                        ) {
                            ParseOutcome::Failed(e) => ParseOutcome::Failed(e),
                            ParseOutcome::OutOfBounds => ParseOutcome::OutOfBounds,
                            ParseOutcome::Parsed((database, i3)) => match optional_cstring_field(
                                b,
                                flags.client_plugin_auth,
                                i3,
                            ) {
                                ParseOutcome::Failed(e) => ParseOutcome::Failed(e),
                                ParseOutcome::OutOfBounds => ParseOutcome::OutOfBounds,
                                ParseOutcome::Parsed((auth_plugin_name, i4)) => match attributes_part(
                                    b,
                                    flags.client_connect_attrs,
                                    i4,
                                ) {
                                    ParseOutcome::Failed(e) => ParseOutcome::Failed(e),
                                    ParseOutcome::OutOfBounds => ParseOutcome::OutOfBounds,
                                    ParseOutcome::Parsed(attribute) => ParseOutcome::Parsed(
                                        HandshakeResponseModel {
                                            payload_length: le_u24_value(b) as u32,
                                            packet_number: b[3],
                                            capability_flags: flags,
                                            max_packet_size: le_u32_value(b.skip(8)) as u32,
                                            character_set,
                                            user_name,
                                            auth_response: Some(auth_response),
                                            database,
                                            auth_plugin_name,
                                            attribute,
                                        },
                                    ),
                                },
                            },
                        },
                    },
                }
            },
        }
    }
}

/// Where a handshake response is read, its user name is the NUL-terminated
/// string at byte 36; the authentication response follows it; and when the
/// client's capability flags carry `client_connect_with_db`, the database
/// is the NUL-terminated string right after the authentication response,
/// while without that flag there is no database.
pub proof fn lemma_handshake_database_after_auth_response(b: Seq<u8>)
    ensures
        handshake_response_at(b) matches ParseOutcome::Parsed(r) ==> {
            &&& b.len() >= 36
            &&& cstring_at(b.skip(36)) matches Some((user, n1))
            &&& r.user_name == user
            &&& auth_response_field(b, r.capability_flags, 36 + n1) matches ParseOutcome::Parsed(
                (auth, i2),
            )
            &&& r.auth_response == Some(auth)
            &&& r.capability_flags.client_connect_with_db ==> (cstring_at(b.skip(i2)) matches Some(
                (db, _),
            ) && r.database == Some(db))
            &&& !r.capability_flags.client_connect_with_db ==> r.database is None
        },
{
}

/// Reading `b` as a handshake response stays within the buffer.
pub open spec fn handshake_response_in_bounds(b: Seq<u8>) -> bool {
    !(handshake_response_at(b) is OutOfBounds)
}

fn read_attributes_part(buffer: &[u8], present: bool, i: usize) -> (res: ParseOutcome<
    Option<Vec<(String, String)>>,
>)
    requires
        i <= buffer@.len(),
    ensures
        match (res, attributes_part(buffer@, present, i as int)) {
            (ParseOutcome::Parsed(a), ParseOutcome::Parsed(t)) => match (a, t) {
                (Some(v), Some(w)) => attributes_view(v@) == w,
                (None, None) => true,
                _ => false,
            },
            (ParseOutcome::Failed(e), ParseOutcome::Failed(f)) => e == f,
            (ParseOutcome::OutOfBounds, ParseOutcome::OutOfBounds) => true,
            _ => false,
        },
{
    if !present {
        return ParseOutcome::Parsed(None);
    }
    let rest = &buffer[i..buffer.len()];
    assert(rest@ =~= buffer@.skip(i as int));
    let (hash_map_length, offset) = match parse_length_encoded_integer(rest) {
        Ok(v) => v,
        Err(e) => {
            return ParseOutcome::Failed(e);
        },
    };
    match read_attributes(buffer, i + offset, hash_map_length) {
        ParseOutcome::Failed(e) => ParseOutcome::Failed(e),
        ParseOutcome::OutOfBounds => ParseOutcome::OutOfBounds,
        ParseOutcome::Parsed((attrs, index)) => {
            if index != buffer.len() {
                return ParseOutcome::Failed(ImmuxError::MySQLParser(MySQLParserError::InputBufferError));
            }
            if attrs.len() != 0 {
                ParseOutcome::Parsed(Some(attrs))
            } else {
                ParseOutcome::Parsed(None)
            }
        },
    }
}

#[verifier::rlimit(40)]
fn read_handshake_response(buffer: &[u8]) -> (res: ParseOutcome<HandshakeResponse>)
    ensures
        match (res, handshake_response_at(buffer@)) {
            (ParseOutcome::Parsed(r), ParseOutcome::Parsed(m)) => handshake_response_model(r) == m,
            (ParseOutcome::Failed(e), ParseOutcome::Failed(f)) => e == f,
            (ParseOutcome::OutOfBounds, ParseOutcome::OutOfBounds) => true,
            _ => false,
        },
{
    let mut index: usize = 0;
    let (payload_length, offset) = match parse_u32_with_length_3(buffer) {
        Ok(v) => v,
        Err(e) => {
            return ParseOutcome::Failed(e);
        },
    };
    index = index + offset;
    let (packet_number, offset) = match parse_u8(
        &buffer[index..buffer.len()],
        ImmuxError::Deserialization(DeserializationError::InsufficientDataWidthU8),
    ) {
        Ok(v) => v,
        Err(e) => {
            return ParseOutcome::Failed(e);
        },
    };
    index = index + offset;
    let rest = &buffer[index..buffer.len()];
    assert(rest@ =~= buffer@.skip(4));
    let (capability_flags, offset) = match parse_capability_flags(rest) {
        Ok(v) => v,
        Err(e) => {
            return ParseOutcome::Failed(e);
        },
    };
    index = index + offset;
    let rest = &buffer[index..buffer.len()];
    assert(rest@ =~= buffer@.skip(8));
    let (max_packet_size, offset) = match parse_u32(
        rest,
        ImmuxError::Deserialization(DeserializationError::InsufficientDataWidthU32),
    ) {
        Ok(v) => v,
        Err(e) => {
            return ParseOutcome::Failed(e);
        },
    };
    index = index + offset;
    let rest = &buffer[index..buffer.len()];
    assert(rest@ =~= buffer@.skip(12));
    let (character_set, offset) = match parse_character_set(rest) {
        Ok(v) => v,
        Err(e) => {
            return ParseOutcome::Failed(e);
        },
    };
    index = index + offset;
    let reserved_bytes_length: usize = 23;
    if buffer.len() - index < reserved_bytes_length {
        return ParseOutcome::OutOfBounds;
    }
    index = index + reserved_bytes_length;
    let (user_name, index) = match read_cstring_field(buffer, index) {
        ParseOutcome::Parsed(v) => v,
        ParseOutcome::Failed(e) => {
            return ParseOutcome::Failed(e);
        },
        ParseOutcome::OutOfBounds => {
            return ParseOutcome::OutOfBounds;
        },
    };
    let (auth_response, index) = match read_auth_response_field(buffer, &capability_flags, index) {
        ParseOutcome::Parsed(v) => v,
        ParseOutcome::Failed(e) => {
            return ParseOutcome::Failed(e);
        },
        ParseOutcome::OutOfBounds => {
            return ParseOutcome::OutOfBounds;
        },
    };
    let (database, index) = match read_optional_cstring_field(
        buffer,
        capability_flags.client_connect_with_db,
        index,
    ) {
        ParseOutcome::Parsed(v) => v,
        ParseOutcome::Failed(e) => {
            return ParseOutcome::Failed(e);
        },
        ParseOutcome::OutOfBounds => {
            return ParseOutcome::OutOfBounds;
        },
    };
    let (auth_plugin_name, index) = match read_optional_cstring_field(
        buffer,
        capability_flags.client_plugin_auth,
        index,
    ) {
        ParseOutcome::Parsed(v) => v,
        ParseOutcome::Failed(e) => {
            return ParseOutcome::Failed(e);
        },
        ParseOutcome::OutOfBounds => {
            return ParseOutcome::OutOfBounds;
        },
    };
    let attribute = match read_attributes_part(buffer, capability_flags.client_connect_attrs, index) {
        ParseOutcome::Parsed(v) => v,
        ParseOutcome::Failed(e) => {
            return ParseOutcome::Failed(e);
        },
        ParseOutcome::OutOfBounds => {
            return ParseOutcome::OutOfBounds;
        },
    };
    ParseOutcome::Parsed(
        HandshakeResponse {
            payload_length,
            packet_number,
            capability_flags,
            max_packet_size,
            character_set,
            user_name,
            auth_response: Some(auth_response),
            database,
            auth_plugin_name,
            attribute,
        },
    )
}

/// Whether reading `buffer` as a handshake response stays within the buffer.
pub fn handshake_response_is_in_bounds(buffer: &[u8]) -> (res: bool)
    ensures
        res == handshake_response_in_bounds(buffer@),
{
    match read_handshake_response(buffer) {
        ParseOutcome::OutOfBounds => false,
        _ => true,
    }
}

/// Reads the client's handshake response. The caller owes a buffer that the
/// reading does not run past.
pub fn parse_handshake_response(buffer: &[u8]) -> (res: ImmuxResult<HandshakeResponse>)
    requires
        handshake_response_in_bounds(buffer@),
    ensures
        match handshake_response_at(buffer@) {
            ParseOutcome::Parsed(m) => res matches Ok(r) && handshake_response_model(r) == m,
            ParseOutcome::Failed(e) => res matches Err(f) && f == e,
            ParseOutcome::OutOfBounds => false,
        },
        res matches Ok(r) ==> (r.capability_flags.client_connect_with_db <==> r.database is Some),
{
    proof {
        lemma_handshake_database_after_auth_response(buffer@);
    }
    match read_handshake_response(buffer) {
        ParseOutcome::Parsed(r) => Ok(r),
        ParseOutcome::Failed(e) => Err(e),
        ParseOutcome::OutOfBounds => {
            assert(false);
            Err(ImmuxError::MySQLParser(MySQLParserError::InputBufferError))
        },
    }
}

pub const MYSQL_HANDSHAKE_RESPONSE_KEY: &'static str = "_MYSQL_HANDSHAKE_RESPONSE";

/// The key the client's handshake response is kept under in the core.
pub open spec fn handshake_response_key() -> Seq<u8> {
    encode_utf8(MYSQL_HANDSHAKE_RESPONSE_KEY@)
}

/// Keeps the client's handshake response `buffer` in the core.
pub fn save_handshake_response(buffer: &[u8], core: &mut ImmuxDBCore) -> (res: ImmuxResult<()>)
    ensures
        res is Ok,
        final(core)@ == old(core)@.insert(handshake_response_key(), buffer@),
{
    core.set(MYSQL_HANDSHAKE_RESPONSE_KEY.as_bytes(), buffer);
    Ok(())
}

/// What loading the handshake response from a core holding `m` gives.
pub open spec fn stored_handshake_response(m: Map<Seq<u8>, Seq<u8>>) -> ParseOutcome<
    HandshakeResponseModel,
> {
    if !m.contains_key(handshake_response_key()) {
        ParseOutcome::Failed(ImmuxError::MySQLSerializer(MySQLSerializeError::CannotReadClientStatus))
    } else {
        handshake_response_at(m[handshake_response_key()])
    }
}

/// Reading the stored handshake response stays within the stored bytes.
pub open spec fn stored_handshake_response_in_bounds(m: Map<Seq<u8>, Seq<u8>>) -> bool {
    !(stored_handshake_response(m) is OutOfBounds)
}

/// Reads the client's handshake response kept in the core. The caller owes a
/// stored response that the reading does not run past.
pub fn load_handshake_response(core: &ImmuxDBCore) -> (res: ImmuxResult<HandshakeResponse>)
    requires
        stored_handshake_response_in_bounds(core@),
    ensures
        match stored_handshake_response(core@) {
            ParseOutcome::Parsed(m) => res matches Ok(r) && handshake_response_model(r) == m,
            ParseOutcome::Failed(e) => res matches Err(f) && f == e,
            ParseOutcome::OutOfBounds => false,
        },
{
    match core.get(MYSQL_HANDSHAKE_RESPONSE_KEY.as_bytes()) {
        None => Err(ImmuxError::MySQLSerializer(MySQLSerializeError::CannotReadClientStatus)),
        Some(target) => parse_handshake_response(target.as_slice()),
    }
}

/// Loading the handshake response after saving `buffer` reads `buffer`,
/// whatever else the core holds: for every buffer, the outcome is that of
/// parsing `buffer` itself, the same response, the same error where parsing
/// fails, and running past the bytes exactly where parsing does.
pub proof fn lemma_load_after_save_handshake_response(m: Map<Seq<u8>, Seq<u8>>, buffer: Seq<u8>)
    ensures
        stored_handshake_response(m.insert(handshake_response_key(), buffer))
            == handshake_response_at(buffer),
{
}

} // verus!
