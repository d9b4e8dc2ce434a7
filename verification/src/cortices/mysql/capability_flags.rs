//! @see https://dev.mysql.com/doc/internals/en/capability-flags.html#packet-Protocol::CapabilityFlags

use crate::cortices::utils::{parse_u32, DeserializationError};
use crate::errors::{ImmuxError, ImmuxResult};
use crate::utils::{
    bit_u32, get_bit_u32, le_u32_value, lemma_u32_bytes_roundtrip, lemma_u32_eq_by_bits,
    lemma_u32_low_bits, lemma_with_bit_u32, lemma_with_bit_u32_clears_above, lemma_zero_u32_bits,
    set_bit_u32, u32_le_bytes, with_bit_u32,
};
use vstd::prelude::*;

verus! {

/// The capability flags a MySQL client or server announces; field `k`, in
/// declaration order, is bit `k` of the flag word.
#[derive(Debug, Clone, Copy, PartialEq, Eq, Structural)]
pub struct CapabilityFlags {
    pub client_long_password: bool,
    pub client_found_rows: bool,
    pub client_long_flag: bool,
    pub client_connect_with_db: bool,
    pub client_no_schema: bool,
    pub client_compress: bool,
    pub client_odbc: bool,
    pub client_local_files: bool,
    pub client_ignore_space: bool,
    pub client_protocol_41: bool,
    pub client_interactive: bool,
    pub client_ssl: bool,
    pub client_ignore_sigpipe: bool,
    pub client_transactions: bool,
    pub client_reserved: bool,
    pub client_secure_connection: bool,
    pub client_multi_statements: bool,
    pub client_multi_results: bool,
    pub client_ps_multi_results: bool,
    pub client_plugin_auth: bool,
    pub client_connect_attrs: bool,
    pub client_plugin_auth_lenenc_client_data: bool,
    pub client_can_handle_expired_passwords: bool,
    pub client_session_track: bool,
    pub client_deprecate_eof: bool,
}

/// The flags that the word `x` carries in its lowest 25 bits.
pub open spec fn capability_flags_of(x: u32) -> CapabilityFlags {
    CapabilityFlags {
        client_long_password: bit_u32(x, 0),
        client_found_rows: bit_u32(x, 1),
        client_long_flag: bit_u32(x, 2),
        client_connect_with_db: bit_u32(x, 3),
        client_no_schema: bit_u32(x, 4),
        client_compress: bit_u32(x, 5),
        client_odbc: bit_u32(x, 6),
        client_local_files: bit_u32(x, 7),
        client_ignore_space: bit_u32(x, 8),
        client_protocol_41: bit_u32(x, 9),
        client_interactive: bit_u32(x, 10),
        client_ssl: bit_u32(x, 11),
        client_ignore_sigpipe: bit_u32(x, 12),
        client_transactions: bit_u32(x, 13),
        client_reserved: bit_u32(x, 14),
        client_secure_connection: bit_u32(x, 15),
        client_multi_statements: bit_u32(x, 16),
        client_multi_results: bit_u32(x, 17),
        client_ps_multi_results: bit_u32(x, 18),
        client_plugin_auth: bit_u32(x, 19),
        client_connect_attrs: bit_u32(x, 20),
        client_plugin_auth_lenenc_client_data: bit_u32(x, 21),
        client_can_handle_expired_passwords: bit_u32(x, 22),
        client_session_track: bit_u32(x, 23),
        client_deprecate_eof: bit_u32(x, 24),
    }
}

/// The flags agree with the word `x` by the protocol's masks
/// (Protocol::CapabilityFlags): CLIENT_LONG_PASSWORD 0x1, CLIENT_FOUND_ROWS
/// 0x2, CLIENT_LONG_FLAG 0x4, CLIENT_CONNECT_WITH_DB 0x8, and so on, each
/// flag the next bit up, to CLIENT_DEPRECATE_EOF 0x1000000.
pub open spec fn capability_masks_hold(f: CapabilityFlags, x: u32) -> bool {
    &&& f.client_long_password == (x & 0x1u32 != 0)
    &&& f.client_found_rows == (x & 0x2u32 != 0)
    &&& f.client_long_flag == (x & 0x4u32 != 0)
    &&& f.client_connect_with_db == (x & 0x8u32 != 0)
    &&& f.client_no_schema == (x & 0x10u32 != 0)
    &&& f.client_compress == (x & 0x20u32 != 0)
    &&& f.client_odbc == (x & 0x40u32 != 0)
    &&& f.client_local_files == (x & 0x80u32 != 0)
    &&& f.client_ignore_space == (x & 0x100u32 != 0)
    &&& f.client_protocol_41 == (x & 0x200u32 != 0)
    &&& f.client_interactive == (x & 0x400u32 != 0)
    &&& f.client_ssl == (x & 0x800u32 != 0)
    &&& f.client_ignore_sigpipe == (x & 0x1000u32 != 0)
    &&& f.client_transactions == (x & 0x2000u32 != 0)
    &&& f.client_reserved == (x & 0x4000u32 != 0)
    &&& f.client_secure_connection == (x & 0x8000u32 != 0)
    &&& f.client_multi_statements == (x & 0x10000u32 != 0)
    &&& f.client_multi_results == (x & 0x20000u32 != 0)
    &&& f.client_ps_multi_results == (x & 0x40000u32 != 0)
    &&& f.client_plugin_auth == (x & 0x80000u32 != 0)
    &&& f.client_connect_attrs == (x & 0x100000u32 != 0)
    &&& f.client_plugin_auth_lenenc_client_data == (x & 0x200000u32 != 0)
    &&& f.client_can_handle_expired_passwords == (x & 0x400000u32 != 0)
    &&& f.client_session_track == (x & 0x800000u32 != 0)
    &&& f.client_deprecate_eof == (x & 0x1000000u32 != 0)
}

/// Each capability flag of a word is the word's bit under that flag's
/// protocol mask, for every word.
pub proof fn lemma_capability_flag_masks(x: u32)
    ensures
        capability_masks_hold(capability_flags_of(x), x),
{
    reveal(bit_u32);
    assert((((x >> 0u32) & 1u32 == 1u32) == (x & 0x1u32 != 0)) && (((x >> 1u32) & 1u32 == 1u32) == (x & 0x2u32 != 0)) && (((x >> 2u32) & 1u32 == 1u32) == (x & 0x4u32 != 0)) && (((x >> 3u32) & 1u32 == 1u32) == (x & 0x8u32 != 0)) && (((x >> 4u32) & 1u32 == 1u32) == (x & 0x10u32 != 0)) && (((x >> 5u32) & 1u32 == 1u32) == (x & 0x20u32 != 0)) && (((x >> 6u32) & 1u32 == 1u32) == (x & 0x40u32 != 0)) && (((x >> 7u32) & 1u32 == 1u32) == (x & 0x80u32 != 0)) && (((x >> 8u32) & 1u32 == 1u32) == (x & 0x100u32 != 0)) && (((x >> 9u32) & 1u32 == 1u32) == (x & 0x200u32 != 0)) && (((x >> 10u32) & 1u32 == 1u32) == (x & 0x400u32 != 0)) && (((x >> 11u32) & 1u32 == 1u32) == (x & 0x800u32 != 0)) && (((x >> 12u32) & 1u32 == 1u32) == (x & 0x1000u32 != 0)) && (((x >> 13u32) & 1u32 == 1u32) == (x & 0x2000u32 != 0)) && (((x >> 14u32) & 1u32 == 1u32) == (x & 0x4000u32 != 0)) && (((x >> 15u32) & 1u32 == 1u32) == (x & 0x8000u32 != 0)) && (((x >> 16u32) & 1u32 == 1u32) == (x & 0x10000u32 != 0)) && (((x >> 17u32) & 1u32 == 1u32) == (x & 0x20000u32 != 0)) && (((x >> 18u32) & 1u32 == 1u32) == (x & 0x40000u32 != 0)) && (((x >> 19u32) & 1u32 == 1u32) == (x & 0x80000u32 != 0)) && (((x >> 20u32) & 1u32 == 1u32) == (x & 0x100000u32 != 0)) && (((x >> 21u32) & 1u32 == 1u32) == (x & 0x200000u32 != 0)) && (((x >> 22u32) & 1u32 == 1u32) == (x & 0x400000u32 != 0)) && (((x >> 23u32) & 1u32 == 1u32) == (x & 0x800000u32 != 0)) && (((x >> 24u32) & 1u32 == 1u32) == (x & 0x1000000u32 != 0))) by (bit_vector);
}

/// Reads the four-byte capability flag word at the front of `buffer`.
/// The flags of a capability flag word.
fn capability_flags_from_word(capability_flags_vec: u32) -> (res: CapabilityFlags)
    ensures
        res == capability_flags_of(capability_flags_vec),
{
    let client_long_password = get_bit_u32(capability_flags_vec, 0);
    let client_found_rows = get_bit_u32(capability_flags_vec, 1);
    let client_long_flag = get_bit_u32(capability_flags_vec, 2);
    let client_connect_with_db = get_bit_u32(capability_flags_vec, 3);
    let client_no_schema = get_bit_u32(capability_flags_vec, 4);
    let client_compress = get_bit_u32(capability_flags_vec, 5);
    let client_odbc = get_bit_u32(capability_flags_vec, 6);
    let client_local_files = get_bit_u32(capability_flags_vec, 7);
    let client_ignore_space = get_bit_u32(capability_flags_vec, 8);
    let client_protocol_41 = get_bit_u32(capability_flags_vec, 9);
    let client_interactive = get_bit_u32(capability_flags_vec, 10);
    let client_ssl = get_bit_u32(capability_flags_vec, 11);
    let client_ignore_sigpipe = get_bit_u32(capability_flags_vec, 12);
    let client_transactions = get_bit_u32(capability_flags_vec, 13);
    let client_reserved = get_bit_u32(capability_flags_vec, 14);
    let client_secure_connection = get_bit_u32(capability_flags_vec, 15);
    let client_multi_statements = get_bit_u32(capability_flags_vec, 16);
    let client_multi_results = get_bit_u32(capability_flags_vec, 17);
    let client_ps_multi_results = get_bit_u32(capability_flags_vec, 18);
    let client_plugin_auth = get_bit_u32(capability_flags_vec, 19);
    let client_connect_attrs = get_bit_u32(capability_flags_vec, 20);
    let client_plugin_auth_lenenc_client_data = get_bit_u32(capability_flags_vec, 21);
    let client_can_handle_expired_passwords = get_bit_u32(capability_flags_vec, 22);
    let client_session_track = get_bit_u32(capability_flags_vec, 23);
    let client_deprecate_eof = get_bit_u32(capability_flags_vec, 24);
    CapabilityFlags {
        client_long_password,
        client_found_rows,
        client_long_flag,
        client_connect_with_db,
        client_no_schema,
        client_compress,
        client_odbc,
        client_local_files,
        client_ignore_space,
        client_protocol_41,
        client_interactive,
        client_ssl,
        client_ignore_sigpipe,
        client_transactions,
        client_reserved,
        client_secure_connection,
        client_multi_statements,
        client_multi_results,
        client_ps_multi_results,
        client_plugin_auth,
        client_connect_attrs,
        client_plugin_auth_lenenc_client_data,
        client_can_handle_expired_passwords,
        client_session_track,
        client_deprecate_eof,
    }
}

/// Reads the four-byte capability flag word at the front of `buffer`.
pub fn parse_capability_flags(buffer: &[u8]) -> (res: ImmuxResult<(CapabilityFlags, usize)>)
    ensures
        buffer@.len() < 4 ==> res matches Err(
            ImmuxError::Deserialization(DeserializationError::InsufficientDataWidthU32),
        ),
        buffer@.len() >= 4 ==> res == Ok::<(CapabilityFlags, usize), ImmuxError>(
            (capability_flags_of(le_u32_value(buffer@) as u32), 4usize),
        ),
        buffer@.len() >= 4 ==> (res matches Ok((f, _)) && capability_masks_hold(
            f,
            le_u32_value(buffer@) as u32,
        )),
{
    proof {
        lemma_capability_flag_masks(le_u32_value(buffer@) as u32);
    }
    let (capability_flags_vec, index_offset) = parse_u32(
        buffer,
        ImmuxError::Deserialization(DeserializationError::InsufficientDataWidthU32),
    )?;
    Ok((capability_flags_from_word(capability_flags_vec), index_offset))
}

/// Flag `k` in field order; the last flag for `k` of 24 and above.
pub open spec fn capability_flag_at(f: CapabilityFlags, k: u32) -> bool {
    if k == 0 {
        f.client_long_password
    } else if k == 1 {
        f.client_found_rows
    } else if k == 2 {
        f.client_long_flag
    } else if k == 3 {
        f.client_connect_with_db
    } else if k == 4 {
        f.client_no_schema
    } else if k == 5 {
        f.client_compress
    } else if k == 6 {
        f.client_odbc
    } else if k == 7 {
        f.client_local_files
    } else if k == 8 {
        f.client_ignore_space
    } else if k == 9 {
        f.client_protocol_41
    } else if k == 10 {
        f.client_interactive
    } else if k == 11 {
        f.client_ssl
    } else if k == 12 {
        f.client_ignore_sigpipe
    } else if k == 13 {
        f.client_transactions
    } else if k == 14 {
        f.client_reserved
    } else if k == 15 {
        f.client_secure_connection
    } else if k == 16 {
        f.client_multi_statements
    } else if k == 17 {
        f.client_multi_results
    } else if k == 18 {
        f.client_ps_multi_results
    } else if k == 19 {
        f.client_plugin_auth
    } else if k == 20 {
        f.client_connect_attrs
    } else if k == 21 {
        f.client_plugin_auth_lenenc_client_data
    } else if k == 22 {
        f.client_can_handle_expired_passwords
    } else if k == 23 {
        f.client_session_track
    } else {
        f.client_deprecate_eof
    }
}

/// Flag `k` of a word is its bit `k`.
pub proof fn lemma_capability_flag_at_of_word(x: u32, k: u32)
    requires
        k < 25,
    ensures
        capability_flag_at(capability_flags_of(x), k) == bit_u32(x, k),
{
}

fn flag_at(flags_struct: &CapabilityFlags, k: u32) -> (res: bool)
    ensures
        res == capability_flag_at(*flags_struct, k),
{
    if k == 0 {
        flags_struct.client_long_password
    } else if k == 1 {
        flags_struct.client_found_rows
    } else if k == 2 {
        flags_struct.client_long_flag
    } else if k == 3 {
        flags_struct.client_connect_with_db
    } else if k == 4 {
        flags_struct.client_no_schema
    } else if k == 5 {
        flags_struct.client_compress
    } else if k == 6 {
        flags_struct.client_odbc
    } else if k == 7 {
        flags_struct.client_local_files
    } else if k == 8 {
        flags_struct.client_ignore_space
    } else if k == 9 {
        flags_struct.client_protocol_41
    } else if k == 10 {
        flags_struct.client_interactive
    } else if k == 11 {
        flags_struct.client_ssl
    } else if k == 12 {
        flags_struct.client_ignore_sigpipe
    } else if k == 13 {
        flags_struct.client_transactions
    } else if k == 14 {
        flags_struct.client_reserved
    } else if k == 15 {
        flags_struct.client_secure_connection
    } else if k == 16 {
        flags_struct.client_multi_statements
    } else if k == 17 {
        flags_struct.client_multi_results
    } else if k == 18 {
        flags_struct.client_ps_multi_results
    } else if k == 19 {
        flags_struct.client_plugin_auth
    } else if k == 20 {
        flags_struct.client_connect_attrs
    } else if k == 21 {
        flags_struct.client_plugin_auth_lenenc_client_data
    } else if k == 22 {
        flags_struct.client_can_handle_expired_passwords
    } else if k == 23 {
        flags_struct.client_session_track
    } else {
        flags_struct.client_deprecate_eof
    }
}

/// The flag word of `f`: the word whose lowest 25 bits are the flags in
/// field order and whose other bits are clear.
pub open spec fn capability_word(f: CapabilityFlags) -> u32 {
    choose|x: u32| capability_flags_of(x) == f && x >> 25u32 == 0
}

/// Two words with the same flags and clear upper bits are equal.
pub proof fn lemma_capability_word_unique(a: u32, c: u32)
    requires
        capability_flags_of(a) == capability_flags_of(c),
        a >> 25u32 == 0,
        c >> 25u32 == 0,
    ensures
        a == c,
{
    assert forall|k: u32| k < 25 implies bit_u32(a, k) == bit_u32(c, k) by {
        lemma_capability_flag_at_of_word(a, k);
        lemma_capability_flag_at_of_word(c, k);
    }
    lemma_u32_eq_by_bits(a, c, 25);
}

/// The flag word of `f` is the word with its flags and clear upper bits.
pub proof fn lemma_capability_word_is(f: CapabilityFlags, x: u32)
    requires
        capability_flags_of(x) == f,
        x >> 25u32 == 0,
    ensures
        capability_word(f) == x,
{
    let c = capability_word(f);
    assert(capability_flags_of(c) == f && c >> 25u32 == 0);
    lemma_capability_word_unique(x, c);
}

/// A word whose bits are the flags of `f` in field order, with clear upper
/// bits, is the flag word of `f`.
pub proof fn lemma_capability_word_of_bits(f: CapabilityFlags, x: u32)
    requires
        forall|j: u32| j < 25 ==> bit_u32(x, j) == capability_flag_at(f, j),
        x >> 25u32 == 0,
    ensures
        capability_flags_of(x) == f,
        x == capability_word(f),
{
    lemma_capability_flags_of_bits(f, x);
    lemma_capability_word_is(f, x);
}

/// A word whose bits are the flags of `f` in field order carries `f`.
pub proof fn lemma_capability_flags_of_bits(f: CapabilityFlags, x: u32)
    requires
        forall|j: u32| j < 25 ==> bit_u32(x, j) == capability_flag_at(f, j),
    ensures
        capability_flags_of(x) == f,
{
    assert(bit_u32(x, 0) == capability_flag_at(f, 0));
    assert(bit_u32(x, 1) == capability_flag_at(f, 1));
    assert(bit_u32(x, 2) == capability_flag_at(f, 2));
    assert(bit_u32(x, 3) == capability_flag_at(f, 3));
    assert(bit_u32(x, 4) == capability_flag_at(f, 4));
    assert(bit_u32(x, 5) == capability_flag_at(f, 5));
    assert(bit_u32(x, 6) == capability_flag_at(f, 6));
    assert(bit_u32(x, 7) == capability_flag_at(f, 7));
    assert(bit_u32(x, 8) == capability_flag_at(f, 8));
    assert(bit_u32(x, 9) == capability_flag_at(f, 9));
    assert(bit_u32(x, 10) == capability_flag_at(f, 10));
    assert(bit_u32(x, 11) == capability_flag_at(f, 11));
    assert(bit_u32(x, 12) == capability_flag_at(f, 12));
    assert(bit_u32(x, 13) == capability_flag_at(f, 13));
    assert(bit_u32(x, 14) == capability_flag_at(f, 14));
    assert(bit_u32(x, 15) == capability_flag_at(f, 15));
    assert(bit_u32(x, 16) == capability_flag_at(f, 16));
    assert(bit_u32(x, 17) == capability_flag_at(f, 17));
    assert(bit_u32(x, 18) == capability_flag_at(f, 18));
    assert(bit_u32(x, 19) == capability_flag_at(f, 19));
    assert(bit_u32(x, 20) == capability_flag_at(f, 20));
    assert(bit_u32(x, 21) == capability_flag_at(f, 21));
    assert(bit_u32(x, 22) == capability_flag_at(f, 22));
    assert(bit_u32(x, 23) == capability_flag_at(f, 23));
    assert(bit_u32(x, 24) == capability_flag_at(f, 24));
}

/// The flag word: bit `k` is field `k`, and the bits above the 25 flags are
/// clear.
pub fn serialize_capability_flags(flags_struct: &CapabilityFlags) -> (res: u32)
    ensures
        capability_flags_of(res) == *flags_struct,
        res >> 25u32 == 0,
        res == capability_word(*flags_struct),
        capability_masks_hold(*flags_struct, res),
{
    let mut result: u32 = 0;
    proof {
        lemma_zero_u32_bits();
    }
    let mut k: u32 = 0;
    while k < 25
        invariant
            k <= 25,
            forall|j: u32| j < k ==> bit_u32(result, j) == capability_flag_at(*flags_struct, j),
            result >> k == 0,
        decreases 25 - k,
    {
        let ghost before = result;
        set_bit_u32(&mut result, k as u8, flag_at(flags_struct, k));
        proof {
            assert forall|j: u32| j <= k implies bit_u32(result, j) == capability_flag_at(*flags_struct, j) by {
                lemma_with_bit_u32(before, k, j, capability_flag_at(*flags_struct, k));
            }
            lemma_with_bit_u32_clears_above(before, k, capability_flag_at(*flags_struct, k));
        }
        k = k + 1;
    }
    proof {
        lemma_capability_word_of_bits(*flags_struct, result);
        lemma_capability_flag_masks(result);
    }
    result
}

/// The word whose lowest `k` bits are the first `k` flags, in field order.
pub open spec fn capability_word_prefix(f: CapabilityFlags, k: u32) -> u32
    decreases k,
{
    if k == 0 {
        0
    } else {
        with_bit_u32(
            capability_word_prefix(f, (k - 1) as u32),
            (k - 1) as u32,
            capability_flag_at(f, (k - 1) as u32),
        )
    }
}

proof fn lemma_capability_word_prefix(f: CapabilityFlags, k: u32)
    requires
        k <= 25,
    ensures
        forall|j: u32| j < k ==> bit_u32(capability_word_prefix(f, k), j) == capability_flag_at(f, j),
        capability_word_prefix(f, k) >> k == 0,
    decreases k,
{
    if k == 0 {
        lemma_zero_u32_bits();
    } else {
        let i = (k - 1) as u32;
        let before = capability_word_prefix(f, i);
        lemma_capability_word_prefix(f, i);
        assert forall|j: u32| j < k implies bit_u32(capability_word_prefix(f, k), j)
            == capability_flag_at(f, j) by {
            lemma_with_bit_u32(before, i, j, capability_flag_at(f, i));
        }
        lemma_with_bit_u32_clears_above(before, i, capability_flag_at(f, i));
    }
}

/// Every flag set has its word, and reading the flags back out of the word
/// written for them, sent as four little-endian bytes, gives the same flags.
pub proof fn lemma_capability_flags_roundtrip(flags: CapabilityFlags)
    ensures
        capability_word(flags) >> 25u32 == 0,
        capability_flags_of(capability_word(flags)) == flags,
        capability_flags_of(le_u32_value(u32_le_bytes(capability_word(flags))) as u32) == flags,
{
    lemma_capability_word_prefix(flags, 25);
    lemma_capability_word_of_bits(flags, capability_word_prefix(flags, 25));
    lemma_u32_bytes_roundtrip(capability_word(flags));
}

/// Reading the flags of a word and writing them back gives the word's lowest
/// 25 bits: a flag word with clear upper bits is determined by its flags.
pub proof fn lemma_capability_word_of_flags(x: u32, word: u32)
    requires
        capability_flags_of(word) == capability_flags_of(x),
        word >> 25u32 == 0,
    ensures
        word == x & (((1u32 << 25u32) - 1u32) as u32),
{
    let m = x & (((1u32 << 25u32) - 1u32) as u32);
    lemma_u32_low_bits(x, 25);
    assert forall|k: u32| k < 25 implies bit_u32(word, k) == bit_u32(m, k) by {
        lemma_capability_flag_at_of_word(word, k);
        lemma_capability_flag_at_of_word(x, k);
    }
    lemma_u32_eq_by_bits(word, m, 25);
}

} // verus!
