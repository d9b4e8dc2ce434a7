//! @see https://dev.mysql.com/doc/internals/en/status-flags.html#packet-Protocol::StatusFlags

use crate::cortices::mysql::error::{MySQLSerializeError};
use crate::cortices::utils::{parse_u16, DeserializationError};
use crate::errors::{ImmuxError, ImmuxResult};
use crate::storage::kv_core::ImmuxDBCore;
use crate::utils::{
    bit_u16, get_bit_u16, le_u16_value, lemma_u16_eq_by_bits, lemma_with_bit_u16,
    lemma_u16_bytes_roundtrip, lemma_with_bit_u16_clears_above, lemma_zero_u16_bits, set_bit_u16,
    u16_le_bytes, with_bit_u16,
};
use vstd::prelude::*;
use vstd::utf8::encode_utf8;

verus! {

/// The status flags a MySQL server reports, in the order of their bits in
/// the status word (Protocol::StatusFlags): `intrans` 0x0001, `autocommit`
/// 0x0002, `more_results_exists` 0x0008, `no_good_index_used` 0x0010, and
/// each later flag the next bit up, to `session_state_changed` 0x4000. Bit
/// 0x0004 is unused.
#[derive(Debug, Clone, Copy, PartialEq, Eq, Structural)]
pub struct ServerStatusFlags {
    pub intrans: bool,
    pub autocommit: bool,
    pub more_results_exists: bool,
    pub no_good_index_used: bool,
    pub no_index_used: bool,
    pub cursor_exists: bool,
    pub last_row_sent: bool,
    pub db_dropped: bool,
    pub no_backslash_escapes: bool,
    pub metadata_changed: bool,
    pub query_was_slow: bool,
    pub ps_out_params: bool,
    pub intrans_readonly: bool,
    pub session_state_changed: bool,
}

/// The flags that the word `x` carries: bits 0, 1 and 3 to 14.
pub open spec fn status_flags_of(x: u16) -> ServerStatusFlags {
    ServerStatusFlags {
        intrans: bit_u16(x, 0),
        autocommit: bit_u16(x, 1),
        more_results_exists: bit_u16(x, 3),
        no_good_index_used: bit_u16(x, 4),
        no_index_used: bit_u16(x, 5),
        cursor_exists: bit_u16(x, 6),
        last_row_sent: bit_u16(x, 7),
        db_dropped: bit_u16(x, 8),
        no_backslash_escapes: bit_u16(x, 9),
        metadata_changed: bit_u16(x, 10),
        query_was_slow: bit_u16(x, 11),
        ps_out_params: bit_u16(x, 12),
        intrans_readonly: bit_u16(x, 13),
        session_state_changed: bit_u16(x, 14),
    }
}

/// The bit of the status word that carries flag `k` (in field order): bits 0
/// and 1 for the first two flags, then bit `k + 1`, past the unused bit 2.
pub open spec fn status_flag_bit(k: u16) -> u16 {
    if k < 2 {
        k
    } else {
        (k + 1) as u16
    }
}

/// Flag `k` in field order; the last flag for `k` of 13 and above.
pub open spec fn status_flag_at(f: ServerStatusFlags, k: u16) -> bool {
    if k == 0 {
        f.intrans
    } else if k == 1 {
        f.autocommit
    } else if k == 2 {
        f.more_results_exists
    } else if k == 3 {
        f.no_good_index_used
    } else if k == 4 {
        f.no_index_used
    } else if k == 5 {
        f.cursor_exists
    } else if k == 6 {
        f.last_row_sent
    } else if k == 7 {
        f.db_dropped
    } else if k == 8 {
        f.no_backslash_escapes
    } else if k == 9 {
        f.metadata_changed
    } else if k == 10 {
        f.query_was_slow
    } else if k == 11 {
        f.ps_out_params
    } else if k == 12 {
        f.intrans_readonly
    } else {
        f.session_state_changed
    }
}

/// What bit `p` of the flag word of `f` holds: clear for the unused bit 2,
/// else the flag that bit carries.
pub open spec fn status_word_bit(f: ServerStatusFlags, p: u16) -> bool {
    if p == 2 {
        false
    } else if p < 2 {
        status_flag_at(f, p)
    } else {
        status_flag_at(f, (p - 1) as u16)
    }
}

/// A flag word: the unused bit 2 and the bits above the flags are clear.
pub open spec fn status_word_clean(x: u16) -> bool {
    !bit_u16(x, 2) && x >> 15u16 == 0
}

/// Flag `k` of a word is the bit that carries it.
pub proof fn lemma_status_flag_at_of_word(x: u16, k: u16)
    requires
        k < 14,
    ensures
        status_flag_at(status_flags_of(x), k) == bit_u16(x, status_flag_bit(k)),
{
}

/// Two flag sets that agree on every flag are equal.
pub proof fn lemma_status_flags_ext(a: ServerStatusFlags, b: ServerStatusFlags)
    requires
        forall|j: u16| j < 14 ==> status_flag_at(a, j) == status_flag_at(b, j),
    ensures
        a == b,
{
    assert(status_flag_at(a, 0) == status_flag_at(b, 0));
    assert(status_flag_at(a, 1) == status_flag_at(b, 1));
    assert(status_flag_at(a, 2) == status_flag_at(b, 2));
    assert(status_flag_at(a, 3) == status_flag_at(b, 3));
    assert(status_flag_at(a, 4) == status_flag_at(b, 4));
    assert(status_flag_at(a, 5) == status_flag_at(b, 5));
    assert(status_flag_at(a, 6) == status_flag_at(b, 6));
    assert(status_flag_at(a, 7) == status_flag_at(b, 7));
    assert(status_flag_at(a, 8) == status_flag_at(b, 8));
    assert(status_flag_at(a, 9) == status_flag_at(b, 9));
    assert(status_flag_at(a, 10) == status_flag_at(b, 10));
    assert(status_flag_at(a, 11) == status_flag_at(b, 11));
    assert(status_flag_at(a, 12) == status_flag_at(b, 12));
    assert(status_flag_at(a, 13) == status_flag_at(b, 13));
}

/// What bit `p` of the flag word of `flags_struct` holds.
fn status_word_bit_exec(flags_struct: &ServerStatusFlags, p: u16) -> (res: bool)
    ensures
        res == status_word_bit(*flags_struct, p),
{
    if p == 0 {
        flags_struct.intrans
    } else if p == 1 {
        flags_struct.autocommit
    } else if p == 2 {
        false
    } else if p == 3 {
        flags_struct.more_results_exists
    } else if p == 4 {
        flags_struct.no_good_index_used
    } else if p == 5 {
        flags_struct.no_index_used
    } else if p == 6 {
        flags_struct.cursor_exists
    } else if p == 7 {
        flags_struct.last_row_sent
    } else if p == 8 {
        flags_struct.db_dropped
    } else if p == 9 {
        flags_struct.no_backslash_escapes
    } else if p == 10 {
        flags_struct.metadata_changed
    } else if p == 11 {
        flags_struct.query_was_slow
    } else if p == 12 {
        flags_struct.ps_out_params
    } else if p == 13 {
        flags_struct.intrans_readonly
    } else {
        flags_struct.session_state_changed
    }
}

/// The flags of a flag word.
fn status_flags_from_word(flags_vec: u16) -> (res: ServerStatusFlags)
    ensures
        res == status_flags_of(flags_vec),
{
    let intrans = get_bit_u16(flags_vec, 0);
    let autocommit = get_bit_u16(flags_vec, 1);
    let more_results_exists = get_bit_u16(flags_vec, 3);
    let no_good_index_used = get_bit_u16(flags_vec, 4);
    let no_index_used = get_bit_u16(flags_vec, 5);
    let cursor_exists = get_bit_u16(flags_vec, 6);
    let last_row_sent = get_bit_u16(flags_vec, 7);
    let db_dropped = get_bit_u16(flags_vec, 8);
    let no_backslash_escapes = get_bit_u16(flags_vec, 9);
    let metadata_changed = get_bit_u16(flags_vec, 10);
    let query_was_slow = get_bit_u16(flags_vec, 11);
    let ps_out_params = get_bit_u16(flags_vec, 12);
    let intrans_readonly = get_bit_u16(flags_vec, 13);
    let session_state_changed = get_bit_u16(flags_vec, 14);
    ServerStatusFlags {
        intrans,
        autocommit,
        more_results_exists,
        no_good_index_used,
        no_index_used,
        cursor_exists,
        last_row_sent,
        db_dropped,
        no_backslash_escapes,
        metadata_changed,
        query_was_slow,
        ps_out_params,
        intrans_readonly,
        session_state_changed,
    }
}

/// The flag word of `f`: each flag in the bit that carries it, the unused
/// bit 2 and the bits above the flags clear.
pub open spec fn status_word(f: ServerStatusFlags) -> u16 {
    choose|x: u16| status_flags_of(x) == f && status_word_clean(x)
}

/// Two clean words with the same flags are equal.
pub proof fn lemma_status_word_unique(a: u16, c: u16)
    requires
        status_flags_of(a) == status_flags_of(c),
        status_word_clean(a),
        status_word_clean(c),
    ensures
        a == c,
{
    assert forall|p: u16| p < 15 implies bit_u16(a, p) == bit_u16(c, p) by {
        if p < 2 {
            lemma_status_flag_at_of_word(a, p);
            lemma_status_flag_at_of_word(c, p);
        } else if p > 2 {
            lemma_status_flag_at_of_word(a, (p - 1) as u16);
            lemma_status_flag_at_of_word(c, (p - 1) as u16);
        }
    }
    lemma_u16_eq_by_bits(a, c, 15);
}

/// The flag word of `f` is the clean word with its flags.
pub proof fn lemma_status_word_is(f: ServerStatusFlags, x: u16)
    requires
        status_flags_of(x) == f,
        status_word_clean(x),
    ensures
        status_word(f) == x,
{
    let c = status_word(f);
    assert(status_flags_of(c) == f && status_word_clean(c));
    lemma_status_word_unique(x, c);
}

proof fn lemma_status_word_bit_of_flag(f: ServerStatusFlags, j: u16)
    requires
        j < 14,
    ensures
        status_flag_bit(j) < 15,
        status_flag_bit(j) != 2,
        status_word_bit(f, status_flag_bit(j)) == status_flag_at(f, j),
{
    if j >= 2 {
        assert((status_flag_bit(j) - 1) as u16 == j);
    }
}

/// A word whose lowest 15 bits are those of the flag word of `f`, with clear
/// upper bits, is the flag word of `f`.
pub proof fn lemma_status_word_of_bits(f: ServerStatusFlags, x: u16)
    requires
        forall|p: u16| p < 15 ==> bit_u16(x, p) == status_word_bit(f, p),
        x >> 15u16 == 0,
    ensures
        status_flags_of(x) == f,
        status_word_clean(x),
        x == status_word(f),
{
    assert(bit_u16(x, 2) == status_word_bit(f, 2));
    assert(status_flags_of(x) == f) by {
        assert forall|j: u16| j < 14 implies status_flag_at(status_flags_of(x), j) == status_flag_at(f, j) by {
            lemma_status_flag_at_of_word(x, j);
            lemma_status_word_bit_of_flag(f, j);
        }
        lemma_status_flags_ext(status_flags_of(x), f);
    }
    lemma_status_word_is(f, x);
}

/// The flag word: each flag in its bit (Protocol::StatusFlags), the unused
/// bit 2 and the bits above the flags clear.
pub fn serialize_status_flags(flags_struct: &ServerStatusFlags) -> (res: u16)
    ensures
        status_flags_of(res) == *flags_struct,
        status_word_clean(res),
        res == status_word(*flags_struct),
        status_masks_hold(*flags_struct, res),
{
    let mut result: u16 = 0;
    proof {
        lemma_zero_u16_bits();
    }
    let mut p: u16 = 0;
    while p < 15
        invariant
            p <= 15,
            forall|j: u16| j < p ==> bit_u16(result, j) == status_word_bit(*flags_struct, j),
            result >> p == 0,
        decreases 15 - p,
    {
        let ghost before = result;
        set_bit_u16(&mut result, p as u8, status_word_bit_exec(flags_struct, p));
        proof {
            assert forall|j: u16| j <= p implies bit_u16(result, j) == status_word_bit(
                *flags_struct,
                j,
            ) by {
                lemma_with_bit_u16(before, p, j, status_word_bit(*flags_struct, p));
            }
            lemma_with_bit_u16_clears_above(before, p, status_word_bit(*flags_struct, p));
        }
        p = p + 1;
    }
    proof {
        lemma_status_word_of_bits(*flags_struct, result);
        lemma_status_flag_masks(result);
    }
    result
}

/// The word whose lowest `k` bits are those of the flag word of `f`.
pub open spec fn status_word_prefix(f: ServerStatusFlags, k: u16) -> u16
    decreases k,
{
    if k == 0 {
        0
    } else {
        with_bit_u16(
            status_word_prefix(f, (k - 1) as u16),
            (k - 1) as u16,
            status_word_bit(f, (k - 1) as u16),
        )
    }
}

proof fn lemma_status_word_prefix(f: ServerStatusFlags, k: u16)
    requires
        k <= 15,
    ensures
        forall|j: u16| j < k ==> bit_u16(status_word_prefix(f, k), j) == status_word_bit(f, j),
        status_word_prefix(f, k) >> k == 0,
    decreases k,
{
    if k == 0 {
        lemma_zero_u16_bits();
    } else {
        let i = (k - 1) as u16;
        let before = status_word_prefix(f, i);
        lemma_status_word_prefix(f, i);
        assert forall|j: u16| j < k implies bit_u16(status_word_prefix(f, k), j) == status_word_bit(
            f,
            j,
        ) by {
            lemma_with_bit_u16(before, i, j, status_word_bit(f, i));
        }
        lemma_with_bit_u16_clears_above(before, i, status_word_bit(f, i));
    }
}

/// Every set of status flags has its word, and reading the flags back out of
/// the word written for them, sent as two little-endian bytes, gives the
/// same flags.
pub proof fn lemma_status_flags_roundtrip(flags: ServerStatusFlags)
    ensures
        status_word_clean(status_word(flags)),
        status_flags_of(status_word(flags)) == flags,
        status_flags_of(le_u16_value(u16_le_bytes(status_word(flags))) as u16) == flags,
{
    lemma_status_word_prefix(flags, 15);
    lemma_status_word_of_bits(flags, status_word_prefix(flags, 15));
    lemma_u16_bytes_roundtrip(status_word(flags));
}

/// Reading the flags of a word and writing them back keeps the bits that
/// carry flags (mask 0x7ffb) and clears the rest: a clean flag word is
/// determined by its flags.
pub proof fn lemma_status_word_of_flags(x: u16, word: u16)
    requires
        status_flags_of(word) == status_flags_of(x),
        status_word_clean(word),
    ensures
        word == x & 0x7ffbu16,
{
    reveal(bit_u16);
    let m = x & 0x7ffbu16;
    assert(m >> 15u16 == 0) by (bit_vector)
        requires m == x & 0x7ffbu16;
    assert(((m >> 2u16) & 1u16) == 0u16) by (bit_vector)
        requires m == x & 0x7ffbu16;
    assert forall|p: u16| p < 15 && p != 2 implies bit_u16(m, p) == bit_u16(x, p) by {
        assert((p < 15 && p != 2) ==> ((m >> p) & 1u16) == ((x >> p) & 1u16)) by (bit_vector)
            requires m == x & 0x7ffbu16;
    }
    assert(status_word_clean(m));
    assert forall|j: u16| j < 14 implies status_flag_at(status_flags_of(m), j) == status_flag_at(
        status_flags_of(x),
        j,
    ) by {
        lemma_status_flag_at_of_word(m, j);
        lemma_status_flag_at_of_word(x, j);
    }
    lemma_status_flags_ext(status_flags_of(m), status_flags_of(x));
    lemma_status_word_unique(word, m);
}

/// The flags agree with the word `x` by the protocol's masks
/// (Protocol::StatusFlags): SERVER_STATUS_IN_TRANS 0x1, AUTOCOMMIT 0x2,
/// MORE_RESULTS_EXISTS 0x8, NO_GOOD_INDEX_USED 0x10, and so on, each flag the
/// next bit up, to SESSION_STATE_CHANGED 0x4000.
pub open spec fn status_masks_hold(f: ServerStatusFlags, x: u16) -> bool {
    &&& f.intrans == (x & 0x1u16 != 0)
    &&& f.autocommit == (x & 0x2u16 != 0)
    &&& f.more_results_exists == (x & 0x8u16 != 0)
    &&& f.no_good_index_used == (x & 0x10u16 != 0)
    &&& f.no_index_used == (x & 0x20u16 != 0)
    &&& f.cursor_exists == (x & 0x40u16 != 0)
    &&& f.last_row_sent == (x & 0x80u16 != 0)
    &&& f.db_dropped == (x & 0x100u16 != 0)
    &&& f.no_backslash_escapes == (x & 0x200u16 != 0)
    &&& f.metadata_changed == (x & 0x400u16 != 0)
    &&& f.query_was_slow == (x & 0x800u16 != 0)
    &&& f.ps_out_params == (x & 0x1000u16 != 0)
    &&& f.intrans_readonly == (x & 0x2000u16 != 0)
    &&& f.session_state_changed == (x & 0x4000u16 != 0)
}

/// Each status flag of a word is the word's bit under that flag's protocol
/// mask, for every word.
pub proof fn lemma_status_flag_masks(x: u16)
    ensures
        status_masks_hold(status_flags_of(x), x),
{
    reveal(bit_u16);
    assert((((x >> 0u16) & 1u16 == 1u16) == (x & 0x1u16 != 0)) && (((x >> 1u16) & 1u16 == 1u16) == (x & 0x2u16 != 0)) && (((x >> 3u16) & 1u16 == 1u16) == (x & 0x8u16 != 0)) && (((x >> 4u16) & 1u16 == 1u16) == (x & 0x10u16 != 0)) && (((x >> 5u16) & 1u16 == 1u16) == (x & 0x20u16 != 0)) && (((x >> 6u16) & 1u16 == 1u16) == (x & 0x40u16 != 0)) && (((x >> 7u16) & 1u16 == 1u16) == (x & 0x80u16 != 0)) && (((x >> 8u16) & 1u16 == 1u16) == (x & 0x100u16 != 0)) && (((x >> 9u16) & 1u16 == 1u16) == (x & 0x200u16 != 0)) && (((x >> 10u16) & 1u16 == 1u16) == (x & 0x400u16 != 0)) && (((x >> 11u16) & 1u16 == 1u16) == (x & 0x800u16 != 0)) && (((x >> 12u16) & 1u16 == 1u16) == (x & 0x1000u16 != 0)) && (((x >> 13u16) & 1u16 == 1u16) == (x & 0x2000u16 != 0)) && (((x >> 14u16) & 1u16 == 1u16) == (x & 0x4000u16 != 0))) by (bit_vector);
}

/// The flags of the status word `flags_vec`.
pub fn parse_status_flags(flags_vec: u16) -> (res: ServerStatusFlags)
    ensures
        res == status_flags_of(flags_vec),
        status_masks_hold(res, flags_vec),
{
    proof {
        lemma_status_flag_masks(flags_vec);
    }
    status_flags_from_word(flags_vec)
}

pub const SERVER_STATUS_FLAGS_KEY: &'static str = "_SERVER_STATUS_FLAGS";

/// The key the status word is kept under in the core.
pub open spec fn server_status_flags_key() -> Seq<u8> {
    encode_utf8(SERVER_STATUS_FLAGS_KEY@)
}

/// Keeps the status word `buffer` in the core.
pub fn save_server_status_flags(buffer: &[u8], core: &mut ImmuxDBCore) -> (res: ImmuxResult<()>)
    ensures
        res is Ok,
        final(core)@ == old(core)@.insert(server_status_flags_key(), buffer@),
{
    core.set(SERVER_STATUS_FLAGS_KEY.as_bytes(), buffer);
    Ok(())
}

/// What loading the status flags from a core holding `m` gives.
pub open spec fn stored_server_status_flags(m: Map<Seq<u8>, Seq<u8>>) -> Result<
    ServerStatusFlags,
    ImmuxError,
> {
    if !m.contains_key(server_status_flags_key()) {
        Err(ImmuxError::MySQLSerializer(MySQLSerializeError::CannotReadServerStatusFlags))
    } else if m[server_status_flags_key()].len() < 2 {
        Err(ImmuxError::Deserialization(DeserializationError::InsufficientDataWidthU16))
    } else {
        Ok(status_flags_of(le_u16_value(m[server_status_flags_key()]) as u16))
    }
}

/// Reads the status flags kept in the core.
pub fn load_server_status_flags(core: &ImmuxDBCore) -> (res: ImmuxResult<ServerStatusFlags>)
    ensures
        res == stored_server_status_flags(core@),
{
    match core.get(SERVER_STATUS_FLAGS_KEY.as_bytes()) {
        None => Err(ImmuxError::MySQLSerializer(MySQLSerializeError::CannotReadServerStatusFlags)),
        Some(target) => {
            let (status_flags, _) = parse_u16(
                target.as_slice(),
                ImmuxError::Deserialization(DeserializationError::InsufficientDataWidthU16),
            )?;
            Ok(parse_status_flags(status_flags))
        },
    }
}

/// Loading the status flags after saving a status word gives the flags of
/// that word, whatever else the core holds.
pub proof fn lemma_load_after_save_server_status_flags(m: Map<Seq<u8>, Seq<u8>>, buffer: Seq<u8>)
    requires
        buffer.len() >= 2,
    ensures
        stored_server_status_flags(m.insert(server_status_flags_key(), buffer)) == Ok::<
            ServerStatusFlags,
            ImmuxError,
        >(status_flags_of(le_u16_value(buffer) as u16)),
{
}

} // verus!
