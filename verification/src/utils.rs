//! Little-endian integer encodings and single-bit access on flag words.

use vstd::prelude::*;

verus! {

/// The value of two little-endian bytes.
pub open spec fn le_u16_value(s: Seq<u8>) -> int {
    s[0] as int + 256 * s[1] as int
}

/// The value of four little-endian bytes.
pub open spec fn le_u32_value(s: Seq<u8>) -> int {
    s[0] as int + 256 * s[1] as int + 65536 * s[2] as int + 16777216 * s[3] as int
}

/// The value of eight little-endian bytes.
pub open spec fn le_u64_value(s: Seq<u8>) -> int {
    le_u32_value(s) + 4294967296 * le_u32_value(s.subrange(4, 8))
}

/// The two little-endian bytes of `x`.
pub open spec fn u16_le_bytes(x: u16) -> Seq<u8> {
    seq![(x % 256) as u8, (x / 256) as u8]
}

/// The four little-endian bytes of `x`.
pub open spec fn u32_le_bytes(x: u32) -> Seq<u8> {
    seq![(x % 256) as u8, ((x / 256) % 256) as u8, ((x / 65536) % 256) as u8, (x / 16777216) as u8]
}

/// The eight little-endian bytes of `x`.
pub open spec fn u64_le_bytes(x: u64) -> Seq<u8> {
    u32_le_bytes((x % 4294967296) as u32) + u32_le_bytes((x / 4294967296) as u32)
}

/// Bit `i` of `x`, counted from the least significant bit.
#[verifier::opaque]
pub open spec fn bit_u32(x: u32, i: u32) -> bool {
    (x >> i) & 1u32 == 1u32
}

/// Bit `i` of `x`, counted from the least significant bit.
#[verifier::opaque]
pub open spec fn bit_u16(x: u16, i: u16) -> bool {
    (x >> i) & 1u16 == 1u16
}

/// `x` with bit `i` set to `b`.
#[verifier::opaque]
pub open spec fn with_bit_u32(x: u32, i: u32, b: bool) -> u32 {
    if b {
        x | (1u32 << i)
    } else {
        x & !(1u32 << i)
    }
}

/// `x` with bit `i` set to `b`.
#[verifier::opaque]
pub open spec fn with_bit_u16(x: u16, i: u16, b: bool) -> u16 {
    if b {
        x | (1u16 << i)
    } else {
        x & !(1u16 << i)
    }
}

pub fn u8_array_to_u16(data: &[u8; 2]) -> (res: u16)
    ensures
        res == le_u16_value(data@),
{
    data[0] as u16 + 256 * (data[1] as u16)
}

pub fn u8_array_to_u32(data: &[u8; 4]) -> (res: u32)
    ensures
        res == le_u32_value(data@),
{
    data[0] as u32 + 256 * (data[1] as u32) + 65536 * (data[2] as u32) + 16777216 * (data[3] as u32)
}

pub fn u8_array_to_u64(data: &[u8; 8]) -> (res: u64)
    ensures
        res == le_u64_value(data@),
{
    let low = u8_array_to_u32(&[data[0], data[1], data[2], data[3]]);
    let high = u8_array_to_u32(&[data[4], data[5], data[6], data[7]]);
    assert(data@.subrange(4, 8) =~= seq![data[4], data[5], data[6], data[7]]);
    low as u64 + 4294967296 * (high as u64)
}

pub fn u16_to_u8_array(x: u16) -> (res: [u8; 2])
    ensures
        res@ == u16_le_bytes(x),
{
    let res = [(x % 256) as u8, (x / 256) as u8];
    assert(res@ =~= u16_le_bytes(x));
    res
}

pub fn u32_to_u8_array(x: u32) -> (res: [u8; 4])
    ensures
        res@ == u32_le_bytes(x),
{
    let res = [(x % 256) as u8, ((x / 256) % 256) as u8, ((x / 65536) % 256) as u8, (x / 16777216) as u8];
    assert(res@ =~= u32_le_bytes(x));
    res
}

pub fn u64_to_u8_array(x: u64) -> (res: [u8; 8])
    ensures
        res@ == u64_le_bytes(x),
{
    let low = u32_to_u8_array((x % 4294967296) as u32);
    let high = u32_to_u8_array((x / 4294967296) as u32);
    let res = [low[0], low[1], low[2], low[3], high[0], high[1], high[2], high[3]];
    assert(res@ =~= u64_le_bytes(x));
    res
}

/// Reading back the bytes of a `u16` gives the `u16`.
pub proof fn lemma_u16_bytes_roundtrip(x: u16)
    ensures
        u16_le_bytes(x).len() == 2,
        le_u16_value(u16_le_bytes(x)) == x,
{
}

/// Reading back the bytes of a `u32` gives the `u32`.
pub proof fn lemma_u32_bytes_roundtrip(x: u32)
    ensures
        u32_le_bytes(x).len() == 4,
        le_u32_value(u32_le_bytes(x)) == x,
{
}

/// Writing back the value of four little-endian bytes gives the bytes.
pub proof fn lemma_u32_le_bytes_of_value(s: Seq<u8>)
    requires
        s.len() == 4,
    ensures
        u32_le_bytes(le_u32_value(s) as u32) == s,
{
    let x = le_u32_value(s);
    let (a, b, c, d) = (s[0] as int, s[1] as int, s[2] as int, s[3] as int);
    assert(0 <= x < 0x1_0000_0000);
    assert(x % 256 == a && (x / 256) % 256 == b && (x / 65536) % 256 == c && x / 16777216 == d)
        by (nonlinear_arith)
        requires
            x == a + 256 * b + 65536 * c + 16777216 * d,
            0 <= a < 256,
            0 <= b < 256,
            0 <= c < 256,
            0 <= d < 256,
    ;
    assert(u32_le_bytes(x as u32) =~= s);
}

/// Writing back the value of eight little-endian bytes gives the bytes.
pub proof fn lemma_u64_le_bytes_of_value(s: Seq<u8>)
    requires
        s.len() == 8,
    ensures
        u64_le_bytes(le_u64_value(s) as u64) == s,
{
    let lo = le_u32_value(s);
    let hi = le_u32_value(s.subrange(4, 8));
    let x = le_u64_value(s);
    assert(0 <= lo < 0x1_0000_0000);
    assert(0 <= hi < 0x1_0000_0000);
    assert(x % 0x1_0000_0000 == lo && x / 0x1_0000_0000 == hi) by (nonlinear_arith)
        requires
            x == lo + 0x1_0000_0000 * hi,
            0 <= lo < 0x1_0000_0000,
            0 <= hi < 0x1_0000_0000,
    ;
    assert(le_u32_value(s.take(4)) == lo);
    lemma_u32_le_bytes_of_value(s.take(4));
    lemma_u32_le_bytes_of_value(s.subrange(4, 8));
    assert(u64_le_bytes(x as u64) =~= s.take(4) + s.subrange(4, 8));
    assert(s.take(4) + s.subrange(4, 8) =~= s);
}

/// Reading back the bytes of a `u64` gives the `u64`.
pub proof fn lemma_u64_bytes_roundtrip(x: u64)
    ensures
        u64_le_bytes(x).len() == 8,
        le_u64_value(u64_le_bytes(x)) == x,
{
    lemma_u32_bytes_roundtrip((x % 4294967296) as u32);
    lemma_u32_bytes_roundtrip((x / 4294967296) as u32);
    assert(u64_le_bytes(x).subrange(4, 8) =~= u32_le_bytes((x / 4294967296) as u32));
}

pub fn get_bit_u32(x: u32, index: u8) -> (res: bool)
    requires
        index < 32,
    ensures
        res == bit_u32(x, index as u32),
{
    reveal(bit_u32);
    (x >> (index as u32)) & 1u32 == 1u32
}

pub fn get_bit_u16(x: u16, index: u8) -> (res: bool)
    requires
        index < 16,
    ensures
        res == bit_u16(x, index as u16),
{
    reveal(bit_u16);
    (x >> (index as u16)) & 1u16 == 1u16
}

pub fn set_bit_u32(x: &mut u32, index: u8, value: bool)
    requires
        index < 32,
    ensures
        *final(x) == with_bit_u32(*old(x), index as u32, value),
{
    reveal(with_bit_u32);
    let mask: u32 = 1u32 << (index as u32);
    if value {
        *x = *x | mask;
    } else {
        *x = *x & !mask;
    }
}

pub fn set_bit_u16(x: &mut u16, index: u8, value: bool)
    requires
        index < 16,
    ensures
        *final(x) == with_bit_u16(*old(x), index as u16, value),
{
    reveal(with_bit_u16);
    let mask: u16 = 1u16 << (index as u16);
    if value {
        *x = *x | mask;
    } else {
        *x = *x & !mask;
    }
}

/// Setting a bit and reading it back gives the value set; the other bits keep
/// their values.
pub proof fn lemma_with_bit_u32(x: u32, i: u32, j: u32, b: bool)
    requires
        i < 32,
        j < 32,
    ensures
        bit_u32(with_bit_u32(x, i, b), i) == b,
        i != j ==> bit_u32(with_bit_u32(x, i, b), j) == bit_u32(x, j),
{
    reveal(bit_u32);
    reveal(bit_u16);
    reveal(with_bit_u32);
    reveal(with_bit_u16);
    if b {
        assert(((x | (1u32 << i)) >> i) & 1u32 == 1u32) by (bit_vector)
            requires i < 32;
        assert(i != j ==> ((x | (1u32 << i)) >> j) & 1u32 == (x >> j) & 1u32) by (bit_vector)
            requires i < 32, j < 32;
    } else {
        assert(((x & !(1u32 << i)) >> i) & 1u32 == 0u32) by (bit_vector)
            requires i < 32;
        assert(i != j ==> ((x & !(1u32 << i)) >> j) & 1u32 == (x >> j) & 1u32) by (bit_vector)
            requires i < 32, j < 32;
    }
}

/// Setting a bit and reading it back gives the value set; the other bits keep
/// their values.
pub proof fn lemma_with_bit_u16(x: u16, i: u16, j: u16, b: bool)
    requires
        i < 16,
        j < 16,
    ensures
        bit_u16(with_bit_u16(x, i, b), i) == b,
        i != j ==> bit_u16(with_bit_u16(x, i, b), j) == bit_u16(x, j),
{
    reveal(bit_u32);
    reveal(bit_u16);
    reveal(with_bit_u32);
    reveal(with_bit_u16);
    if b {
        assert(((x | (1u16 << i)) >> i) & 1u16 == 1u16) by (bit_vector)
            requires i < 16;
        assert(i != j ==> ((x | (1u16 << i)) >> j) & 1u16 == (x >> j) & 1u16) by (bit_vector)
            requires i < 16, j < 16;
    } else {
        assert(((x & !(1u16 << i)) >> i) & 1u16 == 0u16) by (bit_vector)
            requires i < 16;
        assert(i != j ==> ((x & !(1u16 << i)) >> j) & 1u16 == (x >> j) & 1u16) by (bit_vector)
            requires i < 16, j < 16;
    }
}

pub proof fn lemma_with_bit_u32_clears_above(x: u32, i: u32, b: bool)
    requires
        i < 31,
        x >> i == 0,
    ensures
        with_bit_u32(x, i, b) >> ((i + 1) as u32) == 0,
{
    reveal(bit_u32);
    reveal(bit_u16);
    reveal(with_bit_u32);
    reveal(with_bit_u16);
    assert((x >> i == 0 && i < 31) ==> (x | (1u32 << i)) >> ((i + 1) as u32) == 0) by (bit_vector);
    assert((x >> i == 0 && i < 31) ==> (x & !(1u32 << i)) >> ((i + 1) as u32) == 0) by (bit_vector);
}

pub proof fn lemma_with_bit_u16_clears_above(x: u16, i: u16, b: bool)
    requires
        i < 15,
        x >> i == 0,
    ensures
        with_bit_u16(x, i, b) >> ((i + 1) as u16) == 0,
{
    reveal(bit_u32);
    reveal(bit_u16);
    reveal(with_bit_u32);
    reveal(with_bit_u16);
    assert((x >> i == 0 && i < 15) ==> (x | (1u16 << i)) >> ((i + 1) as u16) == 0) by (bit_vector);
    assert((x >> i == 0 && i < 15) ==> (x & !(1u16 << i)) >> ((i + 1) as u16) == 0) by (bit_vector);
}

/// Two words that agree on their lowest `n` bits and on everything above them
/// are equal.
pub proof fn lemma_u32_eq_by_bits(a: u32, b: u32, n: u32)
    requires
        n <= 31,
        a >> n == b >> n,
        forall|k: u32| k < n ==> bit_u32(a, k) == bit_u32(b, k),
    ensures
        a == b,
    decreases n,
{
    reveal(bit_u32);
    reveal(bit_u16);
    reveal(with_bit_u32);
    reveal(with_bit_u16);
    if n > 0 {
        let m = (n - 1) as u32;
        assert(bit_u32(a, m) == bit_u32(b, m));
        assert((m < 31 && a >> ((m + 1) as u32) == b >> ((m + 1) as u32) && ((a >> m) & 1u32 == 1u32) == ((b >> m)
            & 1u32 == 1u32)) ==> a >> m == b >> m) by (bit_vector);
        assert(((m + 1) as u32) == n);
        lemma_u32_eq_by_bits(a, b, m);
    } else {
        assert(a >> 0u32 == a && b >> 0u32 == b) by (bit_vector);
    }
}

/// Two words that agree on their lowest `n` bits and on everything above them
/// are equal.
pub proof fn lemma_u16_eq_by_bits(a: u16, b: u16, n: u16)
    requires
        n <= 15,
        a >> n == b >> n,
        forall|k: u16| k < n ==> bit_u16(a, k) == bit_u16(b, k),
    ensures
        a == b,
    decreases n,
{
    reveal(bit_u32);
    reveal(bit_u16);
    reveal(with_bit_u32);
    reveal(with_bit_u16);
    if n > 0 {
        let m = (n - 1) as u16;
        assert(bit_u16(a, m) == bit_u16(b, m));
        assert((m < 15 && a >> ((m + 1) as u16) == b >> ((m + 1) as u16) && ((a >> m) & 1u16 == 1u16) == ((b >> m)
            & 1u16 == 1u16)) ==> a >> m == b >> m) by (bit_vector);
        assert(((m + 1) as u16) == n);
        lemma_u16_eq_by_bits(a, b, m);
    } else {
        assert(a >> 0u16 == a && b >> 0u16 == b) by (bit_vector);
    }
}

/// Masking a word keeps its lowest `n` bits and clears the rest.
pub proof fn lemma_u32_low_bits(x: u32, n: u32)
    requires
        n <= 31,
    ensures
        (x & (((1u32 << n) - 1u32) as u32)) >> n == 0,
        forall|k: u32| k < n ==> bit_u32(x & (((1u32 << n) - 1u32) as u32), k) == bit_u32(x, k),
{
    reveal(bit_u32);
    reveal(bit_u16);
    reveal(with_bit_u32);
    reveal(with_bit_u16);
    assert(n <= 31 ==> (x & (((1u32 << n) - 1u32) as u32)) >> n == 0) by (bit_vector);
    assert forall|k: u32| k < n implies bit_u32(x & (((1u32 << n) - 1u32) as u32), k) == bit_u32(x, k) by {
        assert((n <= 31 && k < n) ==> ((x & (((1u32 << n) - 1u32) as u32)) >> k) & 1u32 == (x >> k) & 1u32)
            by (bit_vector);
    }
}

/// Masking a word keeps its lowest `n` bits and clears the rest.
pub proof fn lemma_u16_low_bits(x: u16, n: u16)
    requires
        n <= 15,
    ensures
        (x & (((1u16 << n) - 1u16) as u16)) >> n == 0,
        forall|k: u16| k < n ==> bit_u16(x & (((1u16 << n) - 1u16) as u16), k) == bit_u16(x, k),
{
    reveal(bit_u32);
    reveal(bit_u16);
    reveal(with_bit_u32);
    reveal(with_bit_u16);
    assert(n <= 15 ==> (x & (((1u16 << n) - 1u16) as u16)) >> n == 0) by (bit_vector);
    assert forall|k: u16| k < n implies bit_u16(x & (((1u16 << n) - 1u16) as u16), k) == bit_u16(x, k) by {
        assert((n <= 15 && k < n) ==> ((x & (((1u16 << n) - 1u16) as u16)) >> k) & 1u16 == (x >> k) & 1u16)
            by (bit_vector);
    }
}

/// No bit of zero is set, and shifting zero gives zero.
pub proof fn lemma_zero_u32_bits()
    ensures
        forall|k: u32| k < 32 ==> !bit_u32(0u32, k),
        0u32 >> 0u32 == 0u32,
{
    reveal(bit_u32);
    assert forall|k: u32| k < 32 implies !bit_u32(0u32, k) by {
        assert(k < 32 ==> (0u32 >> k) & 1u32 == 0u32) by (bit_vector);
    }
    assert(0u32 >> 0u32 == 0u32) by (bit_vector);
}

/// No bit of zero is set, and shifting zero gives zero.
pub proof fn lemma_zero_u16_bits()
    ensures
        forall|k: u16| k < 16 ==> !bit_u16(0u16, k),
        0u16 >> 0u16 == 0u16,
{
    reveal(bit_u16);
    assert forall|k: u16| k < 16 implies !bit_u16(0u16, k) by {
        assert(k < 16 ==> (0u16 >> k) & 1u16 == 0u16) by (bit_vector);
    }
    assert(0u16 >> 0u16 == 0u16) by (bit_vector);
}

} // verus!
