//! Little-endian encoding of 32-bit words and sign extension of 16-bit
//! immediates, stated over integers and proved for the byte-level code.

use vstd::prelude::*;

verus! {

/// The 32-bit word whose little-endian bytes are `b0`, `b1`, `b2`, `b3`.
#[verifier::opaque]
pub open spec fn word_of(b0: u8, b1: u8, b2: u8, b3: u8) -> u32 {
    (b0 as int + 256 * (b1 as int) + 65536 * (b2 as int) + 16777216 * (b3 as int)) as u32
}

/// Byte `k` (0 is the least significant) of the word `v`.
#[verifier::opaque]
pub open spec fn byte_of(v: u32, k: int) -> u8 {
    if k == 0 {
        (v as int % 256) as u8
    } else if k == 1 {
        (v as int / 256 % 256) as u8
    } else if k == 2 {
        (v as int / 65536 % 256) as u8
    } else {
        (v as int / 16777216 % 256) as u8
    }
}

/// The four little-endian bytes of `v`, least significant first.
pub open spec fn bytes_of(v: u32) -> Seq<u8> {
    seq![byte_of(v, 0), byte_of(v, 1), byte_of(v, 2), byte_of(v, 3)]
}

/// The word read from the four bytes of `s` that start at `at`.
pub open spec fn word_at(s: Seq<u8>, at: int) -> u32
    recommends
        0 <= at,
        at + 4 <= s.len(),
{
    word_of(s[at], s[at + 1], s[at + 2], s[at + 3])
}

/// `s` with the four bytes that start at `at` replaced by the bytes of `v`.
pub open spec fn with_word(s: Seq<u8>, at: int, v: u32) -> Seq<u8>
    recommends
        0 <= at,
        at + 4 <= s.len(),
{
    s.update(at, byte_of(v, 0)).update(at + 1, byte_of(v, 1)).update(at + 2, byte_of(v, 2)).update(
        at + 3,
        byte_of(v, 3),
    )
}

/// The signed 16-bit number whose little-endian bytes are `lo`, `hi`.
pub open spec fn immediate_of(lo: u8, hi: u8) -> int {
    let raw = lo as int + 256 * (hi as int);
    if raw < 32768 {
        raw
    } else {
        raw - 65536
    }
}

/// The 32-bit two's-complement pattern of a signed number that fits in 32
/// bits.
pub open spec fn pattern_of(v: int) -> u32
    recommends
        -2147483648 <= v < 4294967296,
{
    if v < 0 {
        (v + 4294967296) as u32
    } else {
        v as u32
    }
}

/// The signed number that the pattern `v` stands for.
pub open spec fn signed_of(v: u32) -> int {
    if v as int >= 2147483648 {
        v as int - 4294967296
    } else {
        v as int
    }
}

/// `a - b` modulo 2^32.
pub open spec fn wrapping_difference(a: u32, b: u32) -> u32 {
    if a >= b {
        (a - b) as u32
    } else {
        (a as int - b as int + 4294967296) as u32
    }
}

/// Assembles a word from its little-endian bytes.
pub fn word_from_le(b0: u8, b1: u8, b2: u8, b3: u8) -> (v: u32)
    ensures
        v == word_of(b0, b1, b2, b3),
{
    reveal(word_of);
    let low: u32 = b0 as u32 + 256 * (b1 as u32);
    let high: u32 = b2 as u32 + 256 * (b3 as u32);
    low + 65536 * high
}

/// Splits a word into its little-endian bytes.
pub fn word_to_le(v: u32) -> (bytes: [u8; 4])
    ensures
        bytes@ == bytes_of(v),
{
    reveal(byte_of);
    let bytes = [
        (v % 256) as u8,
        (v / 256 % 256) as u8,
        (v / 65536 % 256) as u8,
        (v / 16777216 % 256) as u8,
    ];
    assert(bytes@ =~= bytes_of(v));
    bytes
}

/// Decodes a signed 16-bit immediate from its little-endian bytes.
pub fn immediate_from_le(lo: u8, hi: u8) -> (imm: i16)
    ensures
        imm == immediate_of(lo, hi),
{
    let raw: i32 = lo as i32 + 256 * (hi as i32);
    if raw < 32768 {
        raw as i16
    } else {
        (raw - 65536) as i16
    }
}

/// Extends a signed 16-bit immediate to a 32-bit pattern.
pub fn sign_extend(imm: i16) -> (v: u32)
    ensures
        v == pattern_of(imm as int),
        signed_of(v) == imm,
{
    if imm < 0 {
        let magnitude: u32 = (-(imm as i32)) as u32;
        4294967295u32 - magnitude + 1
    } else {
        imm as u32
    }
}

/// Reads a 32-bit pattern as a signed number.
pub fn to_signed(v: u32) -> (n: i32)
    ensures
        n == signed_of(v),
{
    if v >= 2147483648 {
        let below: u32 = 4294967295u32 - v;
        -(below as i32) - 1
    } else {
        v as i32
    }
}

/// Splitting a word into bytes and assembling it again gives the word back.
pub proof fn lemma_word_round_trip(v: u32)
    ensures
        word_of(byte_of(v, 0), byte_of(v, 1), byte_of(v, 2), byte_of(v, 3)) == v,
{
    reveal(word_of);
    reveal(byte_of);
}

/// Assembling a word from bytes and splitting it again gives the bytes back.
pub proof fn lemma_bytes_round_trip(b0: u8, b1: u8, b2: u8, b3: u8)
    ensures
        bytes_of(word_of(b0, b1, b2, b3)) =~= seq![b0, b1, b2, b3],
{
    reveal(word_of);
    reveal(byte_of);
}

/// A word written into a byte sequence is read back from the same place, and
/// the bytes outside the four written ones stay as they were.
pub proof fn lemma_with_word(s: Seq<u8>, at: int, v: u32)
    requires
        0 <= at,
        at + 4 <= s.len(),
    ensures
        with_word(s, at, v).len() == s.len(),
        word_at(with_word(s, at, v), at) == v,
        with_word(s, at, v).subrange(at, at + 4) =~= bytes_of(v),
        forall|i: int|
            0 <= i < s.len() && !(at <= i < at + 4) ==> #[trigger] with_word(s, at, v)[i] == s[i],
{
    lemma_word_round_trip(v);
}

} // verus!
