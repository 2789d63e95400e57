//! Tagged object words: integers, characters, booleans, nil and the error word.
use vstd::prelude::*;
use crate::common::{Uword, Word, K_INTEGER_MAX, K_INTEGER_MIN};

verus! {

/// The word of a tagged integer: the value shifted past the two tag bits.
pub open spec fn integer_word(value: int) -> int {
    value * 4
}

/// Bit facts behind the tagged encodings: shifting integers, characters and booleans into
/// place, and reading them back.
proof fn lemma_tagging_bits(value: i64, c: i64, b: i64)
    by (bit_vector)
    ensures
        -0x2000_0000_0000_0000i64 < value < 0x1fff_ffff_ffff_ffffi64 ==> {
            &&& (value << 2u32) | 0i64 == value * 4
            &&& ((value << 2u32) | 0i64) & 3 == 0
            &&& ((value * 4) as i64) >> 2 == value
        },
        value >> 2 == value / 4,
        (value >> 8) & 0xff == (value / 256) % 256,
        -0x8000_0000i64 <= c <= 0x7fff_ffffi64 ==> {
            &&& (c << 8u32) | 0x0Fi64 == c * 256 + 15
            &&& ((c * 256 + 15) as i64) & 0x1f == 0x0f
        },
        b == 0 || b == 1 ==> (b << 5u32) | 0x1Fi64 == b * 32 + 31,
        b == 63 ==> (b >> 5) & 1 == 1,
        b == 31 ==> (b >> 5) & 1 == 0,
{
}

/// Encode an integer into tagged object representation.
pub fn object_encode_integer(value: Word) -> (r: Word)
    requires
        K_INTEGER_MIN < value < K_INTEGER_MAX,
    ensures
        r == integer_word(value as int),
        r & 3 == 0,
{
    proof {
        lemma_tagging_bits(value, 0, 0);
    }
    (value << 2u32) | 0i64
}

/// Decode integer from tagged representation.
pub fn object_decode_integer(value: Word) -> (r: Word)
    ensures
        r == value >> 2,
        r as int == value as int / 4,
{
    proof {
        lemma_tagging_bits(value, 0, 0);
    }
    value >> 2u32
}

/// Encode character as tagged object.
pub fn object_encode_char(value: i32) -> (r: Word)
    ensures
        r == (value as int) * 256 + 15,
{
    let v = value as Word;
    proof {
        lemma_tagging_bits(0, v, 0);
    }
    (v << 8u32) | 0x0Fi64
}

/// Decode character from tagged representation.
pub fn object_decode_char(value: Word) -> (r: u8)
    ensures
        r as int == (value as int / 256) % 256,
{
    proof {
        lemma_tagging_bits(value, 0, 0);
    }
    ((value >> 8u32) & 0xFFi64) as u8
}

/// Encode boolean as tagged object.
/// true -> 63
/// false -> 31
pub fn object_encode_bool(value: bool) -> (r: Word)
    ensures
        r == if value { 63i64 } else { 31i64 },
{
    let b: Word = if value { 1 } else { 0 };
    proof {
        lemma_tagging_bits(0, 0, b);
    }
    (b << 5u32) | 0x1Fi64
}

/// Decode boolean from tagged representation.
pub fn object_decode_bool(value: Word) -> (r: bool)
    ensures
        r == ((value >> 5) & 1 != 0),
{
    ((value >> 5u32) & 1i64) != 0
}

/// Return encoded true object.
pub fn object_true() -> (r: Word)
    ensures
        r == 63,
{
    object_encode_bool(true)
}

/// Return encoded false object.
pub fn object_false() -> (r: Word)
    ensures
        r == 31,
{
    object_encode_bool(false)
}

/// Return encoded nil object.
pub fn object_nil() -> (r: Word)
    ensures
        r == 0x2f,
{
    0x2f
}

pub fn object_error() -> (r: Word)
    ensures
        r == 0x3f,
{
    0x3f
}

/// Return the heap address part of a pointer (strip tag bits).
pub fn object_address(obj: usize) -> (r: Uword)
    ensures
        r == (obj as u64) & 0xffff_ffff_ffff_fff0u64,
        r as int == obj as int - (obj as int % 16),
{
    let o = obj as u64;
    assert(o & 0xffff_ffff_ffff_fff0u64 == o - o % 16) by (bit_vector);
    o & 0xffff_ffff_ffff_fff0u64
}

/// Decoding an encoded integer gives the integer back.
pub proof fn lemma_integer_roundtrip(value: Word)
    requires
        K_INTEGER_MIN < value < K_INTEGER_MAX,
    ensures
        ((value * 4) as i64) >> 2 == value,
{
    lemma_tagging_bits(value, 0, 0);
}

/// Decoding an encoded character gives back its low byte; the word carries the char tag.
pub proof fn lemma_char_roundtrip(value: i32)
    ensures
        ((((value as int) * 256 + 15) / 256) % 256) == (value as int) % 256,
        (((value as int) * 256 + 15) as i64) & 0x1f == 0x0f,
{
    let w = ((value as int) * 256 + 15) as i64;
    assert(((value as int) * 256 + 15) / 256 == value as int) by (nonlinear_arith);
    let v = value as i64;
    lemma_tagging_bits(0, v, 0);
}

/// Decoding an encoded boolean gives the boolean back.
pub proof fn lemma_bool_roundtrip(value: bool)
    ensures
        (((if value { 63i64 } else { 31i64 }) >> 5) & 1 != 0) == value,
{
    lemma_tagging_bits(0, 0, 63);
    lemma_tagging_bits(0, 0, 31);
}

} // verus!
