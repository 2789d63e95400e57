//! The AArch64 logical-immediate encoding (DecodeBitMasks) and facts about it.
use vstd::prelude::*;
use vstd::std_specs::bits::{
    axiom_u64_leading_zeros, axiom_u64_trailing_zeros, u64_leading_zeros, u64_trailing_zeros,
};

verus! {

/// Right rotation of a 64-bit word; the amount is taken as given (0..64).
pub open spec fn ror64(x: u64, r: u64) -> u64 {
    (x >> r) | (x << ((64 - r) as u64))
}

/// All-ones mask of the low `e` bits (`e` in 1..=64).
pub open spec fn low_mask(e: u64) -> u64 {
    if e >= 64 { 0xffff_ffff_ffff_ffffu64 } else { ((1u64 << e) - 1) as u64 }
}

/// Copy the low `e` bits of `x` into every `e`-bit element of a word (`e` a power of two).
pub open spec fn replicate(x: u64, e: u64) -> u64 {
    let a = if e < 64 { x | (x << e) } else { x };
    let b = if e < 32 { a | (a << ((2 * e) as u64)) } else { a };
    let c = if e < 16 { b | (b << ((4 * e) as u64)) } else { b };
    let d = if e < 8 { c | (c << ((8 * e) as u64)) } else { c };
    if e < 4 { d | (d << ((16 * e) as u64)) } else { d }
}

/// Element size selected by the `n:imms` fields (0 when the pattern is reserved).
pub open spec fn element_size(n: u8, imms: u8) -> u64 {
    if n & 1 == 1 {
        64
    } else if imms & 32 == 0 {
        32
    } else if imms & 16 == 0 {
        16
    } else if imms & 8 == 0 {
        8
    } else if imms & 4 == 0 {
        4
    } else if imms & 2 == 0 {
        2
    } else {
        0
    }
}

/// Right rotation of the low `e` bits of `x` by `r` (`r < e`).
pub open spec fn ror_element(x: u64, r: u64, e: u64) -> u64 {
    ((x >> r) | (x << ((e - r) as u64))) & low_mask(e)
}

/// Whether `n:imms` names a usable element size and a run shorter than the element.
pub open spec fn bit_masks_valid(n: u8, imms: u8) -> bool {
    let e = element_size(n, imms);
    e != 0 && (imms as u64) & ((e - 1) as u64) != ((e - 1) as u64)
}

/// The 64-bit value of DecodeBitMasks: a run of `S + 1` ones, rotated right by `R`
/// inside an element of size `e`, copied into every element of the word.
pub open spec fn bit_masks_value(n: u8, imms: u8, immr: u8) -> u64 {
    let e = element_size(n, imms);
    let levels = (e - 1) as u64;
    let s = (imms as u64) & levels;
    let r = (immr as u64) & levels;
    replicate(ror_element(low_mask((s + 1) as u64), r, e), e)
}

/// DecodeBitMasks for logical instructions: the 64-bit value that `n:imms:immr` stands for.
pub open spec fn decode_bit_masks(n: u8, imms: u8, immr: u8) -> Option<u64> {
    if bit_masks_valid(n, imms) {
        Some(bit_masks_value(n, imms, immr))
    } else {
        None
    }
}

/// Bit `i` of `x`.
pub open spec fn bit_of(x: u64, i: u64) -> bool {
    (x >> i) & 1 == 1
}

proof fn lemma_ror_bit(x: u64, r: u64, i: u64)
    requires
        r < 64,
        i < 64,
    ensures
        bit_of(ror64(x, r), i) == bit_of(x, ((i + r) % 64) as u64),
{
    assert(r < 64 && i < 64 ==> (((ror64(x, r) >> i) & 1 == 1) == ((x >> (((i + r) % 64) as u64)) & 1 == 1)))
        by (bit_vector);
}

proof fn lemma_low_bits_agree(a: u64, b: u64, n: u64)
    requires
        n <= 64,
        forall|i: u64| i < n ==> bit_of(a, i) == bit_of(b, i),
    ensures
        a & low_mask(n) == b & low_mask(n),
    decreases n,
{
    if n == 0 {
        assert(a & low_mask(0) == 0 && b & low_mask(0) == 0) by (bit_vector);
    } else {
        let m = (n - 1) as u64;
        lemma_low_bits_agree(a, b, m);
        assert(bit_of(a, m) == bit_of(b, m));
        assert(m < 64 && a & low_mask(m) == b & low_mask(m) && (((a >> m) & 1 == 1) == ((b >> m) & 1 == 1))
            ==> a & low_mask((m + 1) as u64) == b & low_mask((m + 1) as u64)) by (bit_vector);
    }
}

/// Two words with the same 64 bits are equal.
proof fn lemma_bits_ext(a: u64, b: u64)
    requires
        forall|i: u64| i < 64 ==> bit_of(a, i) == bit_of(b, i),
    ensures
        a == b,
{
    lemma_low_bits_agree(a, b, 64);
    assert(a & low_mask(64) == a && b & low_mask(64) == b) by (bit_vector);
}

/// Rotating by `a` and then by `b` rotates by `a + b` (mod 64).
proof fn lemma_ror_compose(v: u64, a: u64, b: u64)
    requires
        a < 64,
        b < 64,
    ensures
        ror64(ror64(v, a), b) == ror64(v, ((a + b) % 64) as u64),
{
    assert forall|i: u64| i < 64 implies bit_of(ror64(ror64(v, a), b), i) == bit_of(ror64(v, ((a + b) % 64) as u64), i) by {
        lemma_ror_bit(ror64(v, a), b, i);
        lemma_ror_bit(v, a, ((i + b) % 64) as u64);
        lemma_ror_bit(v, ((a + b) % 64) as u64, i);
        assert((((i + b) % 64) + a) % 64 == (i + ((a + b) % 64)) % 64) by (nonlinear_arith);
    }
    lemma_bits_ext(ror64(ror64(v, a), b), ror64(v, ((a + b) % 64) as u64));
}

/// Element sizes that DecodeBitMasks can select.
pub open spec fn is_element_size(e: u64) -> bool {
    e == 2 || e == 4 || e == 8 || e == 16 || e == 32 || e == 64
}

/// A word that repeats with period `s`, whose top `z` bits are zero and whose low `o`
/// bits are one (with `z`, `o` exact), is `o` ones repeated in elements of size `s`.
proof fn lemma_periodic_run(x: u64, z: u64, o: u64, s: u64)
    requires
        z < 64,
        o < 64,
        (x >> ((63 - z) as u64)) & 1 == 1,
        x >> ((64 - z) as u64) == 0,
        ((!x) >> o) & 1 == 1,
        (!x) << ((64 - o) as u64) == 0,
        s == z + o,
        s != 0,
        ror64(x, s & 63) == x,
    ensures
        is_element_size(s),
        0 < o < s,
        x == replicate(low_mask(o), s),
{
    assert(
        z < 64 && o < 64 &&
        (x >> ((63 - z) as u64)) & 1 == 1 &&
        x >> ((64 - z) as u64) == 0 &&
        ((!x) >> o) & 1 == 1 &&
        (!x) << ((64 - o) as u64) == 0 &&
        s == z + o && s != 0 &&
        ror64(x, s & 63) == x ==> (s == 2 || s == 4 || s == 8 || s == 16 || s == 32 || s == 64)
            && 0 < o && o < s && x == replicate(low_mask(o), s)
    ) by (bit_vector);
}

/// The fields computed from an element size `e`, a run length `o` and a rotation `a`
/// decode to the run of `o` ones, repeated per element, rotated left by `a`.
proof fn lemma_fields_decode(e: u64, o: u64, a: u64)
    requires
        is_element_size(e),
        0 < o < e,
        a < 64,
    ensures
        bit_masks_valid(((e >> 6) & 1) as u8, ((((0 - (e << 1)) as u64) | ((o - 1) as u64)) & 0x3f) as u8),
        bit_masks_value(((e >> 6) & 1) as u8, ((((0 - (e << 1)) as u64) | ((o - 1) as u64)) & 0x3f) as u8,
            ((((0 - a) as u64) & ((e - 1) as u64)) & 0x3f) as u8)
            == ror64(replicate(low_mask(o), e), ((64 - a) % 64) as u64),
{
    if e == 2 {
        assert(0 < o < 2 && a < 64 ==>
        bit_masks_valid(((2u64 >> 6) & 1) as u8, ((((0 - (2u64 << 1)) as u64) | ((o - 1) as u64)) & 0x3f) as u8) &&
        bit_masks_value(((2u64 >> 6) & 1) as u8, ((((0 - (2u64 << 1)) as u64) | ((o - 1) as u64)) & 0x3f) as u8,
            ((((0 - a) as u64) & ((2u64 - 1) as u64)) & 0x3f) as u8)
            == ror64(replicate(low_mask(o), 2), ((64 - a) % 64) as u64)) by (bit_vector);
    } else if e == 4 {
        assert(0 < o < 4 && a < 64 ==>
        bit_masks_valid(((4u64 >> 6) & 1) as u8, ((((0 - (4u64 << 1)) as u64) | ((o - 1) as u64)) & 0x3f) as u8) &&
        bit_masks_value(((4u64 >> 6) & 1) as u8, ((((0 - (4u64 << 1)) as u64) | ((o - 1) as u64)) & 0x3f) as u8,
            ((((0 - a) as u64) & ((4u64 - 1) as u64)) & 0x3f) as u8)
            == ror64(replicate(low_mask(o), 4), ((64 - a) % 64) as u64)) by (bit_vector);
    } else if e == 8 {
        assert(0 < o < 8 && a < 64 ==>
        bit_masks_valid(((8u64 >> 6) & 1) as u8, ((((0 - (8u64 << 1)) as u64) | ((o - 1) as u64)) & 0x3f) as u8) &&
        bit_masks_value(((8u64 >> 6) & 1) as u8, ((((0 - (8u64 << 1)) as u64) | ((o - 1) as u64)) & 0x3f) as u8,
            ((((0 - a) as u64) & ((8u64 - 1) as u64)) & 0x3f) as u8)
            == ror64(replicate(low_mask(o), 8), ((64 - a) % 64) as u64)) by (bit_vector);
    } else if e == 16 {
        assert(0 < o < 16 && a < 64 ==>
        bit_masks_valid(((16u64 >> 6) & 1) as u8, ((((0 - (16u64 << 1)) as u64) | ((o - 1) as u64)) & 0x3f) as u8) &&
        bit_masks_value(((16u64 >> 6) & 1) as u8, ((((0 - (16u64 << 1)) as u64) | ((o - 1) as u64)) & 0x3f) as u8,
            ((((0 - a) as u64) & ((16u64 - 1) as u64)) & 0x3f) as u8)
            == ror64(replicate(low_mask(o), 16), ((64 - a) % 64) as u64)) by (bit_vector);
    } else if e == 32 {
        assert(0 < o < 32 && a < 64 ==>
        bit_masks_valid(((32u64 >> 6) & 1) as u8, ((((0 - (32u64 << 1)) as u64) | ((o - 1) as u64)) & 0x3f) as u8) &&
        bit_masks_value(((32u64 >> 6) & 1) as u8, ((((0 - (32u64 << 1)) as u64) | ((o - 1) as u64)) & 0x3f) as u8,
            ((((0 - a) as u64) & ((32u64 - 1) as u64)) & 0x3f) as u8)
            == ror64(replicate(low_mask(o), 32), ((64 - a) % 64) as u64)) by (bit_vector);
    } else {
        assert(0 < o < 64 && a < 64 ==>
        bit_masks_valid(((64u64 >> 6) & 1) as u8, ((((0 - (64u64 << 1)) as u64) | ((o - 1) as u64)) & 0x3f) as u8) &&
        bit_masks_value(((64u64 >> 6) & 1) as u8, ((((0 - (64u64 << 1)) as u64) | ((o - 1) as u64)) & 0x3f) as u8,
            ((((0 - a) as u64) & ((64u64 - 1) as u64)) & 0x3f) as u8)
            == ror64(replicate(low_mask(o), 64), ((64 - a) % 64) as u64)) by (bit_vector);
    }
}

/// For a word that DecodeBitMasks produces with element size `e`, the rotation found from
/// the lowest cleared run, the leading zeros and the trailing ones recover `e`.
#[verifier::rlimit(60)]
proof fn lemma_decoded_run(e: u64, v: u64, k: u64, r: u64, rot: u64, z: u64, o: u64)
    requires
        is_element_size(e),
        0 < k < e,
        r < e,
        v == replicate(ror_element(low_mask(k), r, e), e),
        rot <= 64,
        (v & ((v + 1) as u64)) == 0 <==> rot == 64,
        rot < 64 ==> ((v & ((v + 1) as u64)) >> rot) & 1 == 1,
        (v & ((v + 1) as u64)) << ((64 - rot) as u64) == 0,
        z <= 64,
        ror64(v, rot & 63) == 0 <==> z == 64,
        z < 64 ==> (ror64(v, rot & 63) >> ((63 - z) as u64)) & 1 == 1,
        ror64(v, rot & 63) >> ((64 - z) as u64) == 0,
        o <= 64,
        !ror64(v, rot & 63) == 0 <==> o == 64,
        o < 64 ==> ((!ror64(v, rot & 63)) >> o) & 1 == 1,
        (!ror64(v, rot & 63)) << ((64 - o) as u64) == 0,
    ensures
        z + o == e,
        ror64(v, e & 63) == v,
{
    if e == 2 {
        assert(
            0 < k < 2u64 && r < 2u64 &&
            v == replicate(ror_element(low_mask(k), r, 2u64), 2u64) &&
            rot <= 64 &&
            ((v & ((v + 1) as u64)) == 0 <==> rot == 64) &&
            (rot < 64 ==> ((v & ((v + 1) as u64)) >> rot) & 1 == 1) &&
            (v & ((v + 1) as u64)) << ((64 - rot) as u64) == 0 &&
            z <= 64 &&
            (ror64(v, rot & 63) == 0 <==> z == 64) &&
            (z < 64 ==> (ror64(v, rot & 63) >> ((63 - z) as u64)) & 1 == 1) &&
            ror64(v, rot & 63) >> ((64 - z) as u64) == 0 &&
            o <= 64 &&
            (!ror64(v, rot & 63) == 0 <==> o == 64) &&
            (o < 64 ==> ((!ror64(v, rot & 63)) >> o) & 1 == 1) &&
            (!ror64(v, rot & 63)) << ((64 - o) as u64) == 0
            ==> z + o == 2u64 && ror64(v, (2u64 & 63)) == v
        ) by (bit_vector);
    } else if e == 4 {
        assert(
            0 < k < 4u64 && r < 4u64 &&
            v == replicate(ror_element(low_mask(k), r, 4u64), 4u64) &&
            rot <= 64 &&
            ((v & ((v + 1) as u64)) == 0 <==> rot == 64) &&
            (rot < 64 ==> ((v & ((v + 1) as u64)) >> rot) & 1 == 1) &&
            (v & ((v + 1) as u64)) << ((64 - rot) as u64) == 0 &&
            z <= 64 &&
            (ror64(v, rot & 63) == 0 <==> z == 64) &&
            (z < 64 ==> (ror64(v, rot & 63) >> ((63 - z) as u64)) & 1 == 1) &&
            ror64(v, rot & 63) >> ((64 - z) as u64) == 0 &&
            o <= 64 &&
            (!ror64(v, rot & 63) == 0 <==> o == 64) &&
            (o < 64 ==> ((!ror64(v, rot & 63)) >> o) & 1 == 1) &&
            (!ror64(v, rot & 63)) << ((64 - o) as u64) == 0
            ==> z + o == 4u64 && ror64(v, (4u64 & 63)) == v
        ) by (bit_vector);
    } else if e == 8 {
        assert(
            0 < k < 8u64 && r < 8u64 &&
            v == replicate(ror_element(low_mask(k), r, 8u64), 8u64) &&
            rot <= 64 &&
            ((v & ((v + 1) as u64)) == 0 <==> rot == 64) &&
            (rot < 64 ==> ((v & ((v + 1) as u64)) >> rot) & 1 == 1) &&
            (v & ((v + 1) as u64)) << ((64 - rot) as u64) == 0 &&
            z <= 64 &&
            (ror64(v, rot & 63) == 0 <==> z == 64) &&
            (z < 64 ==> (ror64(v, rot & 63) >> ((63 - z) as u64)) & 1 == 1) &&
            ror64(v, rot & 63) >> ((64 - z) as u64) == 0 &&
            o <= 64 &&
            (!ror64(v, rot & 63) == 0 <==> o == 64) &&
            (o < 64 ==> ((!ror64(v, rot & 63)) >> o) & 1 == 1) &&
            (!ror64(v, rot & 63)) << ((64 - o) as u64) == 0
            ==> z + o == 8u64 && ror64(v, (8u64 & 63)) == v
        ) by (bit_vector);
    } else if e == 16 {
        assert(
            0 < k < 16u64 && r < 16u64 &&
            v == replicate(ror_element(low_mask(k), r, 16u64), 16u64) &&
            rot <= 64 &&
            ((v & ((v + 1) as u64)) == 0 <==> rot == 64) &&
            (rot < 64 ==> ((v & ((v + 1) as u64)) >> rot) & 1 == 1) &&
            (v & ((v + 1) as u64)) << ((64 - rot) as u64) == 0 &&
            z <= 64 &&
            (ror64(v, rot & 63) == 0 <==> z == 64) &&
            (z < 64 ==> (ror64(v, rot & 63) >> ((63 - z) as u64)) & 1 == 1) &&
            ror64(v, rot & 63) >> ((64 - z) as u64) == 0 &&
            o <= 64 &&
            (!ror64(v, rot & 63) == 0 <==> o == 64) &&
            (o < 64 ==> ((!ror64(v, rot & 63)) >> o) & 1 == 1) &&
            (!ror64(v, rot & 63)) << ((64 - o) as u64) == 0
            ==> z + o == 16u64 && ror64(v, (16u64 & 63)) == v
        ) by (bit_vector);
    } else if e == 32 {
        assert(
            0 < k < 32u64 && r < 32u64 &&
            v == replicate(ror_element(low_mask(k), r, 32u64), 32u64) &&
            rot <= 64 &&
            ((v & ((v + 1) as u64)) == 0 <==> rot == 64) &&
            (rot < 64 ==> ((v & ((v + 1) as u64)) >> rot) & 1 == 1) &&
            (v & ((v + 1) as u64)) << ((64 - rot) as u64) == 0 &&
            z <= 64 &&
            (ror64(v, rot & 63) == 0 <==> z == 64) &&
            (z < 64 ==> (ror64(v, rot & 63) >> ((63 - z) as u64)) & 1 == 1) &&
            ror64(v, rot & 63) >> ((64 - z) as u64) == 0 &&
            o <= 64 &&
            (!ror64(v, rot & 63) == 0 <==> o == 64) &&
            (o < 64 ==> ((!ror64(v, rot & 63)) >> o) & 1 == 1) &&
            (!ror64(v, rot & 63)) << ((64 - o) as u64) == 0
            ==> z + o == 32u64 && ror64(v, (32u64 & 63)) == v
        ) by (bit_vector);
    } else {
        assert(
            0 < k < 64u64 && r < 64u64 &&
            v == replicate(ror_element(low_mask(k), r, 64u64), 64u64) &&
            rot <= 64 &&
            ((v & ((v + 1) as u64)) == 0 <==> rot == 64) &&
            (rot < 64 ==> ((v & ((v + 1) as u64)) >> rot) & 1 == 1) &&
            (v & ((v + 1) as u64)) << ((64 - rot) as u64) == 0 &&
            z <= 64 &&
            (ror64(v, rot & 63) == 0 <==> z == 64) &&
            (z < 64 ==> (ror64(v, rot & 63) >> ((63 - z) as u64)) & 1 == 1) &&
            ror64(v, rot & 63) >> ((64 - z) as u64) == 0 &&
            o <= 64 &&
            (!ror64(v, rot & 63) == 0 <==> o == 64) &&
            (o < 64 ==> ((!ror64(v, rot & 63)) >> o) & 1 == 1) &&
            (!ror64(v, rot & 63)) << ((64 - o) as u64) == 0
            ==> z + o == 64u64 && ror64(v, (64u64 & 63)) == v
        ) by (bit_vector);
    }
}

/// `n:imms:immr` is the canonical logical-immediate encoding of `v`: the fields are in
/// range, the rotation is smaller than the element, and DecodeBitMasks gives `v`.
pub open spec fn encodes_logical_imm(n: u8, imms: u8, immr: u8, v: u64) -> bool {
    &&& n <= 1
    &&& imms < 64
    &&& (immr as u64) < element_size(n, imms)
    &&& decode_bit_masks(n, imms, immr) == Some(v)
}

/// `v` can be the immediate operand of an AArch64 logical instruction.
pub open spec fn is_logical_imm(v: u64) -> bool {
    exists|n: u8, imms: u8, immr: u8| encodes_logical_imm(n, imms, immr, v)
}

proof fn lemma_ror_zero(v: u64)
    ensures
        ror64(v, 0) == v,
{
    assert(ror64(v, 0) == v) by (bit_vector);
}

/// The fields that the search finds for a word that passes its two checks encode the word.
pub proof fn lemma_search_sound(v: u64, rot: u64, z: u64, o: u64)
    requires
        rot <= 64,
        (v & ((v + 1) as u64)) == 0 <==> rot == 64,
        rot < 64 ==> ((v & ((v + 1) as u64)) >> rot) & 1 == 1,
        (v & ((v + 1) as u64)) << ((64 - rot) as u64) == 0,
        z < 64,
        (ror64(v, rot & 63) >> ((63 - z) as u64)) & 1 == 1,
        ror64(v, rot & 63) >> ((64 - z) as u64) == 0,
        o < 64,
        ((!ror64(v, rot & 63)) >> o) & 1 == 1,
        (!ror64(v, rot & 63)) << ((64 - o) as u64) == 0,
        z + o != 0,
        ror64(v, ((z + o) as u64) & 63) == v,
    ensures
        encodes_logical_imm(
            ((((z + o) as u64) >> 6) & 1) as u8,
            ((((0 - (((z + o) as u64) << 1)) as u64) | ((o - 1) as u64)) & 0x3f) as u8,
            ((((0 - rot) as u64) & (((z + o) - 1) as u64)) & 0x3f) as u8,
            v,
        ),
{
    let a = rot & 63;
    let s = (z + o) as u64;
    let x = ror64(v, a);
    assert((rot & 63) < 64 && (s & 63) < 64) by (bit_vector);
    // x repeats with period s, because v does
    lemma_ror_compose(v, a, s & 63);
    lemma_ror_compose(v, s & 63, a);
    assert(((a + (s & 63)) % 64) as u64 == (((s & 63) + a) % 64) as u64);
    assert(ror64(x, s & 63) == x);
    lemma_periodic_run(x, z, o, s);
    // v is x rotated back
    lemma_ror_compose(v, a, ((64 - a) % 64) as u64);
    assert(((a + ((64 - a) % 64) as u64) % 64) as u64 == 0);
    lemma_ror_zero(v);
    lemma_fields_decode(s, o, a);
    assert(is_element_size(s) ==> ((((0 - rot) as u64) & ((s - 1) as u64)) & 0x3f)
        == ((((0 - a) as u64) & ((s - 1) as u64)) & 0x3f)) by (bit_vector)
        requires a == rot & 63;
    assert(is_element_size(s) && 0 < o < s ==> {
        &&& (((s >> 6) & 1) as u8) <= 1
        &&& (((((0 - (s << 1)) as u64) | ((o - 1) as u64)) & 0x3f) as u8) < 64
        &&& element_size(((s >> 6) & 1) as u8, ((((0 - (s << 1)) as u64) | ((o - 1) as u64)) & 0x3f) as u8) == s
        &&& ((((((0 - a) as u64) & ((s - 1) as u64)) & 0x3f) as u8) as u64) < s
    }) by (bit_vector);
}

/// A word with a canonical encoding passes both checks of the search.
pub proof fn lemma_search_complete(v: u64, n: u8, imms: u8, immr: u8, rot: u64, z: u64, o: u64)
    requires
        encodes_logical_imm(n, imms, immr, v),
        rot <= 64,
        (v & ((v + 1) as u64)) == 0 <==> rot == 64,
        rot < 64 ==> ((v & ((v + 1) as u64)) >> rot) & 1 == 1,
        (v & ((v + 1) as u64)) << ((64 - rot) as u64) == 0,
        z <= 64,
        ror64(v, rot & 63) == 0 <==> z == 64,
        z < 64 ==> (ror64(v, rot & 63) >> ((63 - z) as u64)) & 1 == 1,
        ror64(v, rot & 63) >> ((64 - z) as u64) == 0,
        o <= 64,
        !ror64(v, rot & 63) == 0 <==> o == 64,
        o < 64 ==> ((!ror64(v, rot & 63)) >> o) & 1 == 1,
        (!ror64(v, rot & 63)) << ((64 - o) as u64) == 0,
    ensures
        z + o != 0,
        ror64(v, ((z + o) as u64) & 63) == v,
{
    let e = element_size(n, imms);
    let levels = (e - 1) as u64;
    let k = (((imms as u64) & levels) + 1) as u64;
    let r = (immr as u64) & levels;
    assert(is_element_size(e));
    assert(is_element_size(e) && (imms as u64) & ((e - 1) as u64) != ((e - 1) as u64) ==> {
        &&& 0 < ((((imms as u64) & ((e - 1) as u64)) + 1) as u64)
        &&& ((((imms as u64) & ((e - 1) as u64)) + 1) as u64) < e
        &&& ((immr as u64) & ((e - 1) as u64)) < e
    }) by (bit_vector);
    lemma_decoded_run(e, v, k, r, rot, z, o);
    assert(is_element_size(e) ==> e & 63 == ((e as u64) & 63)) by (bit_vector);
}

/// Neither zero nor the all-ones word has a logical-immediate encoding.
pub proof fn lemma_no_encoding_of_all_zeros_or_ones(v: u64)
    requires
        v == 0 || v == 0xffff_ffff_ffff_ffffu64,
    ensures
        !is_logical_imm(v),
{
    if is_logical_imm(v) {
        let (n, imms, immr) = choose|n: u8, imms: u8, immr: u8| encodes_logical_imm(n, imms, immr, v);
        let e = element_size(n, imms);
        let levels = (e - 1) as u64;
        let k = (((imms as u64) & levels) + 1) as u64;
        let r = (immr as u64) & levels;
        assert(is_element_size(e));
        assert(is_element_size(e) && (imms as u64) & ((e - 1) as u64) != ((e - 1) as u64) ==> {
            &&& 0 < ((((imms as u64) & ((e - 1) as u64)) + 1) as u64)
            &&& ((((imms as u64) & ((e - 1) as u64)) + 1) as u64) < e
            &&& ((immr as u64) & ((e - 1) as u64)) < e
        }) by (bit_vector);
        assert(is_element_size(e) && 0 < k < e && r < e ==> {
            &&& replicate(ror_element(low_mask(k), r, e), e) != 0
            &&& replicate(ror_element(low_mask(k), r, e), e) != 0xffff_ffff_ffff_ffffu64
        }) by (bit_vector);
    }
}

/// When the search rejects a word (zero pattern width, or a width the word does not
/// repeat with), the word has no encoding.
pub proof fn lemma_not_encodable_when_search_fails(v: u64, rot: u64, z: u64, o: u64)
    requires
        rot <= 64,
        (v & ((v + 1) as u64)) == 0 <==> rot == 64,
        rot < 64 ==> ((v & ((v + 1) as u64)) >> rot) & 1 == 1,
        (v & ((v + 1) as u64)) << ((64 - rot) as u64) == 0,
        z <= 64,
        ror64(v, rot & 63) == 0 <==> z == 64,
        z < 64 ==> (ror64(v, rot & 63) >> ((63 - z) as u64)) & 1 == 1,
        ror64(v, rot & 63) >> ((64 - z) as u64) == 0,
        o <= 64,
        !ror64(v, rot & 63) == 0 <==> o == 64,
        o < 64 ==> ((!ror64(v, rot & 63)) >> o) & 1 == 1,
        (!ror64(v, rot & 63)) << ((64 - o) as u64) == 0,
        z + o == 0 || ror64(v, ((z + o) as u64) & 63) != v,
    ensures
        !is_logical_imm(v),
{
    if is_logical_imm(v) {
        let (n, imms, immr) = choose|n: u8, imms: u8, immr: u8| encodes_logical_imm(n, imms, immr, v);
        lemma_search_complete(v, n, imms, immr, rot, z, o);
    }
}

/// `u64::trailing_zeros`, in the shift form the lemmas above use.
pub proof fn lemma_trailing_zeros_facts(i: u64)
    ensures
        u64_trailing_zeros(i) <= 64,
        i == 0 <==> u64_trailing_zeros(i) == 64,
        u64_trailing_zeros(i) < 64 ==> (i >> (u64_trailing_zeros(i) as u64)) & 1 == 1,
        i << ((64 - u64_trailing_zeros(i)) as u64) == 0,
{
    axiom_u64_trailing_zeros(i);
}

/// `u64::leading_zeros`, in the shift form the lemmas above use.
pub proof fn lemma_leading_zeros_facts(i: u64)
    ensures
        0 <= u64_leading_zeros(i) <= 64,
        i == 0 <==> u64_leading_zeros(i) == 64,
        u64_leading_zeros(i) < 64 ==> (i >> ((63 - u64_leading_zeros(i)) as u64)) & 1 == 1,
        i >> ((64 - u64_leading_zeros(i)) as u64) == 0,
{
    axiom_u64_leading_zeros(i);
    let y = i >> ((63 - u64_leading_zeros(i)) as u64);
    assert(y & 1 != 0 ==> y & 1 == 1) by (bit_vector);
}

/// A run of `k` low ones (`0 < k < 64`) is encodable, and only as
/// `n = 1, imms = k - 1, immr = 0`.
pub proof fn lemma_low_ones_encoding(k: u64, n: u8, imms: u8, immr: u8)
    requires
        0 < k < 64,
    ensures
        encodes_logical_imm(1, (k - 1) as u8, 0, low_mask(k)),
        is_logical_imm(low_mask(k)),
        encodes_logical_imm(n, imms, immr, low_mask(k)) ==> n == 1 && imms == (k - 1) as u8 && immr == 0,
{
    assert(0 < k < 64 ==> bit_masks_valid(1, (k - 1) as u8) && bit_masks_value(1, (k - 1) as u8, 0) == low_mask(k)
        && element_size(1, (k - 1) as u8) == 64 && ((k - 1) as u8) < 64) by (bit_vector);
    assert(encodes_logical_imm(1, (k - 1) as u8, 0, low_mask(k)));
    if encodes_logical_imm(n, imms, immr, low_mask(k)) {
        assert(0 < k < 64 && n <= 1 && imms < 64 && (immr as u64) < element_size(n, imms)
            && bit_masks_valid(n, imms) && bit_masks_value(n, imms, immr) == low_mask(k)
            ==> n == 1 && imms == (k - 1) as u8 && immr == 0) by (bit_vector);
    }
}

/// Two canonical encodings of one word with the same element size are the same.
proof fn lemma_same_element_same_fields(e: u64, v: u64, n1: u8, imms1: u8, immr1: u8, n2: u8, imms2: u8, immr2: u8)
    requires
        is_element_size(e),
        element_size(n1, imms1) == e,
        element_size(n2, imms2) == e,
        encodes_logical_imm(n1, imms1, immr1, v),
        encodes_logical_imm(n2, imms2, immr2, v),
    ensures
        n1 == n2 && imms1 == imms2 && immr1 == immr2,
{
    if e == 2 {
        assert(n1 <= 1 && imms1 < 64 && (immr1 as u64) < 2u64 && element_size(n1, imms1) == 2u64
            && bit_masks_valid(n1, imms1) && bit_masks_value(n1, imms1, immr1) == v
            && n2 <= 1 && imms2 < 64 && (immr2 as u64) < 2u64 && element_size(n2, imms2) == 2u64
            && bit_masks_valid(n2, imms2) && bit_masks_value(n2, imms2, immr2) == v
            ==> n1 == n2 && imms1 == imms2 && immr1 == immr2) by (bit_vector);
    } else if e == 4 {
        assert(n1 <= 1 && imms1 < 64 && (immr1 as u64) < 4u64 && element_size(n1, imms1) == 4u64
            && bit_masks_valid(n1, imms1) && bit_masks_value(n1, imms1, immr1) == v
            && n2 <= 1 && imms2 < 64 && (immr2 as u64) < 4u64 && element_size(n2, imms2) == 4u64
            && bit_masks_valid(n2, imms2) && bit_masks_value(n2, imms2, immr2) == v
            ==> n1 == n2 && imms1 == imms2 && immr1 == immr2) by (bit_vector);
    } else if e == 8 {
        assert(n1 <= 1 && imms1 < 64 && (immr1 as u64) < 8u64 && element_size(n1, imms1) == 8u64
            && bit_masks_valid(n1, imms1) && bit_masks_value(n1, imms1, immr1) == v
            && n2 <= 1 && imms2 < 64 && (immr2 as u64) < 8u64 && element_size(n2, imms2) == 8u64
            && bit_masks_valid(n2, imms2) && bit_masks_value(n2, imms2, immr2) == v
            ==> n1 == n2 && imms1 == imms2 && immr1 == immr2) by (bit_vector);
    } else if e == 16 {
        assert(n1 <= 1 && imms1 < 64 && (immr1 as u64) < 16u64 && element_size(n1, imms1) == 16u64
            && bit_masks_valid(n1, imms1) && bit_masks_value(n1, imms1, immr1) == v
            && n2 <= 1 && imms2 < 64 && (immr2 as u64) < 16u64 && element_size(n2, imms2) == 16u64
            && bit_masks_valid(n2, imms2) && bit_masks_value(n2, imms2, immr2) == v
            ==> n1 == n2 && imms1 == imms2 && immr1 == immr2) by (bit_vector);
    } else if e == 32 {
        assert(n1 <= 1 && imms1 < 64 && (immr1 as u64) < 32u64 && element_size(n1, imms1) == 32u64
            && bit_masks_valid(n1, imms1) && bit_masks_value(n1, imms1, immr1) == v
            && n2 <= 1 && imms2 < 64 && (immr2 as u64) < 32u64 && element_size(n2, imms2) == 32u64
            && bit_masks_valid(n2, imms2) && bit_masks_value(n2, imms2, immr2) == v
            ==> n1 == n2 && imms1 == imms2 && immr1 == immr2) by (bit_vector);
    } else {
        assert(n1 <= 1 && imms1 < 64 && (immr1 as u64) < 64u64 && element_size(n1, imms1) == 64u64
            && bit_masks_valid(n1, imms1) && bit_masks_value(n1, imms1, immr1) == v
            && n2 <= 1 && imms2 < 64 && (immr2 as u64) < 64u64 && element_size(n2, imms2) == 64u64
            && bit_masks_valid(n2, imms2) && bit_masks_value(n2, imms2, immr2) == v
            ==> n1 == n2 && imms1 == imms2 && immr1 == immr2) by (bit_vector);
    }
}

/// The pattern width that the search finds, for any encoding of the word.
proof fn lemma_encoding_width(v: u64, n: u8, imms: u8, immr: u8)
    requires
        encodes_logical_imm(n, imms, immr, v),
    ensures
        ({
            let rot = u64_trailing_zeros(v & ((v + 1) as u64)) as u64;
            let x = ror64(v, rot & 63);
            element_size(n, imms) == u64_leading_zeros(x) + u64_trailing_zeros(!x)
        }),
{
    let rot = u64_trailing_zeros(v & ((v + 1) as u64)) as u64;
    let x = ror64(v, rot & 63);
    lemma_trailing_zeros_facts(v & ((v + 1) as u64));
    lemma_leading_zeros_facts(x);
    lemma_trailing_zeros_facts(!x);
    let z = u64_leading_zeros(x) as u64;
    let o = u64_trailing_zeros(!x) as u64;
    let e = element_size(n, imms);
    let levels = (e - 1) as u64;
    let k = (((imms as u64) & levels) + 1) as u64;
    let r = (immr as u64) & levels;
    assert(is_element_size(e));
    assert(is_element_size(e) && (imms as u64) & ((e - 1) as u64) != ((e - 1) as u64) ==> {
        &&& 0 < ((((imms as u64) & ((e - 1) as u64)) + 1) as u64)
        &&& ((((imms as u64) & ((e - 1) as u64)) + 1) as u64) < e
        &&& ((immr as u64) & ((e - 1) as u64)) < e
    }) by (bit_vector);
    lemma_decoded_run(e, v, k, r, rot, z, o);
}

/// A word has at most one canonical logical-immediate encoding.
pub proof fn lemma_logical_imm_unique(v: u64, n1: u8, imms1: u8, immr1: u8, n2: u8, imms2: u8, immr2: u8)
    requires
        encodes_logical_imm(n1, imms1, immr1, v),
        encodes_logical_imm(n2, imms2, immr2, v),
    ensures
        n1 == n2 && imms1 == imms2 && immr1 == immr2,
{
    lemma_encoding_width(v, n1, imms1, immr1);
    lemma_encoding_width(v, n2, imms2, immr2);
    lemma_same_element_same_fields(element_size(n1, imms1), v, n1, imms1, immr1, n2, imms2, immr2);
}

/// Bit `i` of the word DecodeBitMasks builds from a run of `k` ones rotated right by `r`
/// in elements of size `e`: set exactly when `(i + r) mod e < k`.
proof fn lemma_decoded_bit(e: u64, k: u64, r: u64, i: u64)
    by (bit_vector)
    requires
        e == 2 || e == 4 || e == 8 || e == 16 || e == 32 || e == 64,
        0 < k < e,
        r < e,
        i < 64,
    ensures
        ((replicate(ror_element(low_mask(k), r, e), e) >> i) & 1 == 1) == ((((i + r) as u64) & ((e - 1) as u64)) < k),
{
}

/// Field and index facts for an element size `e`: the fields that write a run of `k` ones
/// rotated by `r`, what fields `imms`, `immr` read as, the index arithmetic of rotating
/// and complementing a run, and a bit of a complement.
proof fn lemma_run_bits(e: u64, k: u64, r: u64, imms: u8, immr: u8, s: u64, i: u64, x: u64)
    by (bit_vector)
    requires
        e == 2 || e == 4 || e == 8 || e == 16 || e == 32 || e == 64,
    ensures
        0 < k < e && r < e ==> {
            &&& (((e >> 6) & 1) as u8) <= 1
            &&& ((((0 - (e << 1)) as u64) | ((k - 1) as u64)) & 0x3f) < 64
            &&& element_size(((e >> 6) & 1) as u8, (((((0 - (e << 1)) as u64) | ((k - 1) as u64)) & 0x3f) as u8)) == e
            &&& ((((((0 - (e << 1)) as u64) | ((k - 1) as u64)) & 0x3f) as u8) as u64) & ((e - 1) as u64) == k - 1
            &&& ((r as u8) as u64) & ((e - 1) as u64) == r
            &&& ((r as u8) as u64) < e
        },
        (imms as u64) & ((e - 1) as u64) != ((e - 1) as u64) ==> {
            &&& 0 < (((imms as u64) & ((e - 1) as u64)) + 1) as u64
            &&& ((((imms as u64) & ((e - 1) as u64)) + 1) as u64) < e
            &&& ((immr as u64) & ((e - 1) as u64)) < e
        },
        0 < k < e && r < e && s < 64 && i < 64 ==> {
            &&& (((r + s) as u64) & ((e - 1) as u64)) < e
            &&& ((((((i + s) % 64) as u64) + r) as u64) & ((e - 1) as u64))
                == (((i + (((r + s) as u64) & ((e - 1) as u64))) as u64) & ((e - 1) as u64))
            &&& (((r + e - k) as u64) & ((e - 1) as u64)) < e
            &&& ((((i + r) as u64) & ((e - 1) as u64)) >= k)
                == ((((i + (((r + e - k) as u64) & ((e - 1) as u64))) as u64) & ((e - 1) as u64)) < ((e - k) as u64))
        },
        i < 64 ==> ((((!x) >> i) & 1 == 1) == !((x >> i) & 1 == 1)),
        !(!x) == x,
{
}

/// The element size, run length and rotation of a logical immediate.
proof fn lemma_run_of(v: u64) -> (t: (u64, u64, u64))
    requires
        is_logical_imm(v),
    ensures
        is_element_size(t.0),
        0 < t.1 < t.0,
        t.2 < t.0,
        v == replicate(ror_element(low_mask(t.1), t.2, t.0), t.0),
{
    let (n, imms, immr) = choose|n: u8, imms: u8, immr: u8| encodes_logical_imm(n, imms, immr, v);
    let e = element_size(n, imms);
    assert(is_element_size(e));
    lemma_run_bits(e, 0, 0, imms, immr, 0, 0, 0);
    let k = (((imms as u64) & ((e - 1) as u64)) + 1) as u64;
    let r = (immr as u64) & ((e - 1) as u64);
    (e, k, r)
}

/// A run of `k` ones rotated right by `r` in elements of size `e` is a logical immediate.
proof fn lemma_run_encodable(e: u64, k: u64, r: u64)
    requires
        is_element_size(e),
        0 < k < e,
        r < e,
    ensures
        is_logical_imm(replicate(ror_element(low_mask(k), r, e), e)),
{
    lemma_run_bits(e, k, r, 0, 0, 0, 0, 0);
    let n = ((e >> 6) & 1) as u8;
    let imms = ((((0 - (e << 1)) as u64) | ((k - 1) as u64)) & 0x3f) as u8;
    let immr = r as u8;
    assert(encodes_logical_imm(n, imms, immr, replicate(ror_element(low_mask(k), r, e), e)));
}

/// A rotated logical immediate is one.
proof fn lemma_rotate_keeps_logical_imm(v: u64, s: u64)
    requires
        is_logical_imm(v),
        s < 64,
    ensures
        is_logical_imm(ror64(v, s)),
{
    let (e, k, r) = lemma_run_of(v);
    lemma_run_bits(e, k, r, 0, 0, s, 0, 0);
    let r2 = ((r + s) as u64) & ((e - 1) as u64);
    let w = replicate(ror_element(low_mask(k), r2, e), e);
    assert forall|i: u64| i < 64 implies bit_of(ror64(v, s), i) == bit_of(w, i) by {
        lemma_ror_bit(v, s, i);
        lemma_decoded_bit(e, k, r, ((i + s) % 64) as u64);
        lemma_decoded_bit(e, k, r2, i);
        lemma_run_bits(e, k, r, 0, 0, s, i, 0);
    }
    lemma_bits_ext(ror64(v, s), w);
    lemma_run_encodable(e, k, r2);
}

/// The complement of a logical immediate is one.
proof fn lemma_complement_keeps_logical_imm(v: u64)
    requires
        is_logical_imm(v),
    ensures
        is_logical_imm(!v),
{
    let (e, k, r) = lemma_run_of(v);
    lemma_run_bits(e, k, r, 0, 0, 0, 0, 0);
    let k2 = (e - k) as u64;
    let r2 = ((r + e - k) as u64) & ((e - 1) as u64);
    let w = replicate(ror_element(low_mask(k2), r2, e), e);
    assert forall|i: u64| i < 64 implies bit_of(!v, i) == bit_of(w, i) by {
        lemma_run_bits(e, k, r, 0, 0, 0, i, v);
        lemma_decoded_bit(e, k, r, i);
        lemma_decoded_bit(e, k2, r2, i);
    }
    lemma_bits_ext(!v, w);
    lemma_run_encodable(e, k2, r2);
}

/// Logical immediates are closed under complement: `v` is one exactly when `!v` is.
pub proof fn lemma_logical_imm_complement(v: u64)
    ensures
        is_logical_imm(v) == is_logical_imm(!v),
{
    if is_logical_imm(v) {
        lemma_complement_keeps_logical_imm(v);
    }
    if is_logical_imm(!v) {
        lemma_complement_keeps_logical_imm(!v);
        lemma_run_bits(2, 0, 0, 0, 0, 0, 0, v);
    }
}

/// Logical immediates are closed under rotation: `v` is one exactly when `v` rotated right
/// by `s` is.
pub proof fn lemma_logical_imm_rotate(v: u64, s: u64)
    requires
        s < 64,
    ensures
        is_logical_imm(v) == is_logical_imm(ror64(v, s)),
{
    if is_logical_imm(v) {
        lemma_rotate_keeps_logical_imm(v, s);
    }
    let back = ((64 - s) % 64) as u64;
    if is_logical_imm(ror64(v, s)) {
        lemma_rotate_keeps_logical_imm(ror64(v, s), back);
        lemma_ror_compose(v, s, back);
        assert(((s + back) % 64) as u64 == 0);
        lemma_ror_zero(v);
    }
}

} // verus!
