//! AArch64 instruction words and a code buffer that collects them, with the labels a
//! buffer defines and the call sites that refer to labels.
use vstd::prelude::*;
use crate::common::{
    Cond, IVCond, RegisterX, Shift, ADD_IMM, ADD_SHIFTED_REG, AND_IMM, BL, B_COND, CSEL, CSET,
    LDP, LDR_IMM, MOVZ, ORR_IMM, ORR_SHIFTED_REG, RET, STP, STR_IMM, SUBS_IMM, SUBS_SHIFTED_REG,
    SUB_IMM, SUB_SHIFTED_REG, SVC, UBFM,
};
use crate::labelmap::{LabelCalls, LabelOffsets};
use crate::listing::{arm64_disassembly, disassembly_listing, le_bytes, listing_text};

verus! {

/// 1 for true, 0 for false.
pub open spec fn b2u(b: bool) -> u32 {
    if b { 1 } else { 0 }
}

// Instruction words. Register arguments are register numbers (`RegisterX::num`).

/// MOVZ: `imm` at bit 5, `hw & 3` at bit 21, `sf` at bit 31; the register number is
/// ORed in without a mask.
pub open spec fn movz_word(rd: u8, imm: u16, hw: u8, is_64: bool) -> u32 {
    MOVZ | (b2u(is_64) << 31) | (((hw & 0x3) as u32) << 21) | ((imm as u32) << 5) | (rd as u32)
}

/// The shifted-register data-processing layout: `sf`, shift kind at bit 22, `rm` at 16,
/// `imm6` at 10, `rn` at 5, `rd` at 0.
pub open spec fn shifted_reg_word(base: u32, rd: u8, rn: u8, rm: u8, imm6: u8, shift_bits: u8, is_64: bool) -> u32 {
    base | (b2u(is_64) << 31) | ((shift_bits as u32) << 22) | (((imm6 & 0x3f) as u32) << 10)
        | (((rm & 0x1f) as u32) << 16) | (((rn & 0x1f) as u32) << 5) | ((rd & 0x1f) as u32)
}

/// ORR (shifted register); only bit 1 of the shift kind is kept.
pub open spec fn orr_shifted_reg_word(rd: u8, rn: u8, rm: u8, imm6: u8, shift: u8, is_64: bool) -> u32 {
    shifted_reg_word(ORR_SHIFTED_REG, rd, rn, rm, imm6, shift & 0x2, is_64)
}

pub open spec fn add_shifted_reg_word(rd: u8, rn: u8, rm: u8, imm6: u8, shift: u8, is_64: bool) -> u32 {
    shifted_reg_word(ADD_SHIFTED_REG, rd, rn, rm, imm6, shift & 0x3, is_64)
}

pub open spec fn sub_shifted_reg_word(rd: u8, rn: u8, rm: u8, imm6: u8, shift: u8, is_64: bool) -> u32 {
    shifted_reg_word(SUB_SHIFTED_REG, rd, rn, rm, imm6, shift & 0x3, is_64)
}

pub open spec fn subs_shifted_reg_word(rd: u8, rn: u8, rm: u8, imm6: u8, shift: u8, is_64: bool) -> u32 {
    shifted_reg_word(SUBS_SHIFTED_REG, rd, rn, rm, imm6, shift & 0x3, is_64)
}

/// RET: the register at bit 5.
pub open spec fn ret_word(reg: u8) -> u32 {
    RET | (((reg & 0x1f) as u32) << 5)
}

/// The add/subtract-immediate layout: `sf`, `sh` at bit 22, `imm12` at 10, `rn` at 5, `rd` at 0.
pub open spec fn imm12_word(base: u32, rn: u8, rd: u8, imm12: u16, shift: bool, is_64: bool) -> u32 {
    base | (b2u(is_64) << 31) | (b2u(shift) << 22) | (((imm12 & 0xfff) as u32) << 10)
        | (((rn & 0x1f) as u32) << 5) | ((rd & 0x1f) as u32)
}

/// The bitfield and logical-immediate layout: `sf`, `n` at bit 22, `immr` at 16, `imms` at 10,
/// `rn` at 5, `rd` at 0.
pub open spec fn bitfield_word(base: u32, rn: u8, rd: u8, immr: u8, imms: u8, n: bool, is_64: bool) -> u32 {
    base | (b2u(is_64) << 31) | (b2u(n) << 22) | (((immr & 0x3f) as u32) << 16)
        | (((imms & 0x3f) as u32) << 10) | (((rn & 0x1f) as u32) << 5) | ((rd & 0x1f) as u32)
}

/// CSEL: `rm` at 16, condition at 12, `rn` at 5, `rd` at 0.
pub open spec fn csel_word(rm: u8, rn: u8, rd: u8, cond: u8, is_64: bool) -> u32 {
    CSEL | (b2u(is_64) << 31) | (((rm & 0x1f) as u32) << 16) | (((cond & 0xf) as u32) << 12)
        | (((rn & 0x1f) as u32) << 5) | ((rd & 0x1f) as u32)
}

/// CSET (an alias of CSINC with the inverted condition at bit 12).
pub open spec fn cset_word(rd: u8, cond: u8, is_64: bool) -> u32 {
    CSET | (b2u(is_64) << 31) | (((cond & 0xf) as u32) << 12) | ((rd & 0x1f) as u32)
}

/// The addressing-mode bits 23..24 of a load/store pair: signed offset 2, pre-index 3,
/// post-index 1.
pub open spec fn pair_mode(is_pre_index: bool, is_signed_offset: bool) -> u32 {
    if is_signed_offset { 2 } else if is_pre_index { 3 } else { 1 }
}

/// The load/store-pair layout: mode at 23, `sf` at 31, `imm7` at 15, `rt2` at 10, `rn` at 5, `rt` at 0.
pub open spec fn pair_word(base: u32, rn: u8, rt: u8, rt2: u8, imm: i8, is_pre_index: bool, is_signed_offset: bool, is_64: bool) -> u32 {
    base | (pair_mode(is_pre_index, is_signed_offset) << 23) | (b2u(is_64) << 31)
        | (((imm & 0x7f) as u32) << 15) | (((rt2 & 0x1f) as u32) << 10) | (((rn & 0x1f) as u32) << 5)
        | ((rt & 0x1f) as u32)
}

/// The single-register load/store layout: size bit 30; unsigned offset sets bit 24 and puts
/// `imm12` at 10, otherwise bit 10 is set, bit 11 is the pre-index flag and `imm9` is at 12.
pub open spec fn load_store_word(base: u32, rn: u8, rt: u8, imm: i16, is_pre_index: bool, is_unsigned_offset: bool, is_64: bool) -> u32 {
    let with_size = base | (b2u(is_64) << 30);
    let with_offset = if is_unsigned_offset {
        with_size | (1u32 << 24) | (((imm & 0x0fff) as u32) << 10)
    } else {
        with_size | (1u32 << 10) | (b2u(is_pre_index) << 11) | (((imm & 0x01ff) as u32) << 12)
    };
    with_offset | (((rn & 0x1f) as u32) << 5) | ((rt & 0x1f) as u32)
}

/// The fields of the other instruction words read back as their operands (registers keep
/// their low five bits):
/// - MOVZ: `rd` in bits 0..4, `imm` in 5..20, `hw` in 21..22, `sf` in 31;
/// - shifted-register add/sub/orr: `rd` 0..4, `rn` 5..9, `imm6` 10..15, `rm` 16..20, shift
///   kind 22..23, `sf` 31;
/// - add/sub immediate: `rd` 0..4, `rn` 5..9, `imm12` 10..21, `sh` 22, `sf` 31;
/// - bitfield and logical immediate: `rd` 0..4, `rn` 5..9, `imms` 10..15, `immr` 16..21,
///   `n` 22, `sf` 31;
/// - CSEL: `rd` 0..4, `rn` 5..9, condition 12..15, `rm` 16..20; CSET: `rd` 0..4, condition
///   12..15;
/// - load/store pair: `rt` 0..4, `rn` 5..9, `rt2` 10..14, `imm7` 15..21, mode 23..24, `sf` 31;
/// - B.cond: condition 0..3, `imm19` 5..23; BL: `imm26` 0..25; SVC: `imm16` 5..20; RET: the
///   register in 5..9;
/// and the opcode bits above the fields are those of the instruction.
pub proof fn lemma_encoder_fields(
    rd: u8,
    rn: u8,
    rm: u8,
    imm6: u8,
    shift: u8,
    imm16: u16,
    hw: u8,
    flag: bool,
    is_64: bool,
    immr: u8,
    imms: u8,
    cond: u8,
    imm7: i8,
    pre: bool,
    signed: bool,
    imm: u32,
)
    by (bit_vector)
    requires
        rd < 32,
    ensures
        movz_word(rd, imm16, hw, is_64) & 0x1f == rd as u32,
        (movz_word(rd, imm16, hw, is_64) >> 5) & 0xffff == imm16 as u32,
        (movz_word(rd, imm16, hw, is_64) >> 21) & 3 == (hw & 3) as u32,
        ((movz_word(rd, imm16, hw, is_64) >> 31) & 1 == 1) == is_64,
        (movz_word(rd, imm16, hw, is_64) >> 23) & 0xff == 0xa5,
        add_shifted_reg_word(rd, rn, rm, imm6, shift, is_64) & 0x1f == rd as u32,
        (add_shifted_reg_word(rd, rn, rm, imm6, shift, is_64) >> 5) & 0x1f == (rn & 0x1f) as u32,
        (add_shifted_reg_word(rd, rn, rm, imm6, shift, is_64) >> 10) & 0x3f == (imm6 & 0x3f) as u32,
        (add_shifted_reg_word(rd, rn, rm, imm6, shift, is_64) >> 16) & 0x1f == (rm & 0x1f) as u32,
        (add_shifted_reg_word(rd, rn, rm, imm6, shift, is_64) >> 22) & 3 == (shift & 3) as u32,
        ((add_shifted_reg_word(rd, rn, rm, imm6, shift, is_64) >> 31) & 1 == 1) == is_64,
        (add_shifted_reg_word(rd, rn, rm, imm6, shift, is_64) >> 24) & 0x7f == 0xb,
        sub_shifted_reg_word(rd, rn, rm, imm6, shift, is_64) & 0x1f == rd as u32,
        (sub_shifted_reg_word(rd, rn, rm, imm6, shift, is_64) >> 5) & 0x1f == (rn & 0x1f) as u32,
        (sub_shifted_reg_word(rd, rn, rm, imm6, shift, is_64) >> 10) & 0x3f == (imm6 & 0x3f) as u32,
        (sub_shifted_reg_word(rd, rn, rm, imm6, shift, is_64) >> 16) & 0x1f == (rm & 0x1f) as u32,
        (sub_shifted_reg_word(rd, rn, rm, imm6, shift, is_64) >> 22) & 3 == (shift & 3) as u32,
        ((sub_shifted_reg_word(rd, rn, rm, imm6, shift, is_64) >> 31) & 1 == 1) == is_64,
        (sub_shifted_reg_word(rd, rn, rm, imm6, shift, is_64) >> 24) & 0x7f == 0x4b,
        subs_shifted_reg_word(rd, rn, rm, imm6, shift, is_64) & 0x1f == rd as u32,
        (subs_shifted_reg_word(rd, rn, rm, imm6, shift, is_64) >> 5) & 0x1f == (rn & 0x1f) as u32,
        (subs_shifted_reg_word(rd, rn, rm, imm6, shift, is_64) >> 10) & 0x3f == (imm6 & 0x3f) as u32,
        (subs_shifted_reg_word(rd, rn, rm, imm6, shift, is_64) >> 16) & 0x1f == (rm & 0x1f) as u32,
        (subs_shifted_reg_word(rd, rn, rm, imm6, shift, is_64) >> 22) & 3 == (shift & 3) as u32,
        ((subs_shifted_reg_word(rd, rn, rm, imm6, shift, is_64) >> 31) & 1 == 1) == is_64,
        (subs_shifted_reg_word(rd, rn, rm, imm6, shift, is_64) >> 24) & 0x7f == 0x6b,
        orr_shifted_reg_word(rd, rn, rm, imm6, shift, is_64) & 0x1f == rd as u32,
        (orr_shifted_reg_word(rd, rn, rm, imm6, shift, is_64) >> 5) & 0x1f == (rn & 0x1f) as u32,
        (orr_shifted_reg_word(rd, rn, rm, imm6, shift, is_64) >> 10) & 0x3f == (imm6 & 0x3f) as u32,
        (orr_shifted_reg_word(rd, rn, rm, imm6, shift, is_64) >> 16) & 0x1f == (rm & 0x1f) as u32,
        (orr_shifted_reg_word(rd, rn, rm, imm6, shift, is_64) >> 22) & 3 == (shift & 2) as u32,
        ((orr_shifted_reg_word(rd, rn, rm, imm6, shift, is_64) >> 31) & 1 == 1) == is_64,
        (orr_shifted_reg_word(rd, rn, rm, imm6, shift, is_64) >> 24) & 0x7f == 0x2a,
        imm12_word(ADD_IMM, rn, rd, imm16, flag, is_64) & 0x1f == rd as u32,
        (imm12_word(ADD_IMM, rn, rd, imm16, flag, is_64) >> 5) & 0x1f == (rn & 0x1f) as u32,
        (imm12_word(ADD_IMM, rn, rd, imm16, flag, is_64) >> 10) & 0xfff == (imm16 & 0xfff) as u32,
        ((imm12_word(ADD_IMM, rn, rd, imm16, flag, is_64) >> 22) & 1 == 1) == flag,
        ((imm12_word(ADD_IMM, rn, rd, imm16, flag, is_64) >> 31) & 1 == 1) == is_64,
        (imm12_word(ADD_IMM, rn, rd, imm16, flag, is_64) >> 23) & 0xff == 0x22,
        imm12_word(SUB_IMM, rn, rd, imm16, flag, is_64) & 0x1f == rd as u32,
        (imm12_word(SUB_IMM, rn, rd, imm16, flag, is_64) >> 5) & 0x1f == (rn & 0x1f) as u32,
        (imm12_word(SUB_IMM, rn, rd, imm16, flag, is_64) >> 10) & 0xfff == (imm16 & 0xfff) as u32,
        ((imm12_word(SUB_IMM, rn, rd, imm16, flag, is_64) >> 22) & 1 == 1) == flag,
        ((imm12_word(SUB_IMM, rn, rd, imm16, flag, is_64) >> 31) & 1 == 1) == is_64,
        (imm12_word(SUB_IMM, rn, rd, imm16, flag, is_64) >> 23) & 0xff == 0xa2,
        imm12_word(SUBS_IMM, rn, rd, imm16, flag, is_64) & 0x1f == rd as u32,
        (imm12_word(SUBS_IMM, rn, rd, imm16, flag, is_64) >> 5) & 0x1f == (rn & 0x1f) as u32,
        (imm12_word(SUBS_IMM, rn, rd, imm16, flag, is_64) >> 10) & 0xfff == (imm16 & 0xfff) as u32,
        ((imm12_word(SUBS_IMM, rn, rd, imm16, flag, is_64) >> 22) & 1 == 1) == flag,
        ((imm12_word(SUBS_IMM, rn, rd, imm16, flag, is_64) >> 31) & 1 == 1) == is_64,
        (imm12_word(SUBS_IMM, rn, rd, imm16, flag, is_64) >> 23) & 0xff == 0xe2,
        bitfield_word(UBFM, rn, rd, immr, imms, flag, is_64) & 0x1f == rd as u32,
        (bitfield_word(UBFM, rn, rd, immr, imms, flag, is_64) >> 5) & 0x1f == (rn & 0x1f) as u32,
        (bitfield_word(UBFM, rn, rd, immr, imms, flag, is_64) >> 10) & 0x3f == (imms & 0x3f) as u32,
        (bitfield_word(UBFM, rn, rd, immr, imms, flag, is_64) >> 16) & 0x3f == (immr & 0x3f) as u32,
        ((bitfield_word(UBFM, rn, rd, immr, imms, flag, is_64) >> 22) & 1 == 1) == flag,
        ((bitfield_word(UBFM, rn, rd, immr, imms, flag, is_64) >> 31) & 1 == 1) == is_64,
        (bitfield_word(UBFM, rn, rd, immr, imms, flag, is_64) >> 23) & 0xff == 0xa6,
        bitfield_word(ORR_IMM, rn, rd, immr, imms, flag, is_64) & 0x1f == rd as u32,
        (bitfield_word(ORR_IMM, rn, rd, immr, imms, flag, is_64) >> 5) & 0x1f == (rn & 0x1f) as u32,
        (bitfield_word(ORR_IMM, rn, rd, immr, imms, flag, is_64) >> 10) & 0x3f == (imms & 0x3f) as u32,
        (bitfield_word(ORR_IMM, rn, rd, immr, imms, flag, is_64) >> 16) & 0x3f == (immr & 0x3f) as u32,
        ((bitfield_word(ORR_IMM, rn, rd, immr, imms, flag, is_64) >> 22) & 1 == 1) == flag,
        ((bitfield_word(ORR_IMM, rn, rd, immr, imms, flag, is_64) >> 31) & 1 == 1) == is_64,
        (bitfield_word(ORR_IMM, rn, rd, immr, imms, flag, is_64) >> 23) & 0xff == 0x64,
        bitfield_word(AND_IMM, rn, rd, immr, imms, flag, is_64) & 0x1f == rd as u32,
        (bitfield_word(AND_IMM, rn, rd, immr, imms, flag, is_64) >> 5) & 0x1f == (rn & 0x1f) as u32,
        (bitfield_word(AND_IMM, rn, rd, immr, imms, flag, is_64) >> 10) & 0x3f == (imms & 0x3f) as u32,
        (bitfield_word(AND_IMM, rn, rd, immr, imms, flag, is_64) >> 16) & 0x3f == (immr & 0x3f) as u32,
        ((bitfield_word(AND_IMM, rn, rd, immr, imms, flag, is_64) >> 22) & 1 == 1) == flag,
        ((bitfield_word(AND_IMM, rn, rd, immr, imms, flag, is_64) >> 31) & 1 == 1) == is_64,
        (bitfield_word(AND_IMM, rn, rd, immr, imms, flag, is_64) >> 23) & 0xff == 0x24,
        csel_word(rm, rn, rd, cond, is_64) & 0x1f == rd as u32,
        (csel_word(rm, rn, rd, cond, is_64) >> 5) & 0x1f == (rn & 0x1f) as u32,
        (csel_word(rm, rn, rd, cond, is_64) >> 12) & 0xf == (cond & 0xf) as u32,
        (csel_word(rm, rn, rd, cond, is_64) >> 16) & 0x1f == (rm & 0x1f) as u32,
        ((csel_word(rm, rn, rd, cond, is_64) >> 31) & 1 == 1) == is_64,
        cset_word(rd, cond, is_64) & 0x1f == rd as u32,
        (cset_word(rd, cond, is_64) >> 12) & 0xf == (cond & 0xf) as u32,
        ((cset_word(rd, cond, is_64) >> 31) & 1 == 1) == is_64,
        pair_word(STP, rn, rd, rm, imm7, pre, signed, is_64) & 0x1f == rd as u32,
        (pair_word(STP, rn, rd, rm, imm7, pre, signed, is_64) >> 5) & 0x1f == (rn & 0x1f) as u32,
        (pair_word(STP, rn, rd, rm, imm7, pre, signed, is_64) >> 10) & 0x1f == (rm & 0x1f) as u32,
        (pair_word(STP, rn, rd, rm, imm7, pre, signed, is_64) >> 15) & 0x7f == (imm7 & 0x7f) as u32,
        (pair_word(STP, rn, rd, rm, imm7, pre, signed, is_64) >> 23) & 3 == (if signed { 2u32 } else if pre { 3u32 } else { 1u32 }),
        ((pair_word(STP, rn, rd, rm, imm7, pre, signed, is_64) >> 31) & 1 == 1) == is_64,
        ((pair_word(STP, rn, rd, rm, imm7, pre, signed, is_64) >> 22) & 1 == 1) == (false),
        pair_word(LDP, rn, rd, rm, imm7, pre, signed, is_64) & 0x1f == rd as u32,
        (pair_word(LDP, rn, rd, rm, imm7, pre, signed, is_64) >> 5) & 0x1f == (rn & 0x1f) as u32,
        (pair_word(LDP, rn, rd, rm, imm7, pre, signed, is_64) >> 10) & 0x1f == (rm & 0x1f) as u32,
        (pair_word(LDP, rn, rd, rm, imm7, pre, signed, is_64) >> 15) & 0x7f == (imm7 & 0x7f) as u32,
        (pair_word(LDP, rn, rd, rm, imm7, pre, signed, is_64) >> 23) & 3 == (if signed { 2u32 } else if pre { 3u32 } else { 1u32 }),
        ((pair_word(LDP, rn, rd, rm, imm7, pre, signed, is_64) >> 31) & 1 == 1) == is_64,
        ((pair_word(LDP, rn, rd, rm, imm7, pre, signed, is_64) >> 22) & 1 == 1) == (true),
        bcond_word(cond, imm) & 0xf == (cond & 0xf) as u32,
        (bcond_word(cond, imm) >> 5) & 0x7ffff == imm & 0x7ffff,
        bcond_word(cond, imm) >> 24 == 0x54,
        bl_word(imm) & 0x3ff_ffff == imm & 0x3ff_ffff,
        bl_word(imm) >> 26 == 0x25,
        (svc_word(imm16) >> 5) & 0xffff == imm16 as u32,
        svc_word(imm16) & 0x1f == 1,
        svc_word(imm16) >> 21 == 0x6a0,
        (ret_word(rd) >> 5) & 0x1f == rd as u32,
        ret_word(rd) & 0x1f == 0,
        ret_word(rd) >> 10 == 0x3597c0,
{
}

/// The fields of a single-register load or store word read back as its operands: `rt` in
/// bits 0..4, `rn` in bits 5..9, the size flag in bit 30 and the load flag in bit 22. In
/// the unsigned-offset form bit 24 is set and the 12-bit offset is in bits 10..21; otherwise
/// bit 24 is clear, bit 10 is set, bit 11 is set exactly for pre-indexing (`[rn, #imm]!`,
/// clear for post-indexing `[rn], #imm`) and the 9-bit offset is in bits 12..20.
pub proof fn lemma_load_store_fields(base: u32, rn: u8, rt: u8, imm: i16, is_pre_index: bool, is_unsigned_offset: bool, is_64: bool)
    by (bit_vector)
    requires
        base == 0xb800_0000u32 || base == 0xb840_0000u32,
    ensures
        load_store_word(base, rn, rt, imm, is_pre_index, is_unsigned_offset, is_64) & 0x1f == (rt & 0x1f) as u32,
        (load_store_word(base, rn, rt, imm, is_pre_index, is_unsigned_offset, is_64) >> 5) & 0x1f == (rn & 0x1f) as u32,
        ((load_store_word(base, rn, rt, imm, is_pre_index, is_unsigned_offset, is_64) >> 30) & 1 == 1) == is_64,
        ((load_store_word(base, rn, rt, imm, is_pre_index, is_unsigned_offset, is_64) >> 22) & 1 == 1) == (base == 0xb840_0000u32),
        ((load_store_word(base, rn, rt, imm, is_pre_index, is_unsigned_offset, is_64) >> 24) & 1 == 1) == is_unsigned_offset,
        is_unsigned_offset ==> (load_store_word(base, rn, rt, imm, is_pre_index, is_unsigned_offset, is_64) >> 10) & 0xfff
            == ((imm & 0x0fff) as u32),
        !is_unsigned_offset ==> {
            &&& (load_store_word(base, rn, rt, imm, is_pre_index, is_unsigned_offset, is_64) >> 10) & 1 == 1
            &&& ((load_store_word(base, rn, rt, imm, is_pre_index, is_unsigned_offset, is_64) >> 11) & 1 == 1) == is_pre_index
            &&& (load_store_word(base, rn, rt, imm, is_pre_index, is_unsigned_offset, is_64) >> 12) & 0x1ff
                == ((imm & 0x01ff) as u32)
        },
{
}

/// B.cond: condition in the low four bits, `imm19` at 5.
pub open spec fn bcond_word(cond: u8, imm19: u32) -> u32 {
    B_COND | ((cond & 0xf) as u32) | ((imm19 & 0x7ffff) << 5)
}

/// BL: the low 26 bits of `imm26`.
pub open spec fn bl_word(imm26: u32) -> u32 {
    BL | (imm26 & 0x3ffffff)
}

/// SVC: `imm16` at bit 5.
pub open spec fn svc_word(imm16: u16) -> u32 {
    SVC | ((imm16 as u32) << 5)
}

fn bit(b: bool) -> (r: u32)
    ensures
        r == b2u(b),
{
    if b { 1 } else { 0 }
}

/// A buffer of instruction words, with the labels it defines and the call sites in it.
pub struct ASMGenerator {
    cur_instruction: u32,
    instructions: Vec<u32>,
    /// Label name to instruction index.
    label_offset: LabelOffsets,
    /// Instruction index of a `bl` to the label it calls.
    label_call: LabelCalls,
}

impl ASMGenerator {
    pub closed spec fn instructions(&self) -> Seq<u32> {
        self.instructions@
    }

    pub closed spec fn label_offsets(&self) -> Map<Seq<char>, u32> {
        self.label_offset@
    }

    pub closed spec fn label_calls(&self) -> Map<u32, Seq<char>> {
        self.label_call@
    }

    /// The word being assembled before it is emitted.
    pub closed spec fn current(&self) -> u32 {
        self.cur_instruction
    }

    /// `self` is `old` with `word` emitted and nothing else changed.
    pub open spec fn emitted(&self, old: &ASMGenerator, words: Seq<u32>) -> bool {
        &&& self.instructions() == old.instructions() + words
        &&& self.label_offsets() == old.label_offsets()
        &&& self.label_calls() == old.label_calls()
        &&& self.current() == 0
    }

    pub fn new() -> (g: Self)
        ensures
            g.instructions() == Seq::<u32>::empty(),
            g.label_offsets() == Map::<Seq<char>, u32>::empty(),
            g.label_calls() == Map::<u32, Seq<char>>::empty(),
            g.current() == 0,
    {
        Self {
            cur_instruction: 0,
            instructions: Vec::new(),
            label_offset: LabelOffsets::new(),
            label_call: LabelCalls::new(),
        }
    }

    fn new_instruction(&mut self)
        ensures
            final(self).current() == 0,
            final(self).instructions() == old(self).instructions(),
            final(self).label_offsets() == old(self).label_offsets(),
            final(self).label_calls() == old(self).label_calls(),
    {
        self.cur_instruction = 0;
    }

    /// Move every label and call site up by `prepend_index_size` instructions.
    pub fn adjust_offset(&mut self, prepend_index_size: u32)
        requires
            forall|k: Seq<char>| #[trigger] old(self).label_offsets().contains_key(k)
                ==> old(self).label_offsets()[k] + prepend_index_size <= u32::MAX,
            forall|k: u32| #[trigger] old(self).label_calls().contains_key(k) ==> k + prepend_index_size <= u32::MAX,
        ensures
            final(self).label_offsets() == Map::new(
                |k: Seq<char>| old(self).label_offsets().contains_key(k),
                |k: Seq<char>| (old(self).label_offsets()[k] + prepend_index_size) as u32,
            ),
            final(self).label_calls() == Map::new(
                |k: u32| k >= prepend_index_size && old(self).label_calls().contains_key((k - prepend_index_size) as u32),
                |k: u32| old(self).label_calls()[(k - prepend_index_size) as u32],
            ),
            final(self).instructions() == old(self).instructions(),
            final(self).current() == old(self).current(),
    {
        assert(self.label_offset@ == self.label_offsets());
        assert(self.label_call@ == self.label_calls());
        self.label_offset.add_to_all(prepend_index_size);
        self.label_call.shift_sites(prepend_index_size);
    }

    fn write32(&mut self, instruction: u32)
        ensures
            final(self).emitted(&*old(self), seq![instruction]),
    {
        self.cur_instruction = instruction;
        self.emit();
        assert(self.instructions() =~= old(self).instructions() + seq![instruction]);
    }

    pub fn put_label_offset(&mut self, label: String, offset: u32)
        ensures
            final(self).label_offsets() == old(self).label_offsets().insert(label@, offset),
            final(self).label_calls() == old(self).label_calls(),
            final(self).instructions() == old(self).instructions(),
            final(self).current() == old(self).current(),
    {
        self.label_offset.insert(label, offset);
    }

    pub fn put_label_call(&mut self, offset: u32, label: String)
        ensures
            final(self).label_calls() == old(self).label_calls().insert(offset, label@),
            final(self).label_offsets() == old(self).label_offsets(),
            final(self).instructions() == old(self).instructions(),
            final(self).current() == old(self).current(),
    {
        self.label_call.insert(offset, label);
    }

    /// A copy of the instructions.
    pub fn get_instructions(&self) -> (v: Vec<u32>)
        ensures
            v@ == self.instructions(),
    {
        self.instructions.clone()
    }

    /// The labels this buffer defines.
    pub fn get_label_offset(&self) -> (m: &LabelOffsets)
        ensures
            m@ == self.label_offsets(),
    {
        &self.label_offset
    }

    /// The call sites of this buffer.
    pub fn get_label_call(&self) -> (m: &LabelCalls)
        ensures
            m@ == self.label_calls(),
    {
        &self.label_call
    }

    /// Size of the code in bytes.
    pub fn get_code_size(&self) -> (n: usize)
        requires
            self.instructions().len() * 4 <= usize::MAX,
        ensures
            n == self.instructions().len() * 4,
    {
        self.instructions.len() * 4
    }

    /// Number of instructions, as a `u32` (truncating).
    pub fn get_instructions_size(&self) -> (n: u32)
        ensures
            n == self.instructions().len() as u32,
    {
        self.instructions.len() as u32
    }
}

/// A sink of instruction words.
pub trait CodeSink {
    fn emit(&mut self);

    /// The disassembly listing of the words collected so far.
    fn asm_listing(&self) -> Option<String>;
}

impl CodeSink for ASMGenerator {
    /// Append the current word to the instructions and start a new one.
    fn emit(&mut self)
        ensures
            final(self).instructions() == old(self).instructions().push(old(self).current()),
            final(self).label_offsets() == old(self).label_offsets(),
            final(self).label_calls() == old(self).label_calls(),
            final(self).current() == 0,
    {
        self.instructions.push(self.cur_instruction);
        self.new_instruction();
    }

    /// The listing titled `Disassembly:`; `None` where the disassembler reports an error.
    fn asm_listing(&self) -> (r: Option<String>)
        ensures
            match arm64_disassembly(le_bytes(self.instructions()), 0) {
                Some(lines) => r matches Some(s) && s@ == listing_text("Disassembly:"@, lines),
                None => r is None,
            },
    {
        disassembly_listing("Disassembly:", self.instructions.as_slice())
    }
}


impl ASMGenerator {
    // movz
    pub fn gen_movz_instruction(&mut self, rd: RegisterX, imm: u16, hw: u8, is_64: bool)
        ensures
            final(self).emitted(&*old(self), seq![movz_word(rd.num(), imm, hw, is_64)]),
    {
        let mut inst: u32 = MOVZ;
        inst |= bit(is_64) << 31u32;
        inst |= ((hw & 0x3) as u32) << 21u32;
        inst |= (imm as u32) << 5u32;
        inst |= rd.code() as u32;
        self.write32(inst);
    }

    pub fn gen_mov_imm_instruction(&mut self, rd: RegisterX, imm: u16, shift: u8, is_64: bool)
        requires
            shift == 0 || shift == 16 || shift == 32 || shift == 64,
        ensures
            final(self).emitted(&*old(self), seq![movz_word(rd.num(), imm, shift / 16, is_64)]),
    {
        self.gen_movz_instruction(rd, imm, shift / 16, is_64);
    }

    pub fn gen_mov_reg_instruction(&mut self, rd: RegisterX, rm: RegisterX, is_64: bool)
        ensures
            final(self).emitted(&*old(self), seq![orr_shifted_reg_word(rd.num(), 63, rm.num(), 0, 0, is_64)]),
    {
        self.gen_orr_shifted_reg_instruction(rd, RegisterX::MovRegister, rm, 0x0, Shift::LSL, is_64);
    }

    pub fn gen_orr_shifted_reg_instruction(
        &mut self,
        rd: RegisterX,
        rn: RegisterX,
        rm: RegisterX,
        imm6: u8,
        shift: Shift,
        is_64: bool,
    )
        ensures
            final(self).emitted(&*old(self), seq![orr_shifted_reg_word(rd.num(), rn.num(), rm.num(), imm6, shift.num(), is_64)]),
    {
        let mut inst: u32 = ORR_SHIFTED_REG;
        inst |= bit(is_64) << 31u32;
        inst |= ((shift.code() & 0x2) as u32) << 22u32;
        inst |= ((imm6 & 0x3f) as u32) << 10u32;
        inst |= ((rm.code() & 0x1f) as u32) << 16u32;
        inst |= ((rn.code() & 0x1f) as u32) << 5u32;
        inst |= (rd.code() & 0x1f) as u32;
        self.write32(inst);
    }

    pub fn gen_ret_instruction(&mut self, reg: RegisterX)
        ensures
            final(self).emitted(&*old(self), seq![ret_word(reg.num())]),
    {
        let mut inst: u32 = RET;
        inst |= ((reg.code() & 0x1f) as u32) << 5u32;
        self.write32(inst);
    }

    pub fn gen_mov_to_from_sp_instruction(&mut self, rd: RegisterX, rn: RegisterX, is_64: bool)
        ensures
            final(self).emitted(&*old(self), seq![imm12_word(ADD_IMM, rn.num(), rd.num(), 0, false, is_64)]),
    {
        self.gen_add_imm_instruction(rn, rd, 0, false, is_64);
    }

    pub fn gen_add_shifted_reg_instruction(
        &mut self,
        rd: RegisterX,
        rn: RegisterX,
        rm: RegisterX,
        imm6: u8,
        shift: Shift,
        is_64: bool,
    )
        ensures
            final(self).emitted(&*old(self), seq![add_shifted_reg_word(rd.num(), rn.num(), rm.num(), imm6, shift.num(), is_64)]),
    {
        let mut inst: u32 = ADD_SHIFTED_REG;
        inst |= bit(is_64) << 31u32;
        inst |= ((shift.code() & 0x3) as u32) << 22u32;
        inst |= ((imm6 & 0x3f) as u32) << 10u32;
        inst |= ((rm.code() & 0x1f) as u32) << 16u32;
        inst |= ((rn.code() & 0x1f) as u32) << 5u32;
        inst |= (rd.code() & 0x1f) as u32;
        self.write32(inst);
    }

    pub fn gen_add_imm_instruction(&mut self, rn: RegisterX, rd: RegisterX, imm12: u16, shift: bool, is_64: bool)
        ensures
            final(self).emitted(&*old(self), seq![imm12_word(ADD_IMM, rn.num(), rd.num(), imm12, shift, is_64)]),
    {
        let mut inst: u32 = ADD_IMM;
        inst |= bit(is_64) << 31u32;
        inst |= bit(shift) << 22u32;
        inst |= ((imm12 & 0xfff) as u32) << 10u32;
        inst |= ((rn.code() & 0x1f) as u32) << 5u32;
        inst |= (rd.code() & 0x1f) as u32;
        self.write32(inst);
    }

    pub fn gen_sub_shifted_reg_instruction(
        &mut self,
        rd: RegisterX,
        rn: RegisterX,
        rm: RegisterX,
        imm6: u8,
        shift: Shift,
        is_64: bool,
    )
        ensures
            final(self).emitted(&*old(self), seq![sub_shifted_reg_word(rd.num(), rn.num(), rm.num(), imm6, shift.num(), is_64)]),
    {
        let mut inst: u32 = SUB_SHIFTED_REG;
        inst |= bit(is_64) << 31u32;
        inst |= ((shift.code() & 0x3) as u32) << 22u32;
        inst |= ((imm6 & 0x3f) as u32) << 10u32;
        inst |= ((rm.code() & 0x1f) as u32) << 16u32;
        inst |= ((rn.code() & 0x1f) as u32) << 5u32;
        inst |= (rd.code() & 0x1f) as u32;
        self.write32(inst);
    }

    pub fn gen_sub_imm_instruction(&mut self, rn: RegisterX, rd: RegisterX, imm12: u16, shift: bool, is_64: bool)
        ensures
            final(self).emitted(&*old(self), seq![imm12_word(SUB_IMM, rn.num(), rd.num(), imm12, shift, is_64)]),
    {
        let mut inst: u32 = SUB_IMM;
        inst |= bit(is_64) << 31u32;
        inst |= bit(shift) << 22u32;
        inst |= ((imm12 & 0xfff) as u32) << 10u32;
        inst |= ((rn.code() & 0x1f) as u32) << 5u32;
        inst |= (rd.code() & 0x1f) as u32;
        self.write32(inst);
    }

    pub fn gen_ubfm_instruction(&mut self, rn: RegisterX, rd: RegisterX, immr: u8, imms: u8, n: bool, is_64: bool)
        ensures
            final(self).emitted(&*old(self), seq![bitfield_word(UBFM, rn.num(), rd.num(), immr, imms, n, is_64)]),
    {
        let mut inst: u32 = UBFM;
        inst |= bit(is_64) << 31u32;
        inst |= bit(n) << 22u32;
        inst |= ((immr & 0x3f) as u32) << 16u32;
        inst |= ((imms & 0x3f) as u32) << 10u32;
        inst |= ((rn.code() & 0x1f) as u32) << 5u32;
        inst |= (rd.code() & 0x1f) as u32;
        self.write32(inst);
    }

    /// LSL (immediate), an alias of UBFM with `immr = -shift mod width` and `imms = width - 1 - shift`.
    pub fn gen_lsl_imm_instruction(&mut self, rn: RegisterX, rd: RegisterX, shift: i32, is_64: bool)
        requires
            shift >= -2147483584,
        ensures
            final(self).emitted(&*old(self), seq![bitfield_word(
                UBFM,
                rn.num(),
                rd.num(),
                (((-shift) as i32) & (if is_64 { 0x3fi32 } else { 0x1fi32 })) as u8,
                (((if is_64 { 63i32 } else { 31i32 }) - shift) as i32) as u8,
                is_64,
                is_64,
            )]),
    {
        let immr = (-shift & if is_64 { 0x3f } else { 0x1f }) as u8;
        let imms = ((if is_64 { 63 } else { 31 }) - shift) as u8;
        self.gen_ubfm_instruction(rn, rd, immr, imms, is_64, is_64);
    }

    /// LSR (immediate), an alias of UBFM with `immr = shift` and `imms = width - 1`.
    pub fn gen_lsr_imm_instruction(&mut self, rn: RegisterX, rd: RegisterX, shift: i32, is_64: bool)
        ensures
            final(self).emitted(&*old(self), seq![bitfield_word(
                UBFM,
                rn.num(),
                rd.num(),
                shift as u8,
                if is_64 { 0x3fu8 } else { 0x1fu8 },
                is_64,
                is_64,
            )]),
    {
        self.gen_ubfm_instruction(rn, rd, shift as u8, if is_64 { 0x3f } else { 0x1f }, is_64, is_64);
    }

    pub fn gen_orr_imm_instruction(&mut self, rn: RegisterX, rd: RegisterX, immr: u8, imms: u8, n: bool, is_64: bool)
        ensures
            final(self).emitted(&*old(self), seq![bitfield_word(ORR_IMM, rn.num(), rd.num(), immr, imms, n, is_64)]),
    {
        let mut inst: u32 = ORR_IMM;
        inst |= bit(is_64) << 31u32;
        inst |= bit(n) << 22u32;
        inst |= ((immr & 0x3f) as u32) << 16u32;
        inst |= ((imms & 0x3f) as u32) << 10u32;
        inst |= ((rn.code() & 0x1f) as u32) << 5u32;
        inst |= (rd.code() & 0x1f) as u32;
        self.write32(inst);
    }

    pub fn gen_and_imm_instruction(&mut self, rn: RegisterX, rd: RegisterX, immr: u8, imms: u8, n: bool, is_64: bool)
        ensures
            final(self).emitted(&*old(self), seq![bitfield_word(AND_IMM, rn.num(), rd.num(), immr, imms, n, is_64)]),
    {
        let mut inst: u32 = AND_IMM;
        inst |= bit(is_64) << 31u32;
        inst |= bit(n) << 22u32;
        inst |= ((immr & 0x3f) as u32) << 16u32;
        inst |= ((imms & 0x3f) as u32) << 10u32;
        inst |= ((rn.code() & 0x1f) as u32) << 5u32;
        inst |= (rd.code() & 0x1f) as u32;
        self.write32(inst);
    }

    /// CMP (immediate): SUBS with the zero register as destination.
    pub fn gen_cmp_imm_instruction(&mut self, rn: RegisterX, imm12: u16, shift: bool, is_64: bool)
        ensures
            final(self).emitted(&*old(self), seq![imm12_word(SUBS_IMM, rn.num(), 31, imm12, shift, is_64)]),
    {
        self.gen_subs_imm_instruction(rn, RegisterX::XZR, imm12, shift, is_64);
    }

    /// CMP (shifted register): SUBS with the zero register as destination.
    pub fn gen_cmp_shifted_reg_instruction(&mut self, rn: RegisterX, rm: RegisterX, imm6: u8, shift: Shift, is_64: bool)
        ensures
            final(self).emitted(&*old(self), seq![subs_shifted_reg_word(63, rn.num(), rm.num(), imm6, shift.num(), is_64)]),
    {
        self.gen_subs_shifted_reg_instruction(RegisterX::MovRegister, rn, rm, imm6, shift, is_64);
    }

    pub fn gen_subs_imm_instruction(&mut self, rn: RegisterX, rd: RegisterX, imm12: u16, sh: bool, is_64: bool)
        ensures
            final(self).emitted(&*old(self), seq![imm12_word(SUBS_IMM, rn.num(), rd.num(), imm12, sh, is_64)]),
    {
        let mut inst: u32 = SUBS_IMM;
        inst |= bit(is_64) << 31u32;
        inst |= bit(sh) << 22u32;
        inst |= ((imm12 & 0xfff) as u32) << 10u32;
        inst |= ((rn.code() & 0x1f) as u32) << 5u32;
        inst |= (rd.code() & 0x1f) as u32;
        self.write32(inst);
    }

    pub fn gen_subs_shifted_reg_instruction(
        &mut self,
        rd: RegisterX,
        rn: RegisterX,
        rm: RegisterX,
        imm6: u8,
        shift: Shift,
        is_64: bool,
    )
        ensures
            final(self).emitted(&*old(self), seq![subs_shifted_reg_word(rd.num(), rn.num(), rm.num(), imm6, shift.num(), is_64)]),
    {
        let mut inst: u32 = SUBS_SHIFTED_REG;
        inst |= bit(is_64) << 31u32;
        inst |= ((shift.code() & 0x3) as u32) << 22u32;
        inst |= ((imm6 & 0x3f) as u32) << 10u32;
        inst |= ((rm.code() & 0x1f) as u32) << 16u32;
        inst |= ((rn.code() & 0x1f) as u32) << 5u32;
        inst |= (rd.code() & 0x1f) as u32;
        self.write32(inst);
    }

    pub fn gen_csel_instruction(&mut self, rm: RegisterX, rn: RegisterX, rd: RegisterX, cond: Cond, is_64: bool)
        ensures
            final(self).emitted(&*old(self), seq![csel_word(rm.num(), rn.num(), rd.num(), cond.num(), is_64)]),
    {
        let mut inst: u32 = CSEL;
        inst |= bit(is_64) << 31u32;
        inst |= ((rm.code() & 0x1f) as u32) << 16u32;
        inst |= ((cond.code() & 0xf) as u32) << 12u32;
        inst |= ((rn.code() & 0x1f) as u32) << 5u32;
        inst |= (rd.code() & 0x1f) as u32;
        self.write32(inst);
    }

    pub fn gen_cset_instruction(&mut self, rd: RegisterX, cond: IVCond, is_64: bool)
        ensures
            final(self).emitted(&*old(self), seq![cset_word(rd.num(), cond.num(), is_64)]),
    {
        let mut inst: u32 = CSET;
        inst |= bit(is_64) << 31u32;
        inst |= ((cond.code() & 0xf) as u32) << 12u32;
        inst |= (rd.code() & 0x1f) as u32;
        self.write32(inst);
    }

    /// store pair (STP)
    pub fn gen_stp_instruction(
        &mut self,
        rn: RegisterX,
        rt: RegisterX,
        rt2: RegisterX,
        imm: i8,
        is_pre_index: bool,
        is_signed_offset: bool,
        is_64: bool,
    )
        ensures
            final(self).emitted(&*old(self), seq![pair_word(STP, rn.num(), rt.num(), rt2.num(), imm, is_pre_index, is_signed_offset, is_64)]),
    {
        let mut inst: u32 = STP;
        if is_signed_offset {
            inst |= 0x2u32 << 23u32;
        } else {
            inst |= (if is_pre_index { 0x3u32 } else { 0x1u32 }) << 23u32;
        }
        inst |= bit(is_64) << 31u32;
        inst |= ((imm & 0x7f) as u32) << 15u32;
        inst |= ((rt2.code() & 0x1f) as u32) << 10u32;
        inst |= ((rn.code() & 0x1f) as u32) << 5u32;
        inst |= (rt.code() & 0x1f) as u32;
        self.write32(inst);
    }

    /// load pair (LDP)
    pub fn gen_ldp_instruction(
        &mut self,
        rn: RegisterX,
        rt: RegisterX,
        rt2: RegisterX,
        imm: i8,
        is_pre_index: bool,
        is_signed_offset: bool,
        is_64: bool,
    )
        ensures
            final(self).emitted(&*old(self), seq![pair_word(LDP, rn.num(), rt.num(), rt2.num(), imm, is_pre_index, is_signed_offset, is_64)]),
    {
        // differs only in opcode constant
        let mut inst: u32 = LDP;
        if is_signed_offset {
            inst |= 0x2u32 << 23u32;
        } else {
            inst |= (if is_pre_index { 0x3u32 } else { 0x1u32 }) << 23u32;
        }
        inst |= bit(is_64) << 31u32;
        inst |= ((imm & 0x7f) as u32) << 15u32;
        inst |= ((rt2.code() & 0x1f) as u32) << 10u32;
        inst |= ((rn.code() & 0x1f) as u32) << 5u32;
        inst |= (rt.code() & 0x1f) as u32;
        self.write32(inst);
    }

    /// STR (imm)
    pub fn gen_str_imm_instruction(
        &mut self,
        rn: RegisterX,
        rt: RegisterX,
        imm: i16,
        is_pre_index: bool,
        is_unsigned_offset: bool,
        is_64: bool,
    )
        ensures
            final(self).emitted(&*old(self), seq![load_store_word(STR_IMM, rn.num(), rt.num(), imm, is_pre_index, is_unsigned_offset, is_64)]),
    {
        let mut inst: u32 = STR_IMM;
        inst |= bit(is_64) << 30u32;
        if is_unsigned_offset {
            inst |= 0x1u32 << 24u32;
            inst |= ((imm & 0x0fff) as u32) << 10u32;
        } else {
            inst |= 0x1u32 << 10u32;
            inst |= bit(is_pre_index) << 11u32;
            inst |= ((imm & 0x01ff) as u32) << 12u32;
        }
        inst |= ((rn.code() & 0x1f) as u32) << 5u32;
        inst |= (rt.code() & 0x1f) as u32;
        self.write32(inst);
    }

    /// LDR (imm)
    pub fn gen_ldr_imm_instruction(
        &mut self,
        rn: RegisterX,
        rt: RegisterX,
        imm: i16,
        is_pre_index: bool,
        is_unsigned_offset: bool,
        is_64: bool,
    )
        ensures
            final(self).emitted(&*old(self), seq![load_store_word(LDR_IMM, rn.num(), rt.num(), imm, is_pre_index, is_unsigned_offset, is_64)]),
    {
        let mut inst: u32 = LDR_IMM;
        inst |= bit(is_64) << 30u32;
        if is_unsigned_offset {
            inst |= 0x1u32 << 24u32;
            inst |= ((imm & 0x0fff) as u32) << 10u32;
        } else {
            inst |= 0x1u32 << 10u32;
            inst |= bit(is_pre_index) << 11u32;
            inst |= ((imm & 0x01ff) as u32) << 12u32;
        }
        inst |= ((rn.code() & 0x1f) as u32) << 5u32;
        inst |= (rt.code() & 0x1f) as u32;
        self.write32(inst);
    }

    pub fn gen_bcond_instruction(&mut self, cond: Cond, imm19: u32)
        ensures
            final(self).emitted(&*old(self), seq![bcond_word(cond.num(), imm19)]),
    {
        let mut inst: u32 = B_COND;
        inst |= (cond.code() & 0xf) as u32;
        inst |= (imm19 & 0x7ffff) << 5u32;
        self.write32(inst);
    }

    pub fn gen_bl_instruction(&mut self, imm26: u32)
        ensures
            final(self).emitted(&*old(self), seq![bl_word(imm26)]),
    {
        let mut inst: u32 = BL;
        inst |= imm26 & 0x3FFFFFF;
        self.write32(inst);
    }

    pub fn gen_svc_instruction(&mut self, imm16: u16)
        ensures
            final(self).emitted(&*old(self), seq![svc_word(imm16)]),
    {
        let mut inst = SVC;
        inst |= (imm16 as u32) << 5u32;
        self.write32(inst);
    }
}

} // verus!
