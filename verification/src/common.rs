//! Shared word types, tag constants, register and condition names, opcode bases,
//! the logical-immediate encoder and the branch-offset helpers.
use vstd::prelude::*;
use vstd::std_specs::bits::{
    axiom_u64_leading_zeros, axiom_u64_trailing_zeros, u64_leading_zeros, u64_trailing_zeros,
};
use crate::logical_imm::{
    encodes_logical_imm, is_logical_imm, lemma_leading_zeros_facts, lemma_no_encoding_of_all_zeros_or_ones,
    lemma_trailing_zeros_facts,
    lemma_not_encodable_when_search_fails, lemma_search_sound, ror64,
};


verus! {

pub type Word = i64;

pub type Uword = u64;

pub const K_BITS_PER_BYTE: Word = 8;

pub const K_WORD_SIZE: Word = 8;

pub const K_BITS_PER_WORD: Word = 64;

// tags
pub const K_INTEGER_TAG: u32 = 0x0;

pub const K_PAIR_TAG: u32 = 0x1;

pub const K_CHAR_TAG: u32 = 0x0F;

pub const K_BOOL_TAG: u32 = 0x1F;

pub const K_INTEGER_TAG_MASK: u32 = 0x3;

/// Mask for the immediate tags (bool, char, ...).
pub const K_IMMEDIATE_TAG_MASK: u32 = 0x1F;

pub const K_BOOL_MASK: u32 = 0x1F;

/// Mask for the tag of a heap reference.
pub const K_HEAP_TAG_MASK: Uword = 0xF;

pub const K_SYMBOL_TAG: u32 = 0x7;

pub const K_INTEGER_SHIFT: u32 = 2;

pub const K_INTEGER_BITS: usize = 62;

/// `2^(K_INTEGER_BITS - 1) - 1`
pub const K_INTEGER_MAX: Word = 0x1fff_ffff_ffff_ffff;

/// `-2^(K_INTEGER_BITS - 1)`
pub const K_INTEGER_MIN: Word = -0x2000_0000_0000_0000;

pub const K_CHAR_MASK: u32 = 0xFF;

pub const K_CHAR_SHIFT: u32 = 8;

pub const K_BOOL_SHIFT: u32 = 5;

/// `!K_HEAP_TAG_MASK`
pub const K_HEAP_PTR_MASK: Uword = 0xffff_ffff_ffff_fff0;

/// General-purpose 64-bit registers; `MovRegister` stands for the code 63, which
/// the register fields keep only as `0x1f`.
#[derive(Clone, Copy, Debug, PartialEq, Eq, Structural)]
pub enum RegisterX {
    X0,
    X1,
    X2,
    X3,
    X4,
    X5,
    X6,
    X7,
    X8,
    X9,
    X10,
    X11,
    X12,
    X13,
    X14,
    X15,
    X16,
    X17,
    X18,
    X19,
    X20,
    X21,
    X22,
    X23,
    X24,
    X25,
    X26,
    X27,
    X28,
    X29,
    X30,
    XZR,
    MovRegister,
}

impl RegisterX {
    /// The number that the instruction encodings use for this value.
    pub open spec fn num(self) -> u8 {
        match self {
            RegisterX::X0 => 0,
            RegisterX::X1 => 1,
            RegisterX::X2 => 2,
            RegisterX::X3 => 3,
            RegisterX::X4 => 4,
            RegisterX::X5 => 5,
            RegisterX::X6 => 6,
            RegisterX::X7 => 7,
            RegisterX::X8 => 8,
            RegisterX::X9 => 9,
            RegisterX::X10 => 10,
            RegisterX::X11 => 11,
            RegisterX::X12 => 12,
            RegisterX::X13 => 13,
            RegisterX::X14 => 14,
            RegisterX::X15 => 15,
            RegisterX::X16 => 16,
            RegisterX::X17 => 17,
            RegisterX::X18 => 18,
            RegisterX::X19 => 19,
            RegisterX::X20 => 20,
            RegisterX::X21 => 21,
            RegisterX::X22 => 22,
            RegisterX::X23 => 23,
            RegisterX::X24 => 24,
            RegisterX::X25 => 25,
            RegisterX::X26 => 26,
            RegisterX::X27 => 27,
            RegisterX::X28 => 28,
            RegisterX::X29 => 29,
            RegisterX::X30 => 30,
            RegisterX::XZR => 31,
            RegisterX::MovRegister => 63,
        }
    }

    pub fn code(self) -> (r: u8)
        ensures
            r == self.num(),
    {
        match self {
            RegisterX::X0 => 0,
            RegisterX::X1 => 1,
            RegisterX::X2 => 2,
            RegisterX::X3 => 3,
            RegisterX::X4 => 4,
            RegisterX::X5 => 5,
            RegisterX::X6 => 6,
            RegisterX::X7 => 7,
            RegisterX::X8 => 8,
            RegisterX::X9 => 9,
            RegisterX::X10 => 10,
            RegisterX::X11 => 11,
            RegisterX::X12 => 12,
            RegisterX::X13 => 13,
            RegisterX::X14 => 14,
            RegisterX::X15 => 15,
            RegisterX::X16 => 16,
            RegisterX::X17 => 17,
            RegisterX::X18 => 18,
            RegisterX::X19 => 19,
            RegisterX::X20 => 20,
            RegisterX::X21 => 21,
            RegisterX::X22 => 22,
            RegisterX::X23 => 23,
            RegisterX::X24 => 24,
            RegisterX::X25 => 25,
            RegisterX::X26 => 26,
            RegisterX::X27 => 27,
            RegisterX::X28 => 28,
            RegisterX::X29 => 29,
            RegisterX::X30 => 30,
            RegisterX::XZR => 31,
            RegisterX::MovRegister => 63,
        }
    }
}

/// The stack pointer shares its register number with the zero register.
pub const SP: RegisterX = RegisterX::XZR;

/// Inverted conditions, as the `cset` encoding takes them.
#[derive(Clone, Copy, Debug, PartialEq, Eq, Structural)]
pub enum IVCond {
    NE,
    EQ,
    CC,
    CS,
    PL,
    MI,
    VC,
    VS,
    LS,
    HI,
    LT,
    GE,
    LE,
    GT,
}

impl IVCond {
    /// The number that the instruction encodings use for this value.
    pub open spec fn num(self) -> u8 {
        match self {
            IVCond::NE => 0,
            IVCond::EQ => 1,
            IVCond::CC => 2,
            IVCond::CS => 3,
            IVCond::PL => 4,
            IVCond::MI => 5,
            IVCond::VC => 6,
            IVCond::VS => 7,
            IVCond::LS => 8,
            IVCond::HI => 9,
            IVCond::LT => 10,
            IVCond::GE => 11,
            IVCond::LE => 12,
            IVCond::GT => 13,
        }
    }

    pub fn code(self) -> (r: u8)
        ensures
            r == self.num(),
    {
        match self {
            IVCond::NE => 0,
            IVCond::EQ => 1,
            IVCond::CC => 2,
            IVCond::CS => 3,
            IVCond::PL => 4,
            IVCond::MI => 5,
            IVCond::VC => 6,
            IVCond::VS => 7,
            IVCond::LS => 8,
            IVCond::HI => 9,
            IVCond::LT => 10,
            IVCond::GE => 11,
            IVCond::LE => 12,
            IVCond::GT => 13,
        }
    }
}

/// Condition codes.
#[derive(Clone, Copy, Debug, PartialEq, Eq, Structural)]
pub enum Cond {
    EQ,
    NE,
    CS,
    CC,
    MI,
    PL,
    VS,
    VC,
    HI,
    LS,
    GE,
    LT,
    GT,
    LE,
    AL,
    NV,
}

impl Cond {
    /// The number that the instruction encodings use for this value.
    pub open spec fn num(self) -> u8 {
        match self {
            Cond::EQ => 0,
            Cond::NE => 1,
            Cond::CS => 2,
            Cond::CC => 3,
            Cond::MI => 4,
            Cond::PL => 5,
            Cond::VS => 6,
            Cond::VC => 7,
            Cond::HI => 8,
            Cond::LS => 9,
            Cond::GE => 10,
            Cond::LT => 11,
            Cond::GT => 12,
            Cond::LE => 13,
            Cond::AL => 14,
            Cond::NV => 15,
        }
    }

    pub fn code(self) -> (r: u8)
        ensures
            r == self.num(),
    {
        match self {
            Cond::EQ => 0,
            Cond::NE => 1,
            Cond::CS => 2,
            Cond::CC => 3,
            Cond::MI => 4,
            Cond::PL => 5,
            Cond::VS => 6,
            Cond::VC => 7,
            Cond::HI => 8,
            Cond::LS => 9,
            Cond::GE => 10,
            Cond::LT => 11,
            Cond::GT => 12,
            Cond::LE => 13,
            Cond::AL => 14,
            Cond::NV => 15,
        }
    }
}

/// Shift kinds of the shifted-register forms.
#[derive(Clone, Copy, Debug, PartialEq, Eq, Structural)]
pub enum Shift {
    LSL,
    LSR,
    ASR,
    ROR,
}

impl Shift {
    /// The number that the instruction encodings use for this value.
    pub open spec fn num(self) -> u8 {
        match self {
            Shift::LSL => 0,
            Shift::LSR => 1,
            Shift::ASR => 2,
            Shift::ROR => 3,
        }
    }

    pub fn code(self) -> (r: u8)
        ensures
            r == self.num(),
    {
        match self {
            Shift::LSL => 0,
            Shift::LSR => 1,
            Shift::ASR => 2,
            Shift::ROR => 3,
        }
    }
}

pub const RESERVED: Shift = Shift::ROR;

// Base instruction encodings
pub const MOVZ: u32 = 0x52800000;

pub const ORR_SHIFTED_REG: u32 = 0x2a000000;

pub const RET: u32 = 0xd65f0000;

pub const ADD_SHIFTED_REG: u32 = 0x0b000000;

pub const ADD_IMM: u32 = 0x11000000;

pub const SUB_SHIFTED_REG: u32 = 0x4b000000;

pub const SUB_IMM: u32 = 0x51000000;

pub const SUBS_SHIFTED_REG: u32 = 0x6b000000;

pub const SUBS_IMM: u32 = 0x71000000;

pub const UBFM: u32 = 0x53000000;

pub const ORR_IMM: u32 = 0x32000000;

pub const AND_IMM: u32 = 0x12000000;

pub const CSEL: u32 = 0x1a800000;

pub const CSET: u32 = 0x1a9f07e0;

pub const STP: u32 = 0x2800_0000;

pub const LDP: u32 = 0x2840_0000;

pub const STR_IMM: u32 = 0xb800_0000;

pub const LDR_IMM: u32 = 0xb840_0000;

pub const B_COND: u32 = 0x54000000;

pub const BL: u32 = 0x94000000;

pub const SVC: u32 = 0xd4000001;

pub const ENTRY_POINT: &'static str = "entry";

/// AArch64 logical-immediate fields: `n` (1 bit), `imms` (6 bits) and `immr` (6 bits).
#[derive(Clone, Copy, Debug, PartialEq, Eq, Structural)]
pub struct BitmaskImmediate {
    pub n: u8,
    pub imms: u8,
    pub immr: u8,
}

/// The 13-bit field `n:immr:imms` as it stands in an instruction (low bits of the word).
pub open spec fn bitmask_field(n: u8, imms: u8, immr: u8) -> u32 {
    ((n as u32) << 12) | ((immr as u32) << 6) | (imms as u32)
}

/// The packed 13-bit field reads back as its parts: `n` in bit 12, `immr` in bits 6..11 and
/// `imms` in bits 0..5, with nothing above bit 12.
pub proof fn lemma_bitmask_field_parts(n: u8, imms: u8, immr: u8)
    by (bit_vector)
    requires
        n <= 1,
        imms < 64,
        immr < 64,
    ensures
        bitmask_field(n, imms, immr) < 0x2000,
        (bitmask_field(n, imms, immr) >> 12) & 1 == n as u32,
        (bitmask_field(n, imms, immr) >> 6) & 0x3f == immr as u32,
        bitmask_field(n, imms, immr) & 0x3f == imms as u32,
{
}

/// Number of trailing zero bits (64 for zero).
fn safe_ctzll(x: u64) -> (r: u32)
    ensures
        r == u64_trailing_zeros(x),
{
    if x == 0 {
        proof {
            axiom_u64_trailing_zeros(x);
        }
        64
    } else {
        x.trailing_zeros()
    }
}

/// Number of leading zero bits (64 for zero).
fn safe_clzll(x: u64) -> (r: u32)
    ensures
        r as int == u64_leading_zeros(x),
{
    if x == 0 {
        proof {
            axiom_u64_leading_zeros(x);
        }
        64
    } else {
        x.leading_zeros()
    }
}

/// Bit facts about rotating `v` right by `x mod 64`: the amount is below 64, the shift pair
/// computes the rotation, and rotation keeps a word other than all zeros or all ones so.
proof fn lemma_rotate_bits(v: u64, x: u32)
    by (bit_vector)
    ensures
        (x & 0x3f) < 64,
        ((x & 0x3f) & 0x3f) as u64 == (x as u64) & 63,
        (x as u64) & 63 < 64,
        ror64(v, 0) == v,
        0 < (x & 0x3f) < 64 ==> (v >> (x & 0x3f)) | (v << ((64 - (x & 0x3f)) as u64)) == ror64(v, (x & 0x3f) as u64),
        v != 0 && v != 0xffff_ffff_ffff_ffffu64 ==> {
            &&& ror64(v, (x as u64) & 63) != 0
            &&& ror64(v, (x as u64) & 63) != 0xffff_ffff_ffff_ffffu64
            &&& !ror64(v, (x as u64) & 63) != 0
        },
{
}

/// `v` rotated right by `amount mod 64`.
fn rotate_right(v: u64, amount: u32) -> (res: u64)
    ensures
        res == ror64(v, (amount & 0x3f) as u64),
{
    let r = amount & 0x3f;
    proof {
        lemma_rotate_bits(v, amount);
    }
    if r == 0 {
        v
    } else {
        (v >> r) | (v << (64 - r))
    }
}

impl BitmaskImmediate {
    #[inline]
    pub fn to_u32(self) -> (r: u32)
        ensures
            r == bitmask_field(self.n, self.imms, self.immr),
    {
        ((self.n as u32) << 12) | ((self.immr as u32) << 6) | (self.imms as u32)
    }

    /// Try to encode a 64-bit value as an AArch64 logical-immediate (n, imms, immr).
    /// Returns Some(BitmaskImmediate) if encodable, otherwise None.
    pub fn try_from(value: u64) -> (res: Option<BitmaskImmediate>)
        ensures
            res.is_some() <==> is_logical_imm(value),
            res matches Some(b) ==> encodes_logical_imm(b.n, b.imms, b.immr, value),
    {
        if value == 0 || value == u64::MAX {
            proof {
                lemma_no_encoding_of_all_zeros_or_ones(value);
            }
            return None;
        }
        // rotations = trailing_zeros(value & (value + 1))
        let tmp = value & (value.wrapping_add(1));
        assert(value.wrapping_add(1) == (value + 1) as u64);
        let rotations = safe_ctzll(tmp);

        let normalized = rotate_right(value, rotations & 0x3F);

        let zeroes = safe_clzll(normalized) as u32;
        let ones = safe_ctzll(!normalized) as u32;
        proof {
            lemma_trailing_zeros_facts(tmp);
            lemma_leading_zeros_facts(normalized);
            lemma_trailing_zeros_facts(!normalized);
            lemma_rotate_bits(value, rotations);
        }

        // pattern width
        let size = zeroes + ones;

        if size == 0 {
            proof {
                lemma_not_encodable_when_search_fails(value, rotations as u64, zeroes as u64, ones as u64);
            }
            return None;
        }
        // check that rotating by 'size' yields the same pattern (size is an element width)
        if rotate_right(value, size & 0x3F) != value {
            proof {
                lemma_rotate_bits(value, size);
                lemma_not_encodable_when_search_fails(value, rotations as u64, zeroes as u64, ones as u64);
            }
            return None;
        }
        proof {
            lemma_rotate_bits(value, size);
            lemma_rotate_bits(value, rotations);
            let rr = (rotations as u64) & 63;
            assert(zeroes < 64 && ones < 64);
        }

        // n = (size >> 6) & 1
        let n = ((size >> 6) & 1) as u8;

        // imms = (((size << 1).wrapping_neg() | (ones - 1)) & 0x3F)
        let size_shifted = (size as u64) << 1;
        let neg_size_shifted = 0u64.wrapping_sub(size_shifted);
        let imms64 = (neg_size_shifted | ((ones as u64).wrapping_sub(1))) & 0x3F;
        let imms = imms64 as u8;

        // immr = ((rotations.wrapping_neg() & (size - 1)) & 0x3F)
        let neg_rot = 0u64.wrapping_sub(rotations as u64);
        let immr64 = (neg_rot & ((size as u64).wrapping_sub(1))) & 0x3F;
        let immr = immr64 as u8;
        proof {
            let z = zeroes as u64;
            let o = ones as u64;
            let rot = rotations as u64;
            assert({
                &&& ((size >> 6) & 1) as u8 == ((((z + o) as u64) >> 6) & 1) as u8
                &&& imms64 == ((((0 - (((z + o) as u64) << 1)) as u64) | ((o - 1) as u64)) & 0x3f)
                &&& immr64 == ((((0 - rot) as u64) & (((z + o) - 1) as u64)) & 0x3f)
            }) by (bit_vector)
                requires
                    rot == rotations as u64, z == zeroes as u64, o == ones as u64, size == zeroes + ones,
                    0 < size, zeroes < 64, ones < 64,
                    size_shifted == (size as u64) << 1,
                    neg_size_shifted == (if 0 - size_shifted < 0 { (0 - size_shifted + 0x1_0000_0000_0000_0000) as u64 } else { (0 - size_shifted) as u64 }),
                    imms64 == (neg_size_shifted | (if (ones as u64) - 1 < 0 { ((ones as u64) - 1 + 0x1_0000_0000_0000_0000) as u64 } else { ((ones as u64) - 1) as u64 })) & 0x3f,
                    neg_rot == (if 0 - (rotations as u64) < 0 { (0 - (rotations as u64) + 0x1_0000_0000_0000_0000) as u64 } else { (0 - (rotations as u64)) as u64 }),
                    immr64 == (neg_rot & (if (size as u64) - 1 < 0 { ((size as u64) - 1 + 0x1_0000_0000_0000_0000) as u64 } else { ((size as u64) - 1) as u64 })) & 0x3f;
            lemma_search_sound(value, rot, z, o);
        }
        Some(BitmaskImmediate { n, imms, immr })
    }
}

/// Integer division rounding toward zero, as Rust's `/` on signed integers.
pub open spec fn trunc_div(a: int, d: int) -> int {
    if a >= 0 {
        a / d
    } else {
        -((-a) / d)
    }
}

/// The byte distance from `pc_current` to `target`, both read as signed addresses.
pub open spec fn branch_distance(pc_current: usize, target: usize) -> int {
    (target as isize) - (pc_current as isize)
}

/// Offset for a conditional branch from `pc_current` to `target`: the byte distance halved
/// (rounding toward zero), and as a field word the value itself, or `2^20` plus it when negative.
pub fn calc_bcond_imm19(pc_current: usize, target: usize) -> (r: (isize, u32))
    requires
        isize::MIN <= branch_distance(pc_current, target) <= isize::MAX,
    ensures
        r.0 == trunc_div(branch_distance(pc_current, target), 2),
        r.1 == if r.0 < 0 { (0x10_0000 + r.0) as u32 } else { r.0 as u32 },
{
    let offset_bytes = target as isize - pc_current as isize;
    let imm19: isize = offset_bytes / 2;
    let imm19_bin: u32 = if imm19 < 0 {
        (0x10_0000isize + imm19) as u32
    } else {
        imm19 as u32
    };
    (imm19, imm19_bin)
}

/// Offset for a `b`/`bl` from `pc_current` to `target`: the byte distance divided by four
/// (rounding toward zero), and as a field word the value itself, or `2^28` plus it when
/// negative, cut to 26 bits.
pub fn calc_b_imm26(pc_current: usize, target: usize) -> (r: (isize, u32))
    requires
        isize::MIN <= branch_distance(pc_current, target) <= isize::MAX,
    ensures
        r.0 == trunc_div(branch_distance(pc_current, target), 4),
        r.1 == (if r.0 < 0 { (0x1000_0000 + r.0) as u32 } else { r.0 as u32 }) & 0x3ff_ffff,
{
    let offset_bytes = target as isize - pc_current as isize;
    let imm26: isize = offset_bytes / 4;
    let mut imm26_bin: u32 = if imm26 < 0 {
        (0x1000_0000isize + imm26) as u32
    } else {
        imm26 as u32
    };
    imm26_bin &= 0x3ffffff;
    (imm26, imm26_bin)
}

/// A character that may start a symbol: an ASCII letter or one of `+-*/!?<>=_`.
pub open spec fn is_initial_symbol_char_spec(c: char) -> bool {
    ('a' <= c && c <= 'z') || ('A' <= c && c <= 'Z') || c == '+' || c == '-' || c == '*' || c == '/'
        || c == '!' || c == '?' || c == '<' || c == '>' || c == '=' || c == '_'
}

/// A character that may continue a symbol: also an ASCII digit.
pub open spec fn is_subsequent_symbol_char_spec(c: char) -> bool {
    is_initial_symbol_char_spec(c) || ('0' <= c && c <= '9')
}

/// Whether `c` is one of `+-*/!?<>=_`.
fn is_symbol_punctuation(c: char) -> (r: bool)
    ensures
        r == (c == '+' || c == '-' || c == '*' || c == '/' || c == '!' || c == '?' || c == '<'
            || c == '>' || c == '=' || c == '_'),
{
    match c {
        '+' | '-' | '*' | '/' | '!' | '?' | '<' | '>' | '=' | '_' => true,
        _ => false,
    }
}

pub fn is_initial_symbol_char(c: char) -> (r: bool)
    ensures
        r == is_initial_symbol_char_spec(c),
{
    ('a' <= c && c <= 'z') || ('A' <= c && c <= 'Z') || is_symbol_punctuation(c)
}

pub fn is_subsequent_symbol_char(c: char) -> (r: bool)
    ensures
        r == is_subsequent_symbol_char_spec(c),
{
    ('a' <= c && c <= 'z') || ('A' <= c && c <= 'Z') || ('0' <= c && c <= '9') || is_symbol_punctuation(c)
}

} // verus!
