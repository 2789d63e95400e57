//! The compiler from AST nodes to AArch64 code. An expression leaves its tagged value in
//! X0; binary primitives keep their second operand in a frame slot addressed from X29.
use vstd::prelude::*;
use crate::ast::{
    ast_is_bool, ast_is_char, ast_is_integer, ast_is_nil, ast_is_pair, ast_is_symbol, ast_pair_car,
    ast_pair_cdr, ast_symbol_matches, lemma_immediate_bits, node_tag, object_index, operand1, operand2,
    ASTNode, AstHeap,
};
use crate::codegen::{
    add_shifted_reg_word, bitfield_word, cset_word, imm12_word, load_store_word, movz_word,
    pair_word, ret_word, sub_shifted_reg_word, subs_shifted_reg_word, ASMGenerator,
};
use crate::common::{
    BitmaskImmediate, IVCond, RegisterX, Shift, Word, ADD_IMM, AND_IMM, ENTRY_POINT, K_BOOL_SHIFT,
    K_BOOL_TAG, K_CHAR_SHIFT, K_CHAR_TAG, K_IMMEDIATE_TAG_MASK, K_INTEGER_SHIFT, K_INTEGER_TAG,
    K_INTEGER_TAG_MASK, K_WORD_SIZE, LDP, LDR_IMM, ORR_IMM, SP, STP, STR_IMM, SUBS_IMM, SUB_IMM,
};
use crate::logical_imm::{lemma_low_ones_encoding, low_mask};
use crate::object::{object_encode_integer, object_false, object_nil};

verus! {

/// `mov x0, #(v & 0xffff)`.
pub open spec fn mov_x0_word(v: u64) -> u32 {
    movz_word(0, (v & 0xffff) as u16, 0, true)
}

/// `lsl x0, x0, #shift`.
pub open spec fn lsl_x0_word(shift: i32) -> u32 {
    bitfield_word(0x53000000, 0, 0, (((-shift) as i32) & 0x3fi32) as u8, ((63i32 - shift) as i32) as u8, true, true)
}

/// `lsr x0, x0, #shift`.
pub open spec fn lsr_x0_word(shift: i32) -> u32 {
    bitfield_word(0x53000000, 0, 0, shift as u8, 0x3f, true, true)
}

/// `orr x0, x0, #0x1f`: the boolean tag (its logical immediate is `n = 1, imms = 4, immr = 0`).
pub open spec fn orr_bool_tag_word() -> u32 {
    bitfield_word(ORR_IMM, 0, 0, 0, 4, true, true)
}

/// Turn the flags into a tagged boolean in X0: `cset x0, cond; lsl x0, x0, #5; orr x0, x0, #0x1f`.
pub open spec fn bool_from_flags_code(cond: u8) -> Seq<u32> {
    seq![cset_word(0, cond, true), lsl_x0_word(5), orr_bool_tag_word()]
}

/// Compare X0 with an immediate and leave the tagged result of "equal" in X0.
pub open spec fn compare_imm32_code(value: i32) -> Seq<u32> {
    seq![imm12_word(SUBS_IMM, 0, 31, value as u16, false, true)] + bool_from_flags_code(1)
}

/// Compare X0 with X1 and leave the tagged result of "lower or same" in X0.
pub open spec fn compare_reg_code() -> Seq<u32> {
    seq![subs_shifted_reg_word(63, 0, 1, 0, 0, true)] + bool_from_flags_code(8)
}

/// `str x0, [x29, #si]!` as the compiler writes it (the offset truncated to 16 bits).
pub open spec fn spill_word(si: i64) -> u32 {
    load_store_word(STR_IMM, 29, 0, si as i16, true, false, true)
}

/// `ldr x1, [x29], #-si`, the reload of a spilled operand.
pub open spec fn reload_word(si: i64) -> u32 {
    load_store_word(LDR_IMM, 29, 1, (-si) as i16, false, false, true)
}

/// The primitives of one argument.
pub open spec fn is_unary_primitive(name: Seq<char>) -> bool {
    name == "add1"@ || name == "sub1"@ || name == "integer->char"@ || name == "char->integer"@
        || name == "nil?"@ || name == "zero?"@ || name == "not"@ || name == "integer?"@ || name == "boolean?"@
}

/// The primitives of two arguments.
pub open spec fn is_binary_primitive(name: Seq<char>) -> bool {
    name == "+"@ || name == "-"@ || name == "<"@ || name == "="@
}

/// What a unary primitive appends after its operand's code.
pub open spec fn unary_tail(name: Seq<char>) -> Seq<u32> {
    if name == "add1"@ {
        seq![imm12_word(ADD_IMM, 0, 0, 4, false, true)]
    } else if name == "sub1"@ {
        seq![imm12_word(SUB_IMM, 0, 0, 4, false, true)]
    } else if name == "integer->char"@ {
        seq![lsl_x0_word(6), bitfield_word(ORR_IMM, 0, 0, 0, 3, true, true)]
    } else if name == "char->integer"@ {
        seq![lsr_x0_word(8), lsl_x0_word(2)]
    } else if name == "nil?"@ {
        compare_imm32_code(0x2f)
    } else if name == "zero?"@ {
        compare_imm32_code(0)
    } else if name == "not"@ {
        compare_imm32_code(31)
    } else if name == "integer?"@ {
        seq![bitfield_word(AND_IMM, 0, 0, 0, 1, true, true)] + compare_imm32_code(0)
    } else {
        seq![bitfield_word(AND_IMM, 0, 0, 0, 4, true, true)] + compare_imm32_code(0x1f)
    }
}

/// What a binary primitive appends after the code that leaves its operands in X0 and X1.
pub open spec fn binary_tail(name: Seq<char>) -> Seq<u32> {
    if name == "+"@ {
        seq![add_shifted_reg_word(0, 0, 1, 0, 0, true)]
    } else if name == "-"@ {
        seq![sub_shifted_reg_word(0, 0, 1, 0, 0, true)]
    } else if name == "<"@ {
        compare_reg_code()
    } else {
        seq![subs_shifted_reg_word(63, 0, 1, 0, 0, true)] + bool_from_flags_code(1)
    }
}

impl AstHeap {
    /// The compiler accepts `node` with the frame slot `si`, descending at most `d` calls:
    /// immediates, and calls of a known primitive with enough arguments, whose arguments it
    /// accepts in turn.
    pub open spec fn compilable_within(&self, node: u64, si: i64, d: nat) -> bool
        decreases d,
    {
        if node & 3 == 0 || node & 0x1f == 0x0f || node & 0x1f == 0x1f {
            true
        } else if node_tag(node) == 1 && d > 0 {
            &&& self.is_pair_at(node)
            &&& self.call_compilable_within(self.car_of(node), self.cdr_of(node), si, (d - 1) as nat)
        } else {
            false
        }
    }

    pub open spec fn call_compilable_within(&self, callable: u64, args: u64, si: i64, d: nat) -> bool
        decreases d,
    {
        if d == 0 {
            false
        } else {
            &&& self.is_symbol_at(callable)
            &&& self.is_pair_at(args)
            &&& if is_unary_primitive(self.name_of(callable)) {
                self.compilable_within(self.car_of(args), si, (d - 1) as nat)
            } else if is_binary_primitive(self.name_of(callable)) {
                &&& self.is_pair_at(self.cdr_of(args))
                &&& si >= i64::MIN + 8
                &&& self.compilable_within(self.car_of(self.cdr_of(args)), si, (d - 1) as nat)
                &&& self.compilable_within(self.car_of(args), (si - 8) as i64, (d - 1) as nat)
            } else {
                false
            }
        }
    }

    /// The code the compiler emits for `node`, descending at most `d` calls.
    pub open spec fn expr_code_within(&self, node: u64, si: i64, d: nat) -> Seq<u32>
        decreases d,
    {
        if node & 3 == 0 || node & 0x1f == 0x0f || node & 0x1f == 0x1f {
            seq![mov_x0_word(node)]
        } else if d > 0 {
            self.call_code_within(self.car_of(node), self.cdr_of(node), si, (d - 1) as nat)
        } else {
            seq![]
        }
    }

    /// The code the compiler emits for a call of `callable` with `args`.
    pub open spec fn call_code_within(&self, callable: u64, args: u64, si: i64, d: nat) -> Seq<u32>
        decreases d,
    {
        let name = self.name_of(callable);
        let first = self.car_of(args);
        let second = self.car_of(self.cdr_of(args));
        if d == 0 {
            seq![]
        } else if is_unary_primitive(name) {
            self.expr_code_within(first, si, (d - 1) as nat) + unary_tail(name)
        } else {
            self.expr_code_within(second, si, (d - 1) as nat) + seq![spill_word(si)]
                + self.expr_code_within(first, (si - 8) as i64, (d - 1) as nat) + seq![reload_word(si)]
                + binary_tail(name)
        }
    }

    /// The compiler accepts `node` with the frame slot `si`. Each call it descends into
    /// takes two pairs, so a walk that reaches no pair twice (the heap has no cycle on it)
    /// descends at most as many calls as the heap has objects.
    pub open spec fn compilable(&self, node: u64, si: i64) -> bool {
        self.compilable_within(node, si, self.objects().len())
    }

    /// The compiler accepts a call of `callable` with `args`.
    pub open spec fn call_compilable(&self, callable: u64, args: u64, si: i64) -> bool {
        self.call_compilable_within(callable, args, si, self.objects().len())
    }

    /// The code the compiler emits for `node`.
    pub open spec fn expr_code(&self, node: u64, si: i64) -> Seq<u32> {
        self.expr_code_within(node, si, self.objects().len())
    }

    /// The code the compiler emits for a call of `callable` with `args`.
    pub open spec fn call_code(&self, callable: u64, args: u64, si: i64) -> Seq<u32> {
        self.call_code_within(callable, args, si, self.objects().len())
    }
}

/// One more than the index of a pair node; 0 for other nodes.
spec fn pair_rank(node: u64) -> nat {
    if node_tag(node) == 1 && object_index(node) >= 0 {
        (object_index(node) + 1) as nat
    } else {
        0
    }
}

/// In a heap whose pairs refer only to older objects, what the compiler accepts and emits
/// within depth `d` it accepts and emits alike within any depth from the node's rank on.
proof fn lemma_compilable_depth(h: &AstHeap, node: u64, si: i64, d: nat, e: nat)
    requires
        h.wf(),
        h.valid_node(node),
        h.compilable_within(node, si, d),
        e >= pair_rank(node),
    ensures
        h.compilable_within(node, si, e),
        h.expr_code_within(node, si, e) == h.expr_code_within(node, si, d),
    decreases d,
{
    if !(node & 3 == 0 || node & 0x1f == 0x0f || node & 0x1f == 0x1f) {
        let k = object_index(node);
        assert(h.objects()[k] is Pair);
        lemma_call_compilable_depth(h, h.car_of(node), h.cdr_of(node), si, (d - 1) as nat, (e - 1) as nat);
    }
}

proof fn lemma_call_compilable_depth(h: &AstHeap, callable: u64, args: u64, si: i64, d: nat, e: nat)
    requires
        h.wf(),
        h.valid_node(args),
        h.call_compilable_within(callable, args, si, d),
        e >= pair_rank(args),
    ensures
        h.call_compilable_within(callable, args, si, e),
        h.call_code_within(callable, args, si, e) == h.call_code_within(callable, args, si, d),
    decreases d,
{
    let k = object_index(args);
    assert(h.objects()[k] is Pair);
    let first = h.car_of(args);
    if is_unary_primitive(h.name_of(callable)) {
        lemma_compilable_depth(h, first, si, (d - 1) as nat, (e - 1) as nat);
    } else {
        let rest = h.cdr_of(args);
        let j = object_index(rest);
        assert(h.objects()[j] is Pair);
        lemma_compilable_depth(h, h.car_of(rest), si, (d - 1) as nat, (e - 1) as nat);
        lemma_compilable_depth(h, first, (si - 8) as i64, (d - 1) as nat, (e - 1) as nat);
    }
}

/// In a heap built by the constructors, whose pairs refer only to older objects, bounding
/// the compiler's walk by the heap's size turns nothing away: a node it accepts within some
/// depth is `compilable`, and its code is the same.
pub proof fn lemma_compilable_any_depth(h: &AstHeap, node: u64, si: i64, d: nat)
    requires
        h.wf(),
        h.valid_node(node),
        h.compilable_within(node, si, d),
    ensures
        h.compilable(node, si),
        h.expr_code(node, si) == h.expr_code_within(node, si, d),
{
    lemma_compilable_depth(h, node, si, d, h.objects().len());
}

/// The words of the primitive tails, evaluated.
proof fn lemma_tail_words()
    by (bit_vector)
    ensures
        imm12_word(ADD_IMM, 0, 0, 4, false, true) == 0x91001000u32,
        imm12_word(SUB_IMM, 0, 0, 4, false, true) == 0xd1001000u32,
        lsl_x0_word(6) == 0xd37ae400u32,
        bitfield_word(ORR_IMM, 0, 0, 0, 3, true, true) == 0xb2400c00u32,
        lsr_x0_word(8) == 0xd348fc00u32,
        lsl_x0_word(2) == 0xd37ef400u32,
        imm12_word(SUBS_IMM, 0, 31, 0x2fi32 as u16, false, true) == 0xf100bc1fu32,
        imm12_word(SUBS_IMM, 0, 31, 0i32 as u16, false, true) == 0xf100001fu32,
        imm12_word(SUBS_IMM, 0, 31, 31i32 as u16, false, true) == 0xf1007c1fu32,
        cset_word(0, 1, true) == 0x9a9f17e0u32,
        cset_word(0, 8, true) == 0x9a9f87e0u32,
        lsl_x0_word(5) == 0xd37be800u32,
        orr_bool_tag_word() == 0xb2401000u32,
        bitfield_word(AND_IMM, 0, 0, 0, 1, true, true) == 0x92400400u32,
        bitfield_word(AND_IMM, 0, 0, 0, 4, true, true) == 0x92401000u32,
        add_shifted_reg_word(0, 0, 1, 0, 0, true) == 0x8b010000u32,
        sub_shifted_reg_word(0, 0, 1, 0, 0, true) == 0xcb010000u32,
        subs_shifted_reg_word(63, 0, 1, 0, 0, true) == 0xeb01001fu32,
{
}

/// The primitives' names are distinct.
proof fn lemma_primitive_names_distinct()
    ensures
        "add1"@ != "sub1"@,
        "add1"@ != "integer->char"@,
        "add1"@ != "char->integer"@,
        "add1"@ != "nil?"@,
        "add1"@ != "zero?"@,
        "add1"@ != "not"@,
        "add1"@ != "integer?"@,
        "add1"@ != "boolean?"@,
        "add1"@ != "+"@,
        "add1"@ != "-"@,
        "add1"@ != "<"@,
        "add1"@ != "="@,
        "sub1"@ != "integer->char"@,
        "sub1"@ != "char->integer"@,
        "sub1"@ != "nil?"@,
        "sub1"@ != "zero?"@,
        "sub1"@ != "not"@,
        "sub1"@ != "integer?"@,
        "sub1"@ != "boolean?"@,
        "sub1"@ != "+"@,
        "sub1"@ != "-"@,
        "sub1"@ != "<"@,
        "sub1"@ != "="@,
        "integer->char"@ != "char->integer"@,
        "integer->char"@ != "nil?"@,
        "integer->char"@ != "zero?"@,
        "integer->char"@ != "not"@,
        "integer->char"@ != "integer?"@,
        "integer->char"@ != "boolean?"@,
        "integer->char"@ != "+"@,
        "integer->char"@ != "-"@,
        "integer->char"@ != "<"@,
        "integer->char"@ != "="@,
        "char->integer"@ != "nil?"@,
        "char->integer"@ != "zero?"@,
        "char->integer"@ != "not"@,
        "char->integer"@ != "integer?"@,
        "char->integer"@ != "boolean?"@,
        "char->integer"@ != "+"@,
        "char->integer"@ != "-"@,
        "char->integer"@ != "<"@,
        "char->integer"@ != "="@,
        "nil?"@ != "zero?"@,
        "nil?"@ != "not"@,
        "nil?"@ != "integer?"@,
        "nil?"@ != "boolean?"@,
        "nil?"@ != "+"@,
        "nil?"@ != "-"@,
        "nil?"@ != "<"@,
        "nil?"@ != "="@,
        "zero?"@ != "not"@,
        "zero?"@ != "integer?"@,
        "zero?"@ != "boolean?"@,
        "zero?"@ != "+"@,
        "zero?"@ != "-"@,
        "zero?"@ != "<"@,
        "zero?"@ != "="@,
        "not"@ != "integer?"@,
        "not"@ != "boolean?"@,
        "not"@ != "+"@,
        "not"@ != "-"@,
        "not"@ != "<"@,
        "not"@ != "="@,
        "integer?"@ != "boolean?"@,
        "integer?"@ != "+"@,
        "integer?"@ != "-"@,
        "integer?"@ != "<"@,
        "integer?"@ != "="@,
        "boolean?"@ != "+"@,
        "boolean?"@ != "-"@,
        "boolean?"@ != "<"@,
        "boolean?"@ != "="@,
        "+"@ != "-"@,
        "+"@ != "<"@,
        "+"@ != "="@,
        "-"@ != "<"@,
        "-"@ != "="@,
        "<"@ != "="@,
{
    reveal_strlit("add1");
    reveal_strlit("sub1");
    reveal_strlit("integer->char");
    reveal_strlit("char->integer");
    reveal_strlit("nil?");
    reveal_strlit("zero?");
    reveal_strlit("not");
    reveal_strlit("integer?");
    reveal_strlit("boolean?");
    reveal_strlit("+");
    reveal_strlit("-");
    reveal_strlit("<");
    reveal_strlit("=");
    assert("add1"@[0] != "sub1"@[0]);
    assert("add1"@.len() != "integer->char"@.len());
    assert("add1"@.len() != "char->integer"@.len());
    assert("add1"@[0] != "nil?"@[0]);
    assert("add1"@.len() != "zero?"@.len());
    assert("add1"@.len() != "not"@.len());
    assert("add1"@.len() != "integer?"@.len());
    assert("add1"@.len() != "boolean?"@.len());
    assert("add1"@.len() != "+"@.len());
    assert("add1"@.len() != "-"@.len());
    assert("add1"@.len() != "<"@.len());
    assert("add1"@.len() != "="@.len());
    assert("sub1"@.len() != "integer->char"@.len());
    assert("sub1"@.len() != "char->integer"@.len());
    assert("sub1"@[0] != "nil?"@[0]);
    assert("sub1"@.len() != "zero?"@.len());
    assert("sub1"@.len() != "not"@.len());
    assert("sub1"@.len() != "integer?"@.len());
    assert("sub1"@.len() != "boolean?"@.len());
    assert("sub1"@.len() != "+"@.len());
    assert("sub1"@.len() != "-"@.len());
    assert("sub1"@.len() != "<"@.len());
    assert("sub1"@.len() != "="@.len());
    assert("integer->char"@[0] != "char->integer"@[0]);
    assert("integer->char"@.len() != "nil?"@.len());
    assert("integer->char"@.len() != "zero?"@.len());
    assert("integer->char"@.len() != "not"@.len());
    assert("integer->char"@.len() != "integer?"@.len());
    assert("integer->char"@.len() != "boolean?"@.len());
    assert("integer->char"@.len() != "+"@.len());
    assert("integer->char"@.len() != "-"@.len());
    assert("integer->char"@.len() != "<"@.len());
    assert("integer->char"@.len() != "="@.len());
    assert("char->integer"@.len() != "nil?"@.len());
    assert("char->integer"@.len() != "zero?"@.len());
    assert("char->integer"@.len() != "not"@.len());
    assert("char->integer"@.len() != "integer?"@.len());
    assert("char->integer"@.len() != "boolean?"@.len());
    assert("char->integer"@.len() != "+"@.len());
    assert("char->integer"@.len() != "-"@.len());
    assert("char->integer"@.len() != "<"@.len());
    assert("char->integer"@.len() != "="@.len());
    assert("nil?"@.len() != "zero?"@.len());
    assert("nil?"@.len() != "not"@.len());
    assert("nil?"@.len() != "integer?"@.len());
    assert("nil?"@.len() != "boolean?"@.len());
    assert("nil?"@.len() != "+"@.len());
    assert("nil?"@.len() != "-"@.len());
    assert("nil?"@.len() != "<"@.len());
    assert("nil?"@.len() != "="@.len());
    assert("zero?"@.len() != "not"@.len());
    assert("zero?"@.len() != "integer?"@.len());
    assert("zero?"@.len() != "boolean?"@.len());
    assert("zero?"@.len() != "+"@.len());
    assert("zero?"@.len() != "-"@.len());
    assert("zero?"@.len() != "<"@.len());
    assert("zero?"@.len() != "="@.len());
    assert("not"@.len() != "integer?"@.len());
    assert("not"@.len() != "boolean?"@.len());
    assert("not"@.len() != "+"@.len());
    assert("not"@.len() != "-"@.len());
    assert("not"@.len() != "<"@.len());
    assert("not"@.len() != "="@.len());
    assert("integer?"@[0] != "boolean?"@[0]);
    assert("integer?"@.len() != "+"@.len());
    assert("integer?"@.len() != "-"@.len());
    assert("integer?"@.len() != "<"@.len());
    assert("integer?"@.len() != "="@.len());
    assert("boolean?"@.len() != "+"@.len());
    assert("boolean?"@.len() != "-"@.len());
    assert("boolean?"@.len() != "<"@.len());
    assert("boolean?"@.len() != "="@.len());
    assert("+"@[0] != "-"@[0]);
    assert("+"@[0] != "<"@[0]);
    assert("+"@[0] != "="@[0]);
    assert("-"@[0] != "<"@[0]);
    assert("-"@[0] != "="@[0]);
    assert("<"@[0] != "="@[0]);
}

/// What each primitive appends after its operands' code, as instruction words. The operand
/// of a unary primitive is in x0. A binary primitive has its first operand in x0 and its
/// second in x1, and works on them in that order:
/// - `add1`: `add x0, x0, #4`; `sub1`: `sub x0, x0, #4` (the tagged 1);
/// - `integer->char`: `lsl x0, x0, #6; orr x0, x0, #0xf`;
/// - `char->integer`: `lsr x0, x0, #8; lsl x0, x0, #2`;
/// - `nil?`, `zero?`, `not`: `cmp x0, #0x2f`, `#0`, `#0x1f`, then the tagged boolean of "equal";
/// - `integer?`, `boolean?`: `and x0, x0, #3` or `#0x1f`, then compare with 0 or 0x1f;
/// - `+`: `add x0, x0, x1`; `-`: `sub x0, x0, x1` (first minus second);
/// - `<`: `cmp x0, x1`, then the tagged boolean of "lower or same";
/// - `=`: `cmp x0, x1`, then the tagged boolean of "equal".
/// The tagged boolean of a condition is `cset x0, cond; lsl x0, x0, #5; orr x0, x0, #0x1f`.
pub proof fn lemma_primitive_tails()
    ensures
        unary_tail("add1"@) == seq![0x91001000u32],
        unary_tail("sub1"@) == seq![0xd1001000u32],
        unary_tail("integer->char"@) == seq![0xd37ae400u32, 0xb2400c00u32],
        unary_tail("char->integer"@) == seq![0xd348fc00u32, 0xd37ef400u32],
        unary_tail("nil?"@) == seq![0xf100bc1fu32, 0x9a9f17e0u32, 0xd37be800u32, 0xb2401000u32],
        unary_tail("zero?"@) == seq![0xf100001fu32, 0x9a9f17e0u32, 0xd37be800u32, 0xb2401000u32],
        unary_tail("not"@) == seq![0xf1007c1fu32, 0x9a9f17e0u32, 0xd37be800u32, 0xb2401000u32],
        unary_tail("integer?"@) == seq![0x92400400u32, 0xf100001fu32, 0x9a9f17e0u32, 0xd37be800u32, 0xb2401000u32],
        unary_tail("boolean?"@) == seq![0x92401000u32, 0xf1007c1fu32, 0x9a9f17e0u32, 0xd37be800u32, 0xb2401000u32],
        binary_tail("+"@) == seq![0x8b010000u32],
        binary_tail("-"@) == seq![0xcb010000u32],
        binary_tail("<"@) == seq![0xeb01001fu32, 0x9a9f87e0u32, 0xd37be800u32, 0xb2401000u32],
        binary_tail("="@) == seq![0xeb01001fu32, 0x9a9f17e0u32, 0xd37be800u32, 0xb2401000u32],
{
    lemma_tail_words();
    lemma_primitive_names_distinct();
    reveal_strlit("add1");
    reveal_strlit("sub1");
    reveal_strlit("integer->char");
    reveal_strlit("char->integer");
    reveal_strlit("nil?");
    reveal_strlit("zero?");
    reveal_strlit("not");
    reveal_strlit("integer?");
    reveal_strlit("boolean?");
    reveal_strlit("+");
    reveal_strlit("-");
    reveal_strlit("<");
    reveal_strlit("=");
    assert(compare_imm32_code(0) =~= seq![0xf100001fu32, 0x9a9f17e0u32, 0xd37be800u32, 0xb2401000u32]);
    assert(compare_imm32_code(31) =~= seq![0xf1007c1fu32, 0x9a9f17e0u32, 0xd37be800u32, 0xb2401000u32]);
    assert(unary_tail("integer?"@) =~= seq![0x92400400u32, 0xf100001fu32, 0x9a9f17e0u32, 0xd37be800u32, 0xb2401000u32]);
    assert(unary_tail("boolean?"@) =~= seq![0x92401000u32, 0xf1007c1fu32, 0x9a9f17e0u32, 0xd37be800u32, 0xb2401000u32]);
    assert(unary_tail("nil?"@) =~= seq![0xf100bc1fu32, 0x9a9f17e0u32, 0xd37be800u32, 0xb2401000u32]);
    assert(unary_tail("zero?"@) =~= seq![0xf100001fu32, 0x9a9f17e0u32, 0xd37be800u32, 0xb2401000u32]);
    assert(unary_tail("not"@) =~= seq![0xf1007c1fu32, 0x9a9f17e0u32, 0xd37be800u32, 0xb2401000u32]);
    assert(binary_tail("<"@) =~= seq![0xeb01001fu32, 0x9a9f87e0u32, 0xd37be800u32, 0xb2401000u32]);
    assert(binary_tail("="@) =~= seq![0xeb01001fu32, 0x9a9f17e0u32, 0xd37be800u32, 0xb2401000u32]);
    assert(unary_tail("integer->char"@) =~= seq![0xd37ae400u32, 0xb2400c00u32]);
    assert(unary_tail("char->integer"@) =~= seq![0xd348fc00u32, 0xd37ef400u32]);
}

/// The code of an accepted call of `-`: the second operand's code, its spill to the frame
/// slot, the first operand's code one slot further down, the reload of the second operand
/// into x1, and `sub x0, x0, x1`, so the result is the first operand minus the second.
pub proof fn lemma_minus_call_code(h: &AstHeap, callable: u64, args: u64, si: i64, d: nat)
    requires
        h.call_compilable_within(callable, args, si, d),
        h.name_of(callable) == "-"@,
    ensures
        h.call_code_within(callable, args, si, d) == h.expr_code_within(h.car_of(h.cdr_of(args)), si, (d - 1) as nat)
            + seq![spill_word(si)] + h.expr_code_within(h.car_of(args), (si - 8) as i64, (d - 1) as nat)
            + seq![reload_word(si)] + seq![0xcb010000u32],
{
    lemma_primitive_tails();
    lemma_primitive_names_distinct();
    reveal_strlit("-");
    reveal_strlit("add1");
    reveal_strlit("sub1");
    reveal_strlit("integer->char");
    reveal_strlit("char->integer");
    reveal_strlit("nil?");
    reveal_strlit("zero?");
    reveal_strlit("not");
    reveal_strlit("integer?");
    reveal_strlit("boolean?");
    assert(!is_unary_primitive("-"@));
}

/// The tag masks as runs of low ones, and the low 12 bits of the tagged integer 1.
proof fn lemma_tag_masks()
    by (bit_vector)
    ensures
        low_mask(2) == 3,
        low_mask(4) == 0x0f,
        low_mask(5) == 0x1f,
        4u64 & 0xfff == 4,
{
}

/// The depth left after descending one call.
pub open spec fn one_less(d: nat) -> nat {
    (d - 1) as nat
}

/// The logical immediate of a run of `k` low ones is `n = 1, imms = k - 1, immr = 0`.
fn low_ones_immediate(tag: u32, k: u64) -> (imm: BitmaskImmediate)
    requires
        0 < k < 64,
        tag as u64 == low_mask(k),
    ensures
        imm.n == 1,
        imm.imms == (k - 1) as u8,
        imm.immr == 0,
{
    proof {
        lemma_low_ones_encoding(k, 0, 0, 0);
    }
    match BitmaskImmediate::try_from(tag as u64) {
        Some(imm) => {
            proof {
                lemma_low_ones_encoding(k, imm.n, imm.imms, imm.immr);
            }
            imm
        },
        None => unreached(),
    }
}

/// The low 16 bits of a compare operand.
fn low_half(value: i32) -> (r: u16)
    ensures
        r == value as u16,
{
    value as u16
}

/// `K_BOOL_SHIFT` as a shift amount.
fn bool_shift() -> (r: i32)
    ensures
        r == 5,
{
    K_BOOL_SHIFT as i32
}

impl ASMGenerator {
    /// compile an expression AST node into instructions, return 0 on success
    pub fn compile_expr(&mut self, heap: &AstHeap, node: ASTNode, stack_index: Word) -> (r: i32)
        requires
            heap.compilable(node, stack_index),
        ensures
            r == 0,
            final(self).emitted(&*old(self), heap.expr_code(node, stack_index)),
    {
        self.compile_expr_within(heap, node, stack_index, Ghost(heap.objects().len()))
    }

    fn compile_expr_within(&mut self, heap: &AstHeap, node: ASTNode, stack_index: Word, Ghost(d): Ghost<nat>) -> (r: i32)
        requires
            heap.compilable_within(node, stack_index, d),
        ensures
            r == 0,
            final(self).emitted(&*old(self), heap.expr_code_within(node, stack_index, d)),
        decreases d,
    {
        if ast_is_integer(node) {
            let tagged = node;
            self.gen_mov_imm_instruction(RegisterX::X0, (tagged & 0xffff) as u16, 0, true);
            return 0;
        }
        // Character immediate
        if ast_is_char(node) {
            let tagged = node;
            self.gen_mov_imm_instruction(RegisterX::X0, (tagged & 0xffff) as u16, 0, true);
            return 0;
        }
        // Boolean immediate
        if ast_is_bool(node) {
            let tagged = node;
            self.gen_mov_imm_instruction(RegisterX::X0, (tagged & 0xffff) as u16, 0, true);
            return 0;
        }
        // Nil
        if ast_is_nil(node) {
            // nil carries the character tag, so the branch above has handled it
            proof {
                lemma_immediate_bits(node, 0, 0);
            }
            let nil_tagged = object_nil() as u64;
            self.gen_mov_imm_instruction(RegisterX::X0, (nil_tagged & 0xffff) as u16, 0, true);
            return 0;
        }
        // Pair / function call
        if ast_is_pair(node) {
            let car = ast_pair_car(heap, node);
            let cdr = ast_pair_cdr(heap, node);
            return self.compile_call_within(heap, car, cdr, stack_index, Ghost((d - 1) as nat));
        }
        unreached()
    }

    /// helper to create boolean/compare results as tagged objects
    fn compile_compare_imm32(&mut self, value: i32)
        ensures
            final(self).emitted(&*old(self), compare_imm32_code(value)),
    {
        let ghost g0 = *self;
        // Compare X0 with immediate (sets flags): SUBS XZR, X0, imm
        self.gen_cmp_imm_instruction(RegisterX::X0, low_half(value), false, true);
        // Set X0 = 0/1 depending on EQ
        self.gen_cset_instruction(RegisterX::X0, IVCond::EQ, true);
        // Shift payload to boolean payload location
        self.gen_lsl_imm_instruction(RegisterX::X0, RegisterX::X0, bool_shift(), true);
        // OR immediate tag bits to form the boolean immediate object
        proof {
            lemma_tag_masks();
        }
        let imm = low_ones_immediate(K_BOOL_TAG, 5);
        self.gen_orr_imm_instruction(RegisterX::X0, RegisterX::X0, imm.immr, imm.imms, imm.n != 0, true);
        assert(self.instructions() =~= g0.instructions() + compare_imm32_code(value));
    }

    fn compile_compare_reg(&mut self, rn: RegisterX, rm: RegisterX)
        ensures
            final(self).emitted(&*old(self), seq![subs_shifted_reg_word(63, rn.num(), rm.num(), 0, 0, true)]
                + bool_from_flags_code(8)),
    {
        let ghost g0 = *self;
        self.gen_cmp_shifted_reg_instruction(rn, rm, 0, Shift::LSL, true);
        self.gen_cset_instruction(RegisterX::X0, IVCond::LS, true);
        self.gen_lsl_imm_instruction(RegisterX::X0, RegisterX::X0, bool_shift(), true);
        proof {
            lemma_tag_masks();
        }
        let imm = low_ones_immediate(K_BOOL_TAG, 5);
        self.gen_orr_imm_instruction(RegisterX::X0, RegisterX::X0, imm.immr, imm.imms, imm.n != 0, true);
        assert(self.instructions() =~= g0.instructions() + (seq![subs_shifted_reg_word(63, rn.num(), rm.num(), 0, 0, true)]
            + bool_from_flags_code(8)));
    }
}

/// `object_encode_integer(1)` as an add/sub immediate (its low 12 bits).
fn integer_one_imm12() -> (r: u16)
    ensures
        r == 4,
{
    let imm = object_encode_integer(1) as u64;
    proof {
        lemma_tag_masks();
    }
    (imm & 0xfff) as u16
}

/// A small tag or shift constant as an `i32`.
fn shift_amount(x: u32) -> (r: i32)
    requires
        x < 64,
    ensures
        r == x,
{
    x as i32
}

/// A small tagged word as an `i32`.
fn small_word(x: Word) -> (r: i32)
    requires
        0 <= x < 256,
    ensures
        r == x,
{
    x as i32
}

/// The pre-index offset of the spill store (truncated to 16 bits).
fn spill_offset(stack_index: Word) -> (r: i16)
    ensures
        r == stack_index as i16,
{
    stack_index as i16
}

/// The post-index offset of the reload (the negated slot, truncated to 16 bits).
fn reload_offset(stack_index: Word) -> (r: i16)
    requires
        stack_index != i64::MIN,
    ensures
        r == (-stack_index) as i16,
{
    (-stack_index) as i16
}

/// Whether a symbol names a primitive of one argument.
fn names_unary_primitive(heap: &AstHeap, callable: ASTNode) -> (r: bool)
    requires
        heap.is_symbol_at(callable),
    ensures
        r == is_unary_primitive(heap.name_of(callable)),
{
    ast_symbol_matches(heap, callable, "add1") || ast_symbol_matches(heap, callable, "sub1")
        || ast_symbol_matches(heap, callable, "integer->char") || ast_symbol_matches(heap, callable, "char->integer")
        || ast_symbol_matches(heap, callable, "nil?") || ast_symbol_matches(heap, callable, "zero?")
        || ast_symbol_matches(heap, callable, "not") || ast_symbol_matches(heap, callable, "integer?")
        || ast_symbol_matches(heap, callable, "boolean?")
}

/// Whether a symbol names a primitive of two arguments.
fn names_binary_primitive(heap: &AstHeap, callable: ASTNode) -> (r: bool)
    requires
        heap.is_symbol_at(callable),
    ensures
        r == is_binary_primitive(heap.name_of(callable)),
{
    ast_symbol_matches(heap, callable, "+") || ast_symbol_matches(heap, callable, "-")
        || ast_symbol_matches(heap, callable, "<") || ast_symbol_matches(heap, callable, "=")
}

impl AstHeap {
    /// Whether the compiler accepts `node` with the frame slot `stack_index`; a caller tests
    /// this before `compile_expr` or `compile_function`, which reject anything else.
    pub fn check_compilable(&self, node: ASTNode, stack_index: Word) -> (r: bool)
        ensures
            r == self.compilable(node, stack_index),
    {
        self.check_compilable_within(node, stack_index, self.len() as u64)
    }

    /// Whether the compiler accepts a call of `callable` with `args`.
    pub fn check_call_compilable(&self, callable: ASTNode, args: ASTNode, stack_index: Word) -> (r: bool)
        ensures
            r == self.call_compilable(callable, args, stack_index),
    {
        self.check_call_compilable_within(callable, args, stack_index, self.len() as u64)
    }

    fn check_compilable_within(&self, node: ASTNode, stack_index: Word, d: u64) -> (r: bool)
        ensures
            r == self.compilable_within(node, stack_index, d as nat),
        decreases d,
    {
        if node & 3 == 0 || node & 0x1F == 0x0F || node & 0x1F == 0x1F {
            return true;
        }
        if d == 0 || !self.has_pair(node) {
            return false;
        }
        let car = ast_pair_car(self, node);
        let cdr = ast_pair_cdr(self, node);
        self.check_call_compilable_within(car, cdr, stack_index, d - 1)
    }

    fn check_call_compilable_within(&self, callable: ASTNode, args: ASTNode, stack_index: Word, d: u64) -> (r: bool)
        ensures
            r == self.call_compilable_within(callable, args, stack_index, d as nat),
        decreases d,
    {
        if d == 0 || !self.has_symbol(callable) || !self.has_pair(args) {
            return false;
        }
        let first = ast_pair_car(self, args);
        if names_unary_primitive(self, callable) {
            self.check_compilable_within(first, stack_index, d - 1)
        } else if names_binary_primitive(self, callable) {
            let rest = ast_pair_cdr(self, args);
            if !self.has_pair(rest) || stack_index < i64::MIN + 8 {
                return false;
            }
            let second = ast_pair_car(self, rest);
            self.check_compilable_within(second, stack_index, d - 1)
                && self.check_compilable_within(first, stack_index - 8, d - 1)
        } else {
            false
        }
    }
}

impl ASMGenerator {
    /// Compile a call of a primitive: its arguments, then the primitive itself, into X0.
    pub fn compile_call(&mut self, heap: &AstHeap, callable: ASTNode, args: ASTNode, stack_index: Word) -> (r: i32)
        requires
            heap.call_compilable(callable, args, stack_index),
        ensures
            r == 0,
            final(self).emitted(&*old(self), heap.call_code(callable, args, stack_index)),
    {
        self.compile_call_within(heap, callable, args, stack_index, Ghost(heap.objects().len()))
    }

    #[verifier::rlimit(40)]
    fn compile_call_within(
        &mut self,
        heap: &AstHeap,
        callable: ASTNode,
        args: ASTNode,
        stack_index: Word,
        Ghost(d): Ghost<nat>,
    ) -> (r: i32)
        requires
            heap.call_compilable_within(callable, args, stack_index, d),
        ensures
            r == 0,
            final(self).emitted(&*old(self), heap.call_code_within(callable, args, stack_index, d)),
        decreases d,
    {
        let ghost g0 = *self;
        if ast_is_symbol(callable) {
            if ast_symbol_matches(heap, callable, "add1") {
                self.compile_expr_within(heap, operand1(heap, args), stack_index, Ghost(one_less(d)));
                // add 1 (encoded integer immediate)
                self.gen_add_imm_instruction(RegisterX::X0, RegisterX::X0, integer_one_imm12(), false, true);
                assert(self.instructions() =~= g0.instructions() + heap.call_code_within(callable, args, stack_index, d));
                return 0;
            } else if ast_symbol_matches(heap, callable, "sub1") {
                self.compile_expr_within(heap, operand1(heap, args), stack_index, Ghost(one_less(d)));
                self.gen_sub_imm_instruction(RegisterX::X0, RegisterX::X0, integer_one_imm12(), false, true);
                assert(self.instructions() =~= g0.instructions() + heap.call_code_within(callable, args, stack_index, d));
                return 0;
            } else if ast_symbol_matches(heap, callable, "integer->char") {
                self.compile_expr_within(heap, operand1(heap, args), stack_index, Ghost(one_less(d)));
                // shift payload: integer->char uses shift difference
                self.gen_lsl_imm_instruction(RegisterX::X0, RegisterX::X0, shift_amount(K_CHAR_SHIFT - K_INTEGER_SHIFT), true);
                proof {
                    lemma_tag_masks();
                }
                let imm = low_ones_immediate(K_CHAR_TAG, 4);
                self.gen_orr_imm_instruction(RegisterX::X0, RegisterX::X0, imm.immr, imm.imms, imm.n != 0, true);
                assert(self.instructions() =~= g0.instructions() + heap.call_code_within(callable, args, stack_index, d));
                return 0;
            } else if ast_symbol_matches(heap, callable, "char->integer") {
                self.compile_expr_within(heap, operand1(heap, args), stack_index, Ghost(one_less(d)));
                self.gen_lsr_imm_instruction(RegisterX::X0, RegisterX::X0, shift_amount(K_CHAR_SHIFT), true);
                self.gen_lsl_imm_instruction(RegisterX::X0, RegisterX::X0, shift_amount(K_INTEGER_SHIFT), true);
                assert(self.instructions() =~= g0.instructions() + heap.call_code_within(callable, args, stack_index, d));
                return 0;
            } else if ast_symbol_matches(heap, callable, "nil?") {
                self.compile_expr_within(heap, operand1(heap, args), stack_index, Ghost(one_less(d)));
                self.compile_compare_imm32(small_word(object_nil()));
                assert(self.instructions() =~= g0.instructions() + heap.call_code_within(callable, args, stack_index, d));
                return 0;
            } else if ast_symbol_matches(heap, callable, "zero?") {
                self.compile_expr_within(heap, operand1(heap, args), stack_index, Ghost(one_less(d)));
                self.compile_compare_imm32(0);
                assert(self.instructions() =~= g0.instructions() + heap.call_code_within(callable, args, stack_index, d));
                return 0;
            } else if ast_symbol_matches(heap, callable, "not") {
                self.compile_expr_within(heap, operand1(heap, args), stack_index, Ghost(one_less(d)));
                self.compile_compare_imm32(small_word(object_false()));
                assert(self.instructions() =~= g0.instructions() + heap.call_code_within(callable, args, stack_index, d));
                return 0;
            } else if ast_symbol_matches(heap, callable, "integer?") {
                self.compile_expr_within(heap, operand1(heap, args), stack_index, Ghost(one_less(d)));
                proof {
                    lemma_tag_masks();
                }
                let imm = low_ones_immediate(K_INTEGER_TAG_MASK, 2);
                self.gen_and_imm_instruction(RegisterX::X0, RegisterX::X0, imm.immr, imm.imms, imm.n != 0, true);
                self.compile_compare_imm32(shift_amount(K_INTEGER_TAG));
                assert(self.instructions() =~= g0.instructions() + heap.call_code_within(callable, args, stack_index, d));
                return 0;
            } else if ast_symbol_matches(heap, callable, "boolean?") {
                self.compile_expr_within(heap, operand1(heap, args), stack_index, Ghost(one_less(d)));
                proof {
                    lemma_tag_masks();
                }
                let imm = low_ones_immediate(K_IMMEDIATE_TAG_MASK, 5);
                self.gen_and_imm_instruction(RegisterX::X0, RegisterX::X0, imm.immr, imm.imms, imm.n != 0, true);
                self.compile_compare_imm32(shift_amount(K_BOOL_TAG));
                assert(self.instructions() =~= g0.instructions() + heap.call_code_within(callable, args, stack_index, d));
                return 0;
            } else if ast_symbol_matches(heap, callable, "+") {
                self.compile_expr_within(heap, operand2(heap, args), stack_index, Ghost(one_less(d)));
                // STR X0, [X29, #stack_index]
                self.gen_str_imm_instruction(RegisterX::X29, RegisterX::X0, spill_offset(stack_index), true, false, true);
                // compile first parameter to x0
                self.compile_expr_within(heap, operand1(heap, args), stack_index - K_WORD_SIZE, Ghost(one_less(d)));
                // load data from stack to X1
                self.gen_ldr_imm_instruction(RegisterX::X29, RegisterX::X1, reload_offset(stack_index), false, false, true);
                // add result to x0
                self.gen_add_shifted_reg_instruction(RegisterX::X0, RegisterX::X0, RegisterX::X1, 0, Shift::LSL, true);
                assert(self.instructions() =~= g0.instructions() + heap.call_code_within(callable, args, stack_index, d));
                return 0;
            } else if ast_symbol_matches(heap, callable, "-") {
                self.compile_expr_within(heap, operand2(heap, args), stack_index, Ghost(one_less(d)));
                // STR X0, [X29, #stack_index]
                self.gen_str_imm_instruction(RegisterX::X29, RegisterX::X0, spill_offset(stack_index), true, false, true);
                // compile first parameter to x0
                self.compile_expr_within(heap, operand1(heap, args), stack_index - K_WORD_SIZE, Ghost(one_less(d)));
                // load data from stack to X1
                self.gen_ldr_imm_instruction(RegisterX::X29, RegisterX::X1, reload_offset(stack_index), false, false, true);
                // sub result to x0
                self.gen_sub_shifted_reg_instruction(RegisterX::X0, RegisterX::X0, RegisterX::X1, 0, Shift::LSL, true);
                assert(self.instructions() =~= g0.instructions() + heap.call_code_within(callable, args, stack_index, d));
                return 0;
            } else if ast_symbol_matches(heap, callable, "<") {
                self.compile_expr_within(heap, operand2(heap, args), stack_index, Ghost(one_less(d)));
                // STR X0, [X29, #stack_index]
                self.gen_str_imm_instruction(RegisterX::X29, RegisterX::X0, spill_offset(stack_index), true, false, true);
                // compile first parameter to x0
                self.compile_expr_within(heap, operand1(heap, args), stack_index - K_WORD_SIZE, Ghost(one_less(d)));
                // load data from stack to X1
                self.gen_ldr_imm_instruction(RegisterX::X29, RegisterX::X1, reload_offset(stack_index), false, false, true);
                self.compile_compare_reg(RegisterX::X0, RegisterX::X1);
                assert(self.instructions() =~= g0.instructions() + heap.call_code_within(callable, args, stack_index, d));
                return 0;
            } else if ast_symbol_matches(heap, callable, "=") {
                self.compile_expr_within(heap, operand2(heap, args), stack_index, Ghost(one_less(d)));
                // STR X0, [X29, #stack_index]
                self.gen_str_imm_instruction(RegisterX::X29, RegisterX::X0, spill_offset(stack_index), true, false, true);
                // compile first parameter to x0
                self.compile_expr_within(heap, operand1(heap, args), stack_index - K_WORD_SIZE, Ghost(one_less(d)));
                // load data from stack to X1
                self.gen_ldr_imm_instruction(RegisterX::X29, RegisterX::X1, reload_offset(stack_index), false, false, true);
                self.gen_cmp_shifted_reg_instruction(RegisterX::X0, RegisterX::X1, 0, Shift::LSL, true);
                self.gen_cset_instruction(RegisterX::X0, IVCond::EQ, true);
                self.gen_lsl_imm_instruction(RegisterX::X0, RegisterX::X0, bool_shift(), true);
                proof {
                    lemma_tag_masks();
                }
                let imm = low_ones_immediate(K_BOOL_TAG, 5);
                self.gen_orr_imm_instruction(RegisterX::X0, RegisterX::X0, imm.immr, imm.imms, imm.n != 0, true);
                assert(self.instructions() =~= g0.instructions() + heap.call_code_within(callable, args, stack_index, d));
                return 0;
            }
        }
        unreached()
    }
}

/// The code of a function whose body is `node`: a frame prologue, the body, the epilogue
/// and `ret`.
pub open spec fn function_code(heap: &AstHeap, node: u64) -> Seq<u32> {
    seq![pair_word(STP, 31, 29, 30, -2i8, true, false, true), imm12_word(ADD_IMM, 31, 29, 0, false, true)]
        + heap.expr_code(node, -8i64) + seq![pair_word(LDP, 31, 29, 30, 2, false, false, true), ret_word(30)]
}

impl ASMGenerator {
    /// compile a top-level function node: compile expression and emit ret
    pub fn compile_function(&mut self, heap: &AstHeap, node: ASTNode) -> (r: i32)
        requires
            heap.compilable(node, -8i64),
        ensures
            r == 0,
            final(self).instructions() == old(self).instructions() + function_code(heap, node),
            final(self).label_offsets() == old(self).label_offsets().insert(ENTRY_POINT@, 0),
            final(self).label_calls() == old(self).label_calls(),
            final(self).current() == 0,
    {
        let ghost g0 = *self;
        // using entry as pseudo entry point, which is only useful when dumping object file.
        self.put_label_offset(String::from_str(ENTRY_POINT), 0);
        let ghost g1 = *self;
        // Function Prologue
        self.gen_stp_instruction(SP, RegisterX::X29, RegisterX::X30, -2, true, false, true);
        self.gen_mov_to_from_sp_instruction(RegisterX::X29, SP, true);
        let result = self.compile_expr(heap, node, -K_WORD_SIZE);
        if result != 0 {
            return result;
        }
        self.gen_ldp_instruction(SP, RegisterX::X29, RegisterX::X30, 2, false, false, true);
        self.gen_ret_instruction(RegisterX::X30);
        assert(self.instructions() =~= g0.instructions() + function_code(heap, node));
        0
    }
}

} // verus!
