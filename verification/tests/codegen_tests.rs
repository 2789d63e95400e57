use minilisp::codegen::ASMGenerator;
use minilisp::common::{Cond, IVCond, RegisterX, Shift, SP};

fn one(f: impl FnOnce(&mut ASMGenerator)) -> u32 {
    let mut g = ASMGenerator::new();
    f(&mut g);
    let v = g.get_instructions();
    assert_eq!(v.len(), 1);
    v[0]
}

#[test]
fn encodes_moves_and_ret() {
    assert_eq!(one(|g| g.gen_movz_instruction(RegisterX::X0, 4, 0, true)), 0xd2800080);
    assert_eq!(one(|g| g.gen_mov_imm_instruction(RegisterX::X8, 93, 0, true)), 0xd2800ba8);
    assert_eq!(one(|g| g.gen_mov_imm_instruction(RegisterX::X1, 1, 16, false)), 0x52a00021);
    assert_eq!(one(|g| g.gen_ret_instruction(RegisterX::X30)), 0xd65f03c0);
    assert_eq!(one(|g| g.gen_mov_to_from_sp_instruction(RegisterX::X29, SP, true)), 0x910003fd);
    assert_eq!(one(|g| g.gen_mov_reg_instruction(RegisterX::X0, RegisterX::X1, true)), 0xaa0103e0);
}

#[test]
fn encodes_arithmetic() {
    assert_eq!(one(|g| g.gen_add_imm_instruction(RegisterX::X0, RegisterX::X0, 4, false, true)), 0x91001000);
    assert_eq!(one(|g| g.gen_sub_imm_instruction(RegisterX::X0, RegisterX::X0, 4, false, true)), 0xd1001000);
    assert_eq!(
        one(|g| g.gen_add_shifted_reg_instruction(RegisterX::X0, RegisterX::X0, RegisterX::X1, 0, Shift::LSL, true)),
        0x8b010000
    );
    assert_eq!(
        one(|g| g.gen_sub_shifted_reg_instruction(RegisterX::X0, RegisterX::X0, RegisterX::X1, 0, Shift::LSL, true)),
        0xcb010000
    );
    assert_eq!(one(|g| g.gen_cmp_imm_instruction(RegisterX::X0, 0x2f, false, true)), 0xf100bc1f);
    assert_eq!(
        one(|g| g.gen_cmp_shifted_reg_instruction(RegisterX::X0, RegisterX::X1, 0, Shift::LSL, true)),
        0xeb01001f
    );
}

#[test]
fn encodes_bitfield_and_logical() {
    assert_eq!(one(|g| g.gen_lsl_imm_instruction(RegisterX::X0, RegisterX::X0, 2, true)), 0xd37ef400);
    assert_eq!(one(|g| g.gen_lsr_imm_instruction(RegisterX::X0, RegisterX::X0, 8, true)), 0xd348fc00);
    assert_eq!(one(|g| g.gen_orr_imm_instruction(RegisterX::X0, RegisterX::X0, 0, 4, true, true)), 0xb2401000);
    assert_eq!(one(|g| g.gen_and_imm_instruction(RegisterX::X0, RegisterX::X0, 0, 1, true, true)), 0x92400400);
}

#[test]
fn encodes_conditionals() {
    assert_eq!(one(|g| g.gen_cset_instruction(RegisterX::X0, IVCond::EQ, true)), 0x9a9f17e0);
    assert_eq!(
        one(|g| g.gen_csel_instruction(RegisterX::X2, RegisterX::X1, RegisterX::X0, Cond::EQ, true)),
        0x9a820020
    );
    assert_eq!(one(|g| g.gen_bcond_instruction(Cond::NE, 0)), 0x54000001);
}

#[test]
fn encodes_loads_stores_and_branches() {
    assert_eq!(
        one(|g| g.gen_stp_instruction(SP, RegisterX::X29, RegisterX::X30, -2, true, false, true)),
        0xa9bf7bfd
    );
    assert_eq!(
        one(|g| g.gen_ldp_instruction(SP, RegisterX::X29, RegisterX::X30, 2, false, false, true)),
        0xa8c17bfd
    );
    assert_eq!(one(|g| g.gen_bl_instruction(3)), 0x94000003);
    assert_eq!(one(|g| g.gen_svc_instruction(0)), 0xd4000001);
}

#[test]
fn sizes_count_words_and_bytes() {
    let mut g = ASMGenerator::new();
    g.gen_svc_instruction(0);
    g.gen_ret_instruction(RegisterX::X30);
    assert_eq!(g.get_instructions_size(), 2);
    assert_eq!(g.get_code_size(), 8);
}

#[test]
fn adjust_offset_moves_labels_and_call_sites() {
    let mut g = ASMGenerator::new();
    g.put_label_offset("f".to_string(), 2);
    g.put_label_call(1, "f".to_string());
    g.adjust_offset(10);
    assert_eq!(g.get_label_offset().get(&"f".to_string()), Some(12));
    assert_eq!(g.get_label_call().get(11), Some(&"f".to_string()));
    assert_eq!(g.get_label_call().get(1), None);
}
