use minilisp::codegen::{ASMGenerator, CodeSink};
use minilisp::common::{RegisterX, ENTRY_POINT};
use minilisp::label::Labels;
use minilisp::syscall::{syscall_register, Syscall, TargetOs};

fn entry_stub() -> ASMGenerator {
    let mut main = ASMGenerator::new();
    main.gen_bl_instruction(0);
    main.put_label_call(0, ENTRY_POINT.to_string());
    main.gen_mov_imm_instruction(syscall_register(TargetOs::Linux), Syscall::EXIT.number(TargetOs::Linux), 0, true);
    main.gen_svc_instruction(0);
    main
}

fn body() -> ASMGenerator {
    let mut g = ASMGenerator::new();
    g.put_label_offset(ENTRY_POINT.to_string(), 0);
    g.gen_movz_instruction(RegisterX::X0, 4, 0, true);
    g.gen_ret_instruction(RegisterX::X30);
    g
}

#[test]
fn append_lays_buffers_out_in_order() {
    let mut labels = Labels::new();
    let mut main = entry_stub();
    let mut g = body();
    assert!(labels.check_appendable(&main));
    labels.append_label(&mut main);
    assert!(labels.check_appendable(&g));
    labels.append_label(&mut g);
    assert_eq!(
        labels.get_object_instructions(),
        vec![0x94000000, 0xd2800ba8, 0xd4000001, 0xd2800080, 0xd65f03c0]
    );
    // the second buffer's label moved up by the three words before it
    assert_eq!(g.get_label_offset().get(&ENTRY_POINT.to_string()), Some(3));
}

#[test]
fn fixup_patches_call_to_entry() {
    let mut labels = Labels::new();
    let mut main = entry_stub();
    let mut g = body();
    labels.append_label(&mut main);
    labels.append_label(&mut g);
    assert!(labels.check_fixable());
    labels.fixup();
    let code = labels.get_object_instructions();
    assert_eq!(code[0], 0x94000003);
    assert_eq!(&code[1..], &[0xd2800ba8, 0xd4000001, 0xd2800080, 0xd65f03c0]);
}

#[test]
fn undefined_label_is_not_fixable() {
    let mut labels = Labels::new();
    let mut main = entry_stub();
    labels.append_label(&mut main);
    assert!(!labels.check_fixable());
}

#[test]
fn call_site_without_branch_is_not_fixable() {
    let mut labels = Labels::new();
    let mut g = body();
    g.put_label_call(0, ENTRY_POINT.to_string());
    labels.append_label(&mut g);
    assert!(!labels.check_fixable());
}

#[test]
fn syscall_numbers_follow_linux() {
    assert_eq!(Syscall::EXIT.number(TargetOs::Linux), 93);
    assert_eq!(Syscall::WRITE.number(TargetOs::Linux), 64);
}

#[test]
fn syscall_numbers_follow_macos() {
    assert_eq!(Syscall::EXIT.number(TargetOs::MacOs), 1);
    assert_eq!(Syscall::WRITE.number(TargetOs::MacOs), 4);
    assert_eq!(syscall_register(TargetOs::MacOs), RegisterX::X16);
    assert_eq!(syscall_register(TargetOs::Linux), RegisterX::X8);
}

#[test]
fn labels_listing_has_title_and_lines() {
    let mut labels = Labels::new();
    let mut g = body();
    labels.append_label(&mut g);
    let text = labels.asm_listing().unwrap();
    assert!(text.starts_with("Disassembly Object:\n============\n"));
    assert!(text.contains("0x00000000:\tmov\tx0, #4\n"));
    assert!(text.ends_with("0x00000004:\tret\t\n"));
}
