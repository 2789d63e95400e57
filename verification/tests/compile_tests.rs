use minilisp::ast::AstHeap;
use minilisp::codegen::ASMGenerator;
use minilisp::common::K_WORD_SIZE;
use minilisp::lower::ast_from_lisp;
use minilisp::parser::{parse_lisp, LispVal};

fn compile(src: &str) -> Vec<u32> {
    let (_, val) = parse_lisp(src).unwrap();
    let mut heap = AstHeap::new();
    let node = ast_from_lisp(&mut heap, &val).unwrap();
    assert!(heap.check_compilable(node, -K_WORD_SIZE));
    let mut generator = ASMGenerator::new();
    assert_eq!(generator.compile_function(&heap, node), 0);
    generator.get_instructions()
}

#[test]
fn compile_add1_emits_frame_body_and_ret() {
    assert_eq!(
        compile("(add1 1)"),
        vec![0xa9bf7bfd, 0x910003fd, 0xd2800080, 0x91001000, 0xa8c17bfd, 0xd65f03c0]
    );
}

#[test]
fn compile_sub1_uses_sub_immediate() {
    let code = compile("(sub1 5)");
    assert_eq!(code[2], 0xd2800280);
    assert_eq!(code[3], 0xd1001000);
}

#[test]
fn compile_plus_spills_second_operand() {
    let code = compile("(+ 1 2)");
    assert_eq!(code.len(), 9);
    // x0 = 2, spilled, x0 = 1, reloaded into x1, then added
    assert_eq!(code[2], 0xd2800100);
    assert_eq!(code[4], 0xd2800080);
    assert_eq!(code[6], 0x8b010000);
    assert_eq!(code[8], 0xd65f03c0);
}

#[test]
fn compile_records_entry_label() {
    let (_, val) = parse_lisp("(zero? 0)").unwrap();
    let mut heap = AstHeap::new();
    let node = ast_from_lisp(&mut heap, &val).unwrap();
    let mut generator = ASMGenerator::new();
    generator.compile_function(&heap, node);
    assert_eq!(generator.get_label_offset().get(&"entry".to_string()), Some(0));
    assert_eq!(generator.get_label_call().len(), 0);
}

#[test]
fn unknown_primitive_is_not_compilable() {
    let (_, val) = parse_lisp("(frobnicate 1)").unwrap();
    let mut heap = AstHeap::new();
    let node = ast_from_lisp(&mut heap, &val).unwrap();
    assert!(!heap.check_compilable(node, -K_WORD_SIZE));
}

#[test]
fn nested_calls_are_compilable() {
    let (_, val) = parse_lisp("(add1 (sub1 (zero? 0)))").unwrap();
    let mut heap = AstHeap::new();
    let node = ast_from_lisp(&mut heap, &val).unwrap();
    assert!(heap.check_compilable(node, -K_WORD_SIZE));
    let missing = LispVal::List(vec![LispVal::Symbol("+".to_string()), LispVal::Integer(1)]);
    let node = ast_from_lisp(&mut heap, &missing).unwrap();
    assert!(!heap.check_compilable(node, -K_WORD_SIZE));
}

#[test]
fn lowering_rejects_integers_out_of_range() {
    let mut heap = AstHeap::new();
    assert_eq!(ast_from_lisp(&mut heap, &LispVal::Integer(i64::MAX)), None);
    let inside = LispVal::List(vec![LispVal::Symbol("add1".to_string()), LispVal::Integer(i64::MAX)]);
    assert_eq!(ast_from_lisp(&mut heap, &inside), None);
    assert_eq!(ast_from_lisp(&mut heap, &LispVal::Integer(7)), Some(28));
    assert_eq!(ast_from_lisp(&mut heap, &LispVal::Bool(true)), Some(63));
    assert_eq!(ast_from_lisp(&mut heap, &LispVal::Character('a')), Some(0x610f));
    assert_eq!(ast_from_lisp(&mut heap, &LispVal::List(vec![])), Some(0x2f));
}
