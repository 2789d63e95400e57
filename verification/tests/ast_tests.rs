use minilisp::ast::{
    ast_as_pair, ast_error, ast_get_bool, ast_get_char, ast_get_integer, ast_is_bool, ast_is_char, ast_is_error,
    ast_is_heap_object, ast_is_integer, ast_is_nil, ast_is_pair, ast_is_symbol, ast_new_bool, ast_new_char,
    ast_new_integer, ast_new_pair, ast_new_symbol, ast_nil, ast_pair_car, ast_pair_cdr, ast_pair_set_car,
    ast_pair_set_cdr, ast_symbol_as_cstr, ast_symbol_matches, format_ast, list1, list2, list3, new_binary_call,
    new_unary_call, operand1, operand2, operand3, AstHeap,
};

#[test]
fn immediates_round_trip() {
    let n = ast_new_integer(-7);
    assert!(ast_is_integer(n));
    assert_eq!(ast_get_integer(n), -7);
    let c = ast_new_char('z');
    assert!(ast_is_char(c) && !ast_is_integer(c));
    assert_eq!(ast_get_char(c), 'z');
    let t = ast_new_bool(true);
    let f = ast_new_bool(false);
    assert!(ast_is_bool(t) && ast_is_bool(f));
    assert!(ast_get_bool(t));
    assert!(!ast_get_bool(f));
    assert!(ast_is_nil(ast_nil()));
    assert!(ast_is_error(ast_error()));
    assert!(!ast_is_heap_object(n));
}

#[test]
fn pairs_and_symbols_live_in_the_heap() {
    let mut heap = AstHeap::new();
    let s = ast_new_symbol(&mut heap, "add1");
    assert!(ast_is_symbol(s));
    // the heap-object test excludes the tag 7, which symbols carry
    assert!(!ast_is_heap_object(s));
    assert_eq!(ast_symbol_as_cstr(&heap, s), "add1");
    assert!(ast_symbol_matches(&heap, s, "add1"));
    assert!(!ast_symbol_matches(&heap, s, "sub1"));
    let p = ast_new_pair(&mut heap, ast_new_integer(1), ast_nil());
    assert!(ast_is_pair(p) && ast_is_heap_object(p));
    assert_eq!(ast_pair_car(&heap, p), 4);
    assert_eq!(ast_pair_cdr(&heap, p), 0x2f);
    ast_pair_set_car(&mut heap, p, ast_new_integer(2));
    ast_pair_set_cdr(&mut heap, p, s);
    assert_eq!(ast_as_pair(&heap, p).car, 8);
    assert_eq!(ast_as_pair(&heap, p).cdr, s);
    assert_eq!(heap.len(), 2);
}

#[test]
fn list_helpers_build_proper_lists() {
    let mut heap = AstHeap::new();
    let l1 = list1(&mut heap, ast_new_integer(1));
    assert_eq!(operand1(&heap, l1), 4);
    assert_eq!(ast_pair_cdr(&heap, l1), ast_nil());
    let l3 = list3(&mut heap, ast_new_integer(1), ast_new_integer(2), ast_new_integer(3));
    assert_eq!(operand1(&heap, l3), 4);
    assert_eq!(operand2(&heap, l3), 8);
    let l2 = list2(&mut heap, ast_new_integer(5), l3);
    assert_eq!(operand3(&heap, l2), 4);
    let call = new_unary_call(&mut heap, "add1", ast_new_integer(1));
    assert!(ast_symbol_matches(&heap, operand1(&heap, call), "add1"));
    assert_eq!(operand2(&heap, call), 4);
    let call = new_binary_call(&mut heap, "+", ast_new_integer(1), ast_new_integer(2));
    assert!(ast_symbol_matches(&heap, operand1(&heap, call), "+"));
    assert_eq!(operand2(&heap, call), 4);
}

#[test]
fn format_prints_immediates() {
    let heap = AstHeap::new();
    assert_eq!(format_ast(&heap, ast_nil()), "()");
    assert_eq!(format_ast(&heap, ast_new_integer(-42)), "-42");
    assert_eq!(format_ast(&heap, ast_new_integer(0)), "0");
    assert_eq!(format_ast(&heap, ast_new_char('q')), "'q'");
    assert_eq!(format_ast(&heap, ast_new_bool(true)), "#t");
    assert_eq!(format_ast(&heap, ast_new_bool(false)), "#f");
    // the error word carries the boolean tag
    assert_eq!(format_ast(&heap, ast_error()), "#t");
    assert_eq!(format_ast(&heap, 0x0b), "<unknown>");
}

#[test]
fn format_prints_symbols_and_lists() {
    let mut heap = AstHeap::new();
    let s = ast_new_symbol(&mut heap, "foo");
    assert_eq!(format_ast(&heap, s), "foo");
    let l = list2(&mut heap, ast_new_integer(1), ast_new_integer(2));
    assert_eq!(format_ast(&heap, l), "(1 2)");
    let nested = list2(&mut heap, s, l);
    assert_eq!(format_ast(&heap, nested), "(foo (1 2))");
    let three = list3(&mut heap, ast_new_integer(1), ast_new_integer(2), ast_new_integer(3));
    assert!(heap.check_formattable(three));
    assert_eq!(format_ast(&heap, three), "(1 2 3)");
    let dotted = ast_new_pair(&mut heap, ast_new_integer(1), ast_new_integer(2));
    assert_eq!(format_ast(&heap, dotted), "(1 . 2)");
    let one = list1(&mut heap, ast_new_integer(7));
    assert_eq!(format_ast(&heap, one), "(7)");
    let inner = list1(&mut heap, ast_new_integer(1));
    let x = ast_new_symbol(&mut heap, "x");
    let outer = list2(&mut heap, inner, x);
    assert_eq!(format_ast(&heap, outer), "((1) x)");
    let improper = ast_new_pair(&mut heap, ast_new_integer(1), dotted);
    assert_eq!(format_ast(&heap, improper), "(1 1 . 2)");
}

#[test]
fn check_formattable_rejects_missing_symbols_and_cycles() {
    let mut heap = AstHeap::new();
    assert!(heap.check_formattable(ast_new_integer(3)));
    // a symbol node with no object behind it
    assert!(!heap.check_formattable(0x17));
    let p = ast_new_pair(&mut heap, ast_new_integer(1), ast_nil());
    assert!(heap.check_formattable(p));
    // a list that runs back into itself
    ast_pair_set_cdr(&mut heap, p, p);
    assert!(!heap.check_formattable(p));
}
