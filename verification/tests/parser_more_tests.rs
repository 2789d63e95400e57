use minilisp::common::{is_initial_symbol_char, is_subsequent_symbol_char, BitmaskImmediate};
use minilisp::parser::{parse_lisp, LispVal};

#[test]
fn parses_atoms_and_returns_the_rest() {
    assert_eq!(parse_lisp("42 rest"), Ok((" rest", LispVal::Integer(42))));
    assert_eq!(parse_lisp("#t"), Ok(("", LispVal::Bool(true))));
    assert_eq!(parse_lisp("#f)"), Ok((")", LispVal::Bool(false))));
    assert_eq!(parse_lisp("'\\n'"), Ok(("", LispVal::Character('\n'))));
    assert_eq!(parse_lisp("'Z'"), Ok(("", LispVal::Character('Z'))));
    assert_eq!(parse_lisp("nil? x"), Ok((" x", LispVal::Symbol("nil?".to_string()))));
    // `-` may start a symbol but not continue one
    assert_eq!(parse_lisp("integer->char x"), Ok(("->char x", LispVal::Symbol("integer".to_string()))));
    assert_eq!(parse_lisp("+ 1"), Ok((" 1", LispVal::Symbol("+".to_string()))));
}

#[test]
fn digits_first_then_symbol() {
    // an integer is tried first, so "1+" reads as 1 followed by "+"
    assert_eq!(parse_lisp("1+"), Ok(("+", LispVal::Integer(1))));
    // a number too large for i64 is not an integer; it reads as a symbol of digits
    assert_eq!(
        parse_lisp("99999999999999999999"),
        Ok(("", LispVal::Symbol("99999999999999999999".to_string())))
    );
}

#[test]
fn parses_nested_lists_with_spacing() {
    assert_eq!(
        parse_lisp("( a  (b) )"),
        Ok((
            "",
            LispVal::List(vec![
                LispVal::Symbol("a".to_string()),
                LispVal::List(vec![LispVal::Symbol("b".to_string())]),
            ])
        ))
    );
    assert_eq!(parse_lisp("()"), Ok(("", LispVal::List(vec![]))));
}

#[test]
fn rejects_what_is_not_an_expression() {
    assert!(parse_lisp("").is_err());
    assert!(parse_lisp(" 1").is_err());
    assert!(parse_lisp(")").is_err());
    assert!(parse_lisp("(1 2").is_err());
    assert!(parse_lisp("'ab'").is_err());
    assert!(parse_lisp("#x").is_err());
}

#[test]
fn symbol_character_classes() {
    assert!(is_initial_symbol_char('a') && is_initial_symbol_char('?'));
    assert!(!is_initial_symbol_char('1'));
    assert!(is_subsequent_symbol_char('1') && is_subsequent_symbol_char('-'));
    assert!(!is_subsequent_symbol_char(' '));
}

#[test]
fn bitmask_immediates_exact_fields() {
    assert_eq!(BitmaskImmediate::try_from(0), None);
    assert_eq!(BitmaskImmediate::try_from(u64::MAX), None);
    assert_eq!(BitmaskImmediate::try_from(5), None);
    let b = BitmaskImmediate::try_from(0x1f).unwrap();
    assert_eq!((b.n, b.imms, b.immr), (1, 4, 0));
    assert_eq!(b.to_u32(), 0x1004);
    let b = BitmaskImmediate::try_from(0x5555555555555555).unwrap();
    assert_eq!((b.n, b.imms, b.immr), (0, 0x3c, 0));
    let b = BitmaskImmediate::try_from(0xFFFFFFFFFFFFFFFE).unwrap();
    assert_eq!((b.n, b.imms, b.immr), (1, 62, 63));
}

#[test]
fn logical_immediates_closed_under_complement_and_rotation() {
    for v in [0x1fu64, 0x5555555555555555, 0x0FF00FF00FF00FF0, 0xFFFFFFFFFFFFFFFE, 5, 0x12345678] {
        let some = BitmaskImmediate::try_from(v).is_some();
        assert_eq!(BitmaskImmediate::try_from(!v).is_some(), some);
        for r in [1u32, 7, 32, 63] {
            assert_eq!(BitmaskImmediate::try_from(v.rotate_right(r)).is_some(), some);
        }
    }
}
