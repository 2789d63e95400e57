use minilisp::parser::{parse_lisp, LispVal};

#[test]
fn test_parsing_simple() {
    let src = "(define x 42 'a'  (list 1 2 3))";
    match parse_lisp(src) {
        Ok((rest, val)) => {
            if rest != "" {
                assert!(false);
            }
            match val {
                LispVal::List(x) => {
                    assert!(x[0].eq(&LispVal::Symbol("define".to_string())));
                    assert!(x[1].eq(&LispVal::Symbol("x".to_string())));
                    assert!(x[2].eq(&LispVal::Integer(42)));
                }
                _ => assert!(false),
            }
        }
        Err(e) => {
            println!("Error: {:?}", e);
            assert!(false);
        }
    }
}

#[test]
fn test_parsing_let() {
    let src = "(let ((a 1) (b 1)) a)";
    match parse_lisp(src) {
        Ok((rest, val)) => {
            assert_eq!(rest, "".to_string());
            match val {
                LispVal::List(x) => {
                    assert_eq!(x[0], LispVal::Symbol("let".to_string()));
                    assert_eq!(
                        x[1],
                        LispVal::List(vec![
                            LispVal::List(vec![
                                LispVal::Symbol("a".to_string()),
                                LispVal::Integer(1)
                            ]),
                            LispVal::List(vec![
                                LispVal::Symbol("b".to_string()),
                                LispVal::Integer(1)
                            ]),
                        ])
                    );
                    assert_eq!(x[2], LispVal::Symbol("a".to_string()))
                }
                _ => {
                    assert!(false);
                }
            }
        }
        Err(e) => {
            println!("Error: {:?}", e);
            assert!(false);
        }
    }
}
