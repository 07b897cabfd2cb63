//! The AST builder, driven through every list form and error.

use boxlang::ast::Exp;
use boxlang::parse::{parse, parse_text, ParseError};
use boxlang::sexpr::SExpr;

fn sym(s: &str) -> SExpr {
    SExpr::Sym(s.to_string())
}

fn num(i: i64) -> SExpr {
    SExpr::Int(i)
}

#[test]
fn test_int() {
    assert_eq!(parse(&num(5)).unwrap(), Exp::Int(5));
}

#[test]
fn test_float() {
    let bits = (5.4f64).to_bits();
    assert_eq!(parse(&SExpr::Float(bits)).unwrap(), Exp::Float(bits));
}

#[test]
fn test_id() {
    assert_eq!(parse(&sym("Word")).unwrap(), Exp::Id("Word".to_string()));
}

#[test]
fn test_bool_atoms() {
    assert_eq!(parse(&sym("true")).unwrap(), Exp::Bool(true));
    assert_eq!(parse(&sym("false")).unwrap(), Exp::Bool(false));
}

#[test]
fn test_add() {
    let s = SExpr::List(vec![sym("+"), num(4), num(7)]);
    assert_eq!(
        parse(&s).unwrap(),
        Exp::Add {
            lhs: Box::new(Exp::Int(4)),
            rhs: Box::new(Exp::Int(7)),
        }
    );
}

#[test]
fn test_multiply() {
    let s = SExpr::List(vec![sym("*"), num(6), num(7)]);
    assert_eq!(
        parse(&s).unwrap(),
        Exp::Mult {
            lhs: Box::new(Exp::Int(6)),
            rhs: Box::new(Exp::Int(7)),
        }
    );
}

#[test]
fn test_eq() {
    let s = SExpr::List(vec![sym("="), num(5), num(5)]);
    assert_eq!(
        parse(&s).unwrap(),
        Exp::Eq {
            lhs: Box::new(Exp::Int(5)),
            rhs: Box::new(Exp::Int(5)),
        }
    );
}

#[test]
fn test_if() {
    let s = SExpr::List(vec![
        sym("if"),
        SExpr::List(vec![sym("="), num(5), num(5)]),
        num(1),
        num(0),
    ]);
    assert_eq!(
        parse(&s).unwrap(),
        Exp::If {
            cond: Box::new(Exp::Eq {
                lhs: Box::new(Exp::Int(5)),
                rhs: Box::new(Exp::Int(5)),
            }),
            lhs: Box::new(Exp::Int(1)),
            rhs: Box::new(Exp::Int(0)),
        }
    );
}

#[test]
fn test_plus_four_five() {
    let s = SExpr::List(vec![sym("+"), num(4), num(5)]);
    assert_eq!(
        parse(&s).unwrap(),
        Exp::Add {
            lhs: Box::new(Exp::Int(4)),
            rhs: Box::new(Exp::Int(5)),
        }
    );
}

#[test]
fn test_comparisons() {
    let s = SExpr::List(vec![sym("<"), num(1), num(2)]);
    assert!(matches!(parse(&s).unwrap(), Exp::Lt { .. }));
    let s = SExpr::List(vec![sym(">"), num(1), num(2)]);
    assert!(matches!(parse(&s).unwrap(), Exp::Gt { .. }));
    let s = SExpr::List(vec![sym("<="), num(1), num(2)]);
    assert!(matches!(parse(&s).unwrap(), Exp::Le { .. }));
    let s = SExpr::List(vec![sym(">="), num(1), num(2)]);
    assert!(matches!(parse(&s).unwrap(), Exp::Ge { .. }));
    let s = SExpr::List(vec![sym("-"), num(1), num(2)]);
    assert!(matches!(parse(&s).unwrap(), Exp::Sub { .. }));
    let s = SExpr::List(vec![sym("/"), num(1), num(2)]);
    assert!(matches!(parse(&s).unwrap(), Exp::Div { .. }));
}

#[test]
fn test_unary_forms() {
    for (name, check) in [
        ("ref", Exp::Ref(Box::new(Exp::Int(3)))),
        ("mut-ref", Exp::MutRef(Box::new(Exp::Int(3)))),
        ("box", Exp::Box(Box::new(Exp::Int(3)))),
        ("unbox", Exp::Unbox(Box::new(Exp::Int(3)))),
        ("deref", Exp::Deref(Box::new(Exp::Int(3)))),
        ("display", Exp::Display(Box::new(Exp::Int(3)))),
        ("debug", Exp::Debug(Box::new(Exp::Int(3)))),
    ] {
        let s = SExpr::List(vec![sym(name), num(3)]);
        assert_eq!(parse(&s).unwrap(), check);
    }
}

#[test]
fn test_set_form() {
    let s = SExpr::List(vec![sym("set"), sym("r"), num(9)]);
    assert_eq!(
        parse(&s).unwrap(),
        Exp::Assign {
            lhs: Box::new(Exp::Id("r".to_string())),
            rhs: Box::new(Exp::Int(9)),
        }
    );
}

#[test]
fn test_begin_form() {
    let s = SExpr::List(vec![sym("begin"), num(5), num(8)]);
    assert_eq!(parse(&s).unwrap(), Exp::Begin(vec![Exp::Int(5), Exp::Int(8)]));
    let s = SExpr::List(vec![sym("begin")]);
    assert_eq!(parse(&s).unwrap(), Exp::Begin(vec![]));
}

#[test]
fn test_lambda_form() {
    let s = SExpr::List(vec![sym("lambda"), sym("x"), sym("x")]);
    assert_eq!(
        parse(&s).unwrap(),
        Exp::Lambda {
            symbol: "x".to_string(),
            body: Box::new(Exp::Id("x".to_string())),
        }
    );
}

#[test]
fn test_application_form() {
    let s = SExpr::List(vec![sym("f"), num(5)]);
    assert_eq!(
        parse(&s).unwrap(),
        Exp::App {
            func: Box::new(Exp::Id("f".to_string())),
            arg: Box::new(Exp::Int(5)),
        }
    );
}

#[test]
fn test_let_desugars_to_application() {
    // (let ((x 5)) x) becomes ((lambda x x) 5)
    let s = SExpr::List(vec![
        sym("let"),
        SExpr::List(vec![SExpr::List(vec![sym("x"), num(5)])]),
        sym("x"),
    ]);
    assert_eq!(
        parse(&s).unwrap(),
        Exp::App {
            func: Box::new(Exp::Lambda {
                symbol: "x".to_string(),
                body: Box::new(Exp::Id("x".to_string())),
            }),
            arg: Box::new(Exp::Int(5)),
        }
    );
}

#[test]
fn test_empty_list_is_syntax_error() {
    let s = SExpr::List(vec![]);
    assert!(matches!(parse(&s), Err(ParseError::SyntaxError)));
}

#[test]
fn test_wrong_arity_is_syntax_error() {
    let s = SExpr::List(vec![sym("+"), num(1)]);
    assert!(matches!(parse(&s), Err(ParseError::SyntaxError)));
    let s = SExpr::List(vec![sym("if"), num(1), num(2)]);
    assert!(matches!(parse(&s), Err(ParseError::SyntaxError)));
    let s = SExpr::List(vec![num(1), num(2), num(3)]);
    assert!(matches!(parse(&s), Err(ParseError::SyntaxError)));
}

#[test]
fn test_malformed_let_binding() {
    // binding list is not a list of one (symbol value) pair
    let s = SExpr::List(vec![sym("let"), sym("x"), sym("x")]);
    assert!(matches!(parse(&s), Err(ParseError::MalformedAssignment)));
    let s = SExpr::List(vec![
        sym("let"),
        SExpr::List(vec![SExpr::List(vec![num(1), num(5)])]),
        sym("x"),
    ]);
    assert!(matches!(parse(&s), Err(ParseError::MalformedAssignment)));
    let s = SExpr::List(vec![
        sym("let"),
        SExpr::List(vec![SExpr::List(vec![sym("x"), num(5), num(6)])]),
        sym("x"),
    ]);
    assert!(matches!(parse(&s), Err(ParseError::MalformedAssignment)));
}

#[test]
fn test_error_inside_operand_propagates() {
    let s = SExpr::List(vec![sym("+"), SExpr::List(vec![]), num(5)]);
    assert!(matches!(parse(&s), Err(ParseError::SyntaxError)));
}

#[test]
fn test_parse_text_round_trip() {
    assert_eq!(
        parse_text("(+ 4 5)").unwrap(),
        Exp::Add {
            lhs: Box::new(Exp::Int(4)),
            rhs: Box::new(Exp::Int(5)),
        }
    );
    assert_eq!(
        parse_text("(if (= 5 5) 1 0)").unwrap(),
        Exp::If {
            cond: Box::new(Exp::Eq {
                lhs: Box::new(Exp::Int(5)),
                rhs: Box::new(Exp::Int(5)),
            }),
            lhs: Box::new(Exp::Int(1)),
            rhs: Box::new(Exp::Int(0)),
        }
    );
    assert_eq!(parse_text("5").unwrap(), Exp::Int(5));
    assert_eq!(parse_text("word").unwrap(), Exp::Id("word".to_string()));
}

#[test]
fn test_parse_text_reader_error() {
    assert!(matches!(parse_text("(+ 4"), Err(ParseError::ReaderError)));
}
