//! Structural renderings of expression trees.

use boxlang::ast::Exp;
use boxlang::parse::parse;
use boxlang::sexpr::SExpr;

#[test]
fn debug_id_test() {
    let word = String::from("Word");
    let exp = Exp::Id(word);
    assert_eq!(exp.to_debug_string(), "Id(Word)");
}

/// Checks that a Num expression gets correctly formatted
#[test]
fn debug_num_test() {
    let exp = Exp::Int(5);
    assert_eq!(exp.to_debug_string(), "Int(5)");
}

#[test]
fn debug_plus_test() {
    let lhs = Exp::Int(5);
    let rhs = Exp::Int(8);
    let plus_exp = Exp::Add {
        lhs: Box::new(lhs),
        rhs: Box::new(rhs),
    };

    assert_eq!(plus_exp.to_debug_string(), "Add(Int(5), Int(8))");
}

#[test]
fn debug_mult_test() {
    let lhs = Exp::Int(5);
    let rhs = Exp::Int(8);
    let mult_exp = Exp::Mult {
        lhs: Box::new(lhs),
        rhs: Box::new(rhs),
    };

    assert_eq!(mult_exp.to_debug_string(), "Mult(Int(5), Int(8))");
}

#[test]
fn debug_lambda_test() {
    let symbol = String::from("Word");
    let body = Exp::Int(8);
    let lambda_exp = Exp::Lambda {
        symbol,
        body: Box::new(body),
    };

    assert_eq!(lambda_exp.to_debug_string(), "Lambda(Word, Int(8))");
}

#[test]
fn debug_if_test() {
    let cond = Exp::Bool(true);
    let lhs = Exp::Int(5);
    let rhs = Exp::Int(8);
    let if_exp = Exp::If {
        cond: Box::new(cond),
        lhs: Box::new(lhs),
        rhs: Box::new(rhs),
    };

    assert_eq!(if_exp.to_debug_string(), "If(Bool(true), Int(5), Int(8))");
}

#[test]
fn debug_eq_test() {
    let lhs = Exp::Int(5);
    let rhs = Exp::Int(8);
    let eq_exp = Exp::Eq {
        lhs: Box::new(lhs),
        rhs: Box::new(rhs),
    };

    assert_eq!(eq_exp.to_debug_string(), "Eq(Int(5), Int(8))");
}

#[test]
fn debug_begin_test() {
    let begin_exp = Exp::Begin(vec![Exp::Int(5), Exp::Int(8)]);

    assert_eq!(begin_exp.to_debug_string(), "Begin(Int(5), Int(8))");
}

#[test]
fn debug_ref_test() {
    let ref_exp = Exp::Ref(Box::new(Exp::Int(5)));

    assert_eq!(ref_exp.to_debug_string(), "Ref(Int(5))");
}

#[test]
fn debug_mut_ref_test() {
    let mut_ref_exp = Exp::MutRef(Box::new(Exp::Int(5)));

    assert_eq!(mut_ref_exp.to_debug_string(), "MutRef(Int(5))");
}

#[test]
fn debug_box_test() {
    let box_exp = Exp::Box(Box::new(Exp::Int(5)));

    assert_eq!(box_exp.to_debug_string(), "Box(Int(5))");
}

#[test]
fn debug_unbox_test() {
    let unbox_exp = Exp::Unbox(Box::new(Exp::Int(5)));

    assert_eq!(unbox_exp.to_debug_string(), "Unbox(Int(5))");
}

#[test]
fn debug_deref_test() {
    let deref_exp = Exp::Deref(Box::new(Exp::Ref(Box::new(Exp::Int(5)))));

    assert_eq!(deref_exp.to_debug_string(), "Deref(Ref(Int(5)))");
}

#[test]
fn debug_set_test() {
    let lhs = Exp::MutRef(Box::new(Exp::Int(5)));
    let rhs = Exp::Int(10);
    let set_exp = Exp::Assign {
        lhs: Box::new(lhs),
        rhs: Box::new(rhs),
    };

    assert_eq!(set_exp.to_debug_string(), "Set(MutRef(Int(5)), Int(10))");
}

#[test]
fn debug_display_test() {
    let display_exp = Exp::Display(Box::new(Exp::Int(5)));

    assert_eq!(display_exp.to_debug_string(), "Display(Int(5))");
}

#[test]
fn debug_debug_test() {
    let debug_exp = Exp::Debug(Box::new(Exp::Int(5)));

    assert_eq!(debug_exp.to_debug_string(), "Debug(Int(5))");
}

#[test]
fn debug_app_test() {
    let func = Exp::Id("func".to_string());
    let arg = Exp::Int(5);
    let app_exp = Exp::App {
        func: Box::new(func),
        arg: Box::new(arg),
    };

    assert_eq!(app_exp.to_debug_string(), "App(Id(func), Int(5))");
}

#[test]
fn parse_debug_id_test() {
    let word = String::from("Word");
    let exp = Exp::Id(word);
    assert_eq!(exp.to_debug_string(), "Id(Word)");
}

/// Checks that a Num expression gets correctly formatted
#[test]
fn parse_debug_num_test() {
    let exp = Exp::Int(5);
    assert_eq!(exp.to_debug_string(), "Int(5)");
}

#[test]
fn parse_debug_plus_test() {
    let lhs = Exp::Int(5);
    let rhs = Exp::Int(8);
    let plus_exp = Exp::Add {
        lhs: Box::new(lhs),
        rhs: Box::new(rhs),
    };

    assert_eq!(plus_exp.to_debug_string(), "Add(Int(5), Int(8))");
}

#[test]
fn parse_debug_mult_test() {
    let lhs = Exp::Int(5);
    let rhs = Exp::Int(8);
    let mult_exp = Exp::Mult {
        lhs: Box::new(lhs),
        rhs: Box::new(rhs),
    };

    assert_eq!(mult_exp.to_debug_string(), "Mult(Int(5), Int(8))");
}

#[test]
fn parse_debug_lambda_test() {
    let symbol = String::from("Word");
    let body = Exp::Int(8);
    let lambda_exp = Exp::Lambda {
        symbol,
        body: Box::new(body),
    };

    assert_eq!(lambda_exp.to_debug_string(), "Lambda(Word, Int(8))");
}

#[test]
fn parse_debug_if_test() {
    let cond = Exp::Bool(true);
    let lhs = Exp::Int(5);
    let rhs = Exp::Int(8);
    let if_exp = Exp::If {
        cond: Box::new(cond),
        lhs: Box::new(lhs),
        rhs: Box::new(rhs),
    };

    assert_eq!(if_exp.to_debug_string(), "If(Bool(true), Int(5), Int(8))");
}

#[test]
fn parse_debug_eq_test() {
    let lhs = Exp::Int(5);
    let rhs = Exp::Int(8);
    let eq_exp = Exp::Eq {
        lhs: Box::new(lhs),
        rhs: Box::new(rhs),
    };

    assert_eq!(eq_exp.to_debug_string(), "Eq(Int(5), Int(8))");
}

#[test]
fn parse_debug_begin_test() {
    let begin_exp = Exp::Begin(vec![Exp::Int(5), Exp::Int(8)]);

    assert_eq!(begin_exp.to_debug_string(), "Begin(Int(5), Int(8))");
}

#[test]
fn parse_debug_ref_test() {
    let ref_exp = Exp::Ref(Box::new(Exp::Int(5)));

    assert_eq!(ref_exp.to_debug_string(), "Ref(Int(5))");
}

#[test]
fn parse_debug_mut_ref_test() {
    let mut_ref_exp = Exp::MutRef(Box::new(Exp::Int(5)));

    assert_eq!(mut_ref_exp.to_debug_string(), "MutRef(Int(5))");
}

#[test]
fn parse_debug_box_test() {
    let box_exp = Exp::Box(Box::new(Exp::Int(5)));

    assert_eq!(box_exp.to_debug_string(), "Box(Int(5))");
}

#[test]
fn parse_debug_unbox_test() {
    let unbox_exp = Exp::Unbox(Box::new(Exp::Int(5)));

    assert_eq!(unbox_exp.to_debug_string(), "Unbox(Int(5))");
}

#[test]
fn parse_debug_deref_test() {
    let deref_exp = Exp::Deref(Box::new(Exp::Ref(Box::new(Exp::Int(5)))));

    assert_eq!(deref_exp.to_debug_string(), "Deref(Ref(Int(5)))");
}

#[test]
fn parse_debug_set_test() {
    let lhs = Exp::MutRef(Box::new(Exp::Int(5)));
    let rhs = Exp::Int(10);
    let set_exp = Exp::Assign {
        lhs: Box::new(lhs),
        rhs: Box::new(rhs),
    };

    assert_eq!(set_exp.to_debug_string(), "Set(MutRef(Int(5)), Int(10))");
}

#[test]
fn parse_debug_display_test() {
    let display_exp = Exp::Display(Box::new(Exp::Int(5)));

    assert_eq!(display_exp.to_debug_string(), "Display(Int(5))");
}

#[test]
fn parse_debug_debug_test() {
    let debug_exp = Exp::Debug(Box::new(Exp::Int(5)));

    assert_eq!(debug_exp.to_debug_string(), "Debug(Int(5))");
}

#[test]
fn parse_debug_app_test() {
    let func = Exp::Id("func".to_string());
    let arg = Exp::Int(5);
    let app_exp = Exp::App {
        func: Box::new(func),
        arg: Box::new(arg),
    };

    assert_eq!(app_exp.to_debug_string(), "App(Id(func), Int(5))");
}

#[test]
fn test_string_literal() {
    let result = parse(&SExpr::Sym("word".to_string()));
    assert_eq!(result.unwrap(), Exp::Id("word".to_string()));
}
