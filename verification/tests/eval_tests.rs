//! The evaluator: arithmetic, conditionals, closures, boxes, borrows,
//! moves, and the output log.

use boxlang::ast::Exp;
use boxlang::interp::{interp, FloatOps, InterpError};
use boxlang::value::{Env, EvalState, OutEvent, Value};

/// A floating-point unit for tests that never touch float arithmetic.
struct NoFloats;

impl FloatOps for NoFloats {
    fn add(&self, _a: u64, _b: u64) -> u64 {
        0
    }
    fn sub(&self, _a: u64, _b: u64) -> u64 {
        0
    }
    fn mul(&self, _a: u64, _b: u64) -> u64 {
        0
    }
    fn div(&self, _a: u64, _b: u64) -> u64 {
        0
    }
    fn lt(&self, _a: u64, _b: u64) -> bool {
        false
    }
    fn le(&self, _a: u64, _b: u64) -> bool {
        false
    }
    fn gt(&self, _a: u64, _b: u64) -> bool {
        false
    }
    fn ge(&self, _a: u64, _b: u64) -> bool {
        false
    }
}

/// The machine's own floats, by bit pattern.
struct MachineFloats;

impl FloatOps for MachineFloats {
    fn add(&self, a: u64, b: u64) -> u64 {
        (f64::from_bits(a) + f64::from_bits(b)).to_bits()
    }
    fn sub(&self, a: u64, b: u64) -> u64 {
        (f64::from_bits(a) - f64::from_bits(b)).to_bits()
    }
    fn mul(&self, a: u64, b: u64) -> u64 {
        (f64::from_bits(a) * f64::from_bits(b)).to_bits()
    }
    fn div(&self, a: u64, b: u64) -> u64 {
        (f64::from_bits(a) / f64::from_bits(b)).to_bits()
    }
    fn lt(&self, a: u64, b: u64) -> bool {
        f64::from_bits(a) < f64::from_bits(b)
    }
    fn le(&self, a: u64, b: u64) -> bool {
        f64::from_bits(a) <= f64::from_bits(b)
    }
    fn gt(&self, a: u64, b: u64) -> bool {
        f64::from_bits(a) > f64::from_bits(b)
    }
    fn ge(&self, a: u64, b: u64) -> bool {
        f64::from_bits(a) >= f64::from_bits(b)
    }
}

fn run(exp: &Exp) -> Result<Value, InterpError> {
    let mut env = Env::new();
    let mut st = EvalState::new();
    interp(exp, &mut env, &mut st, &NoFloats, 1000)
}

fn num(i: i64) -> Exp {
    Exp::Int(i)
}

fn id(s: &str) -> Exp {
    Exp::Id(s.to_string())
}

fn add(l: Exp, r: Exp) -> Exp {
    Exp::Add {
        lhs: Box::new(l),
        rhs: Box::new(r),
    }
}

fn div(l: Exp, r: Exp) -> Exp {
    Exp::Div {
        lhs: Box::new(l),
        rhs: Box::new(r),
    }
}

fn app(f: Exp, a: Exp) -> Exp {
    Exp::App {
        func: Box::new(f),
        arg: Box::new(a),
    }
}

fn lambda(x: &str, body: Exp) -> Exp {
    Exp::Lambda {
        symbol: x.to_string(),
        body: Box::new(body),
    }
}

#[test]
fn div_truncates_toward_zero() {
    assert!(matches!(run(&div(num(7), num(2))), Ok(Value::Int(3))));
    assert!(matches!(run(&div(num(-7), num(2))), Ok(Value::Int(-3))));
    assert!(matches!(run(&div(num(7), num(-2))), Ok(Value::Int(-3))));
    assert!(matches!(run(&div(num(-7), num(-2))), Ok(Value::Int(3))));
}

#[test]
fn div_by_zero_fails() {
    assert!(matches!(
        run(&div(num(7), num(0))),
        Err(InterpError::DivisionByZero)
    ));
}

#[test]
fn div_min_by_minus_one_wraps() {
    assert!(matches!(
        run(&div(num(i64::MIN), num(-1))),
        Ok(Value::Int(i64::MIN))
    ));
}

#[test]
fn add_wraps_on_overflow() {
    assert!(matches!(
        run(&add(num(i64::MAX), num(1))),
        Ok(Value::Int(i64::MIN))
    ));
}

#[test]
fn arithmetic_and_comparisons() {
    let sub = Exp::Sub {
        lhs: Box::new(num(9)),
        rhs: Box::new(num(4)),
    };
    assert!(matches!(run(&sub), Ok(Value::Int(5))));
    let mult = Exp::Mult {
        lhs: Box::new(num(6)),
        rhs: Box::new(num(7)),
    };
    assert!(matches!(run(&mult), Ok(Value::Int(42))));
    let eq = Exp::Eq {
        lhs: Box::new(num(5)),
        rhs: Box::new(num(5)),
    };
    assert!(matches!(run(&eq), Ok(Value::Bool(true))));
    let lt = Exp::Lt {
        lhs: Box::new(num(5)),
        rhs: Box::new(num(6)),
    };
    assert!(matches!(run(&lt), Ok(Value::Bool(true))));
    let ge = Exp::Ge {
        lhs: Box::new(num(5)),
        rhs: Box::new(num(6)),
    };
    assert!(matches!(run(&ge), Ok(Value::Bool(false))));
}

#[test]
fn eq_rejects_floats() {
    let e = Exp::Eq {
        lhs: Box::new(Exp::Float((1.0f64).to_bits())),
        rhs: Box::new(Exp::Float((1.0f64).to_bits())),
    };
    assert!(matches!(run(&e), Err(InterpError::NotANumber)));
}

#[test]
fn mixed_operands_are_incompatible() {
    let e = add(num(1), Exp::Float((1.0f64).to_bits()));
    assert!(matches!(run(&e), Err(InterpError::IncompatibleTypes)));
}

#[test]
fn non_numbers_are_rejected() {
    let e = add(Exp::Bool(true), Exp::Bool(false));
    assert!(matches!(run(&e), Err(InterpError::NotANumber)));
}

#[test]
fn if_selects_branch_of_same_shape() {
    let e = Exp::If {
        cond: Box::new(Exp::Bool(true)),
        lhs: Box::new(num(3)),
        rhs: Box::new(num(4)),
    };
    assert!(matches!(run(&e), Ok(Value::Int(3))));
    let e = Exp::If {
        cond: Box::new(Exp::Bool(false)),
        lhs: Box::new(num(3)),
        rhs: Box::new(num(4)),
    };
    assert!(matches!(run(&e), Ok(Value::Int(4))));
}

#[test]
fn if_same_literal_both_ways() {
    for c in [true, false] {
        let e = Exp::If {
            cond: Box::new(Exp::Bool(c)),
            lhs: Box::new(num(11)),
            rhs: Box::new(num(11)),
        };
        assert!(matches!(run(&e), Ok(Value::Int(11))));
        let e = Exp::If {
            cond: Box::new(Exp::Bool(c)),
            lhs: Box::new(Exp::Bool(true)),
            rhs: Box::new(Exp::Bool(true)),
        };
        assert!(matches!(run(&e), Ok(Value::Bool(true))));
        let bits = (2.5f64).to_bits();
        let e = Exp::If {
            cond: Box::new(Exp::Bool(c)),
            lhs: Box::new(Exp::Float(bits)),
            rhs: Box::new(Exp::Float(bits)),
        };
        match run(&e) {
            Ok(Value::Float(b)) => assert_eq!(b, bits),
            _ => panic!("expected the float back"),
        }
    }
}

#[test]
fn if_branches_of_different_shapes_fail() {
    let e = Exp::If {
        cond: Box::new(Exp::Bool(true)),
        lhs: Box::new(num(1)),
        rhs: Box::new(Exp::Float((1.0f64).to_bits())),
    };
    assert!(matches!(run(&e), Err(InterpError::BranchTypeMismatch)));
}

#[test]
fn if_condition_must_be_boolean() {
    let e = Exp::If {
        cond: Box::new(num(1)),
        lhs: Box::new(num(1)),
        rhs: Box::new(num(2)),
    };
    assert!(matches!(run(&e), Err(InterpError::ConditionNotBoolean)));
}

#[test]
fn unbox_of_box_round_trips() {
    let e = Exp::Unbox(Box::new(Exp::Box(Box::new(num(5)))));
    assert!(matches!(run(&e), Ok(Value::Int(5))));
}

#[test]
fn closure_captures_lexically() {
    // ((lambda x (lambda y (+ x y))) 3) 4 evaluates to 7
    let inner = lambda("y", add(id("x"), id("y")));
    let outer = lambda("x", inner);
    let e = app(app(outer, num(3)), num(4));
    assert!(matches!(run(&e), Ok(Value::Int(7))));
}

#[test]
fn symbol_not_found() {
    assert!(matches!(
        run(&id("nowhere")),
        Err(InterpError::SymbolNotFound(_))
    ));
}

#[test]
fn lookup_finds_innermost_binding() {
    let mut env = Env::new();
    let mut st = EvalState::new();
    env.push("x".to_string(), Value::Int(1));
    env.push("x".to_string(), Value::Int(2));
    let r = interp(&id("x"), &mut env, &mut st, &NoFloats, 10);
    assert!(matches!(r, Ok(Value::Int(2))));
}

#[test]
fn application_of_non_closure_fails() {
    let e = app(num(1), num(2));
    assert!(matches!(run(&e), Err(InterpError::IncompatibleTypes)));
}

#[test]
fn fuel_bounds_application_depth() {
    let e = app(lambda("x", id("x")), num(1));
    let mut env = Env::new();
    let mut st = EvalState::new();
    let r = interp(&e, &mut env, &mut st, &NoFloats, 0);
    assert!(matches!(r, Err(InterpError::RecursionLimit)));
}

#[test]
fn mutable_borrow_is_exclusive() {
    // b = box 5; a first mut-ref succeeds, a second fails; two refs succeed
    let mut env = Env::new();
    let mut st = EvalState::new();
    let b = interp(
        &Exp::Box(Box::new(num(5))),
        &mut env,
        &mut st,
        &NoFloats,
        10,
    )
    .unwrap();
    env.push("b".to_string(), b);
    let first = interp(
        &Exp::MutRef(Box::new(id("b"))),
        &mut env,
        &mut st,
        &NoFloats,
        10,
    );
    assert!(matches!(first, Ok(Value::MutRefVal(0))));
    let second = interp(
        &Exp::MutRef(Box::new(id("b"))),
        &mut env,
        &mut st,
        &NoFloats,
        10,
    );
    assert!(matches!(second, Err(InterpError::BorrowConflict)));
}

#[test]
fn shared_borrows_stack() {
    let mut env = Env::new();
    let mut st = EvalState::new();
    let b = interp(
        &Exp::Box(Box::new(num(5))),
        &mut env,
        &mut st,
        &NoFloats,
        10,
    )
    .unwrap();
    env.push("b".to_string(), b);
    let first = interp(
        &Exp::Ref(Box::new(id("b"))),
        &mut env,
        &mut st,
        &NoFloats,
        10,
    );
    assert!(matches!(first, Ok(Value::ImmRef(0))));
    let second = interp(
        &Exp::Ref(Box::new(id("b"))),
        &mut env,
        &mut st,
        &NoFloats,
        10,
    );
    assert!(matches!(second, Ok(Value::ImmRef(0))));
    // but a mutable borrow of a shared cell is refused
    let third = interp(
        &Exp::MutRef(Box::new(id("b"))),
        &mut env,
        &mut st,
        &NoFloats,
        10,
    );
    assert!(matches!(third, Err(InterpError::BorrowConflict)));
}

#[test]
fn mutation_through_mut_ref_is_visible() {
    // let r = (mut-ref b) in (begin (set r 9) (unbox b)) gives 9
    let mut env = Env::new();
    let mut st = EvalState::new();
    let b = interp(
        &Exp::Box(Box::new(num(5))),
        &mut env,
        &mut st,
        &NoFloats,
        10,
    )
    .unwrap();
    env.push("b".to_string(), b);
    let body = Exp::Begin(vec![
        Exp::Assign {
            lhs: Box::new(id("r")),
            rhs: Box::new(num(9)),
        },
        Exp::Unbox(Box::new(id("b"))),
    ]);
    let e = app(lambda("r", body), Exp::MutRef(Box::new(id("b"))));
    let r = interp(&e, &mut env, &mut st, &NoFloats, 10);
    assert!(matches!(r, Ok(Value::Int(9))));
    // the let scope released the exclusive borrow: a new one succeeds
    let again = interp(
        &Exp::MutRef(Box::new(id("b"))),
        &mut env,
        &mut st,
        &NoFloats,
        10,
    );
    assert!(matches!(again, Ok(Value::MutRefVal(0))));
}

#[test]
fn deref_reads_through_references() {
    let mut env = Env::new();
    let mut st = EvalState::new();
    let b = interp(
        &Exp::Box(Box::new(num(8))),
        &mut env,
        &mut st,
        &NoFloats,
        10,
    )
    .unwrap();
    env.push("b".to_string(), b);
    let e = Exp::Deref(Box::new(Exp::Ref(Box::new(id("b")))));
    assert!(matches!(
        interp(&e, &mut env, &mut st, &NoFloats, 10),
        Ok(Value::Int(8))
    ));
}

#[test]
fn set_requires_a_mutable_reference() {
    let mut env = Env::new();
    let mut st = EvalState::new();
    let b = interp(
        &Exp::Box(Box::new(num(5))),
        &mut env,
        &mut st,
        &NoFloats,
        10,
    )
    .unwrap();
    env.push("b".to_string(), b);
    let e = Exp::Assign {
        lhs: Box::new(Exp::Ref(Box::new(id("b")))),
        rhs: Box::new(num(9)),
    };
    assert!(matches!(
        interp(&e, &mut env, &mut st, &NoFloats, 10),
        Err(InterpError::IncompatibleTypes)
    ));
}

#[test]
fn moving_a_box_invalidates_the_source_binding() {
    // binding b's box handle to a new name moves it; using b afterwards fails
    let mut env = Env::new();
    let mut st = EvalState::new();
    let b = interp(
        &Exp::Box(Box::new(num(5))),
        &mut env,
        &mut st,
        &NoFloats,
        10,
    )
    .unwrap();
    env.push("b".to_string(), b);
    let consume = app(lambda("c", Exp::Unbox(Box::new(id("c")))), id("b"));
    assert!(matches!(
        interp(&consume, &mut env, &mut st, &NoFloats, 10),
        Ok(Value::Int(5))
    ));
    let after = Exp::Unbox(Box::new(id("b")));
    assert!(matches!(
        interp(&after, &mut env, &mut st, &NoFloats, 10),
        Err(InterpError::UseAfterMove)
    ));
}

#[test]
fn empty_begin_fails() {
    assert!(matches!(
        run(&Exp::Begin(vec![])),
        Err(InterpError::IncompatibleTypes)
    ));
}

#[test]
fn begin_yields_the_last_value() {
    let e = Exp::Begin(vec![num(1), num(2), num(3)]);
    assert!(matches!(run(&e), Ok(Value::Int(3))));
}

#[test]
fn display_logs_and_returns_the_value() {
    let mut env = Env::new();
    let mut st = EvalState::new();
    let e = Exp::Display(Box::new(num(5)));
    let r = interp(&e, &mut env, &mut st, &NoFloats, 10);
    assert!(matches!(r, Ok(Value::Int(5))));
    assert_eq!(st.out.len(), 1);
    assert!(matches!(st.out[0], OutEvent::Display(Value::Int(5))));
}

#[test]
fn display_rejects_structured_values() {
    let e = Exp::Display(Box::new(lambda("x", id("x"))));
    assert!(matches!(run(&e), Err(InterpError::CantDisplay)));
}

#[test]
fn debug_logs_any_value() {
    let mut env = Env::new();
    let mut st = EvalState::new();
    let e = Exp::Debug(Box::new(Exp::Box(Box::new(num(5)))));
    let r = interp(&e, &mut env, &mut st, &NoFloats, 10);
    assert!(matches!(r, Ok(Value::BoxRef(0))));
    assert_eq!(st.out.len(), 1);
    assert!(matches!(st.out[0], OutEvent::Debug(Value::BoxRef(0))));
}

#[test]
fn float_arithmetic_through_the_unit() {
    let mut env = Env::new();
    let mut st = EvalState::new();
    let e = add(
        Exp::Float((1.5f64).to_bits()),
        Exp::Float((2.5f64).to_bits()),
    );
    match interp(&e, &mut env, &mut st, &MachineFloats, 10) {
        Ok(Value::Float(bits)) => assert_eq!(f64::from_bits(bits), 4.0),
        _ => panic!("expected a float sum"),
    }
}

#[test]
fn float_division_by_zero_fails_before_the_unit() {
    let e = div(
        Exp::Float((1.0f64).to_bits()),
        Exp::Float((-0.0f64).to_bits()),
    );
    let mut env = Env::new();
    let mut st = EvalState::new();
    assert!(matches!(
        interp(&e, &mut env, &mut st, &MachineFloats, 10),
        Err(InterpError::DivisionByZero)
    ));
}

#[test]
fn float_comparison_through_the_unit() {
    let e = Exp::Lt {
        lhs: Box::new(Exp::Float((1.0f64).to_bits())),
        rhs: Box::new(Exp::Float((2.0f64).to_bits())),
    };
    let mut env = Env::new();
    let mut st = EvalState::new();
    assert!(matches!(
        interp(&e, &mut env, &mut st, &MachineFloats, 10),
        Ok(Value::Bool(true))
    ));
}

#[test]
fn looking_up_a_moved_binding_succeeds() {
    // the lookup itself yields the sentinel; only box operations on it fail
    let mut env = Env::new();
    let mut st = EvalState::new();
    env.push("b".to_string(), Value::Moved);
    let r = interp(&id("b"), &mut env, &mut st, &NoFloats, 10);
    assert!(matches!(r, Ok(Value::Moved)));
}

#[test]
fn box_operations_on_moved_fail() {
    let mut env = Env::new();
    let mut st = EvalState::new();
    env.push("b".to_string(), Value::Moved);
    for e in [
        Exp::Unbox(Box::new(id("b"))),
        Exp::Ref(Box::new(id("b"))),
        Exp::MutRef(Box::new(id("b"))),
        Exp::Deref(Box::new(id("b"))),
    ] {
        assert!(matches!(
            interp(&e, &mut env, &mut st, &NoFloats, 10),
            Err(InterpError::UseAfterMove)
        ));
    }
    let set = Exp::Assign {
        lhs: Box::new(id("b")),
        rhs: Box::new(num(1)),
    };
    assert!(matches!(
        interp(&set, &mut env, &mut st, &NoFloats, 10),
        Err(InterpError::UseAfterMove)
    ));
}
