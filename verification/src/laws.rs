//! General laws of the semantics, stated over [`eval_spec`] — the same
//! specification that [`crate::interp::interp`]'s contract pins the
//! evaluator to.

use vstd::prelude::*;

use crate::ast::ExpView;
use crate::interp::{
    abs_int, apply_binop_spec, binop_kind_view, div_trunc, eval_binop_spec, eval_spec, exact_err,
    exact_ok, BinKind, InterpErrorView,
};
use crate::value::{lookup_spec, BindingView, BorrowState, CellView, StateView, ValueView};

verus! {

/// The literal expression whose evaluation yields a given integer, float,
/// or boolean value.
pub open spec fn literal_exp(v: ValueView) -> ExpView {
    match v {
        ValueView::Int(i) => ExpView::Int(i),
        ValueView::Float(bits) => ExpView::Float(bits),
        ValueView::Bool(b) => ExpView::Bool(b),
        _ => ExpView::Int(0),
    }
}

/// Law: dividing one integer literal by a nonzero integer literal yields
/// their quotient, truncated toward zero. The one pair this cannot hold
/// for is `i64::MIN / -1`, whose true quotient is not a 64-bit integer;
/// it is left out here and wraps to `i64::MIN` in the semantics.
pub proof fn lemma_div_literals(
    fuel: u64,
    a: i64,
    b: i64,
    env: Seq<BindingView>,
    st: StateView,
)
    requires
        b != 0,
        !(a == i64::MIN && b == -1),
    ensures
        eval_spec(
            fuel,
            ExpView::Div { lhs: Box::new(ExpView::Int(a)), rhs: Box::new(ExpView::Int(b)) },
            env,
            st,
        ) == exact_ok(ValueView::Int(div_trunc(a as int, b as int) as i64), env, st),
{
    let x = a as int;
    let d = b as int;
    let q0 = abs_int(x) / abs_int(d);
    assert(q0 <= abs_int(x) && q0 >= 0) by (nonlinear_arith)
        requires
            q0 == abs_int(x) / abs_int(d),
            abs_int(d) >= 1,
            abs_int(x) >= 0,
    ;
    if x == 0 {
        assert(0int / abs_int(d) == 0) by (nonlinear_arith)
            requires
                abs_int(d) >= 1,
        ;
    }
    if a == i64::MIN && b < 0 {
        assert(abs_int(x) / abs_int(d) <= 0x4000_0000_0000_0000int) by (nonlinear_arith)
            requires
                abs_int(x) == 0x8000_0000_0000_0000int,
                abs_int(d) >= 2,
        ;
    }
    let e = ExpView::Div { lhs: Box::new(ExpView::Int(a)), rhs: Box::new(ExpView::Int(b)) };
    assert(eval_spec(fuel, e, env, st) == eval_binop_spec(fuel, e, env, st));
    assert(binop_kind_view(e) == Some(
        (BinKind::Div, Box::new(ExpView::Int(a)), Box::new(ExpView::Int(b))),
    ));
    assert(eval_spec(fuel, ExpView::Int(a), env, st) == exact_ok(ValueView::Int(a), env, st));
    assert(eval_spec(fuel, ExpView::Int(b), env, st) == exact_ok(ValueView::Int(b), env, st));
    assert(apply_binop_spec(BinKind::Div, ValueView::Int(a), ValueView::Int(b)) == Some(
        Ok::<ValueView, InterpErrorView>(ValueView::Int(div_trunc(x, d) as i64)),
    ));
}

/// Law: dividing any integer literal by the zero literal fails with the
/// division-by-zero error.
pub proof fn lemma_div_by_zero(fuel: u64, a: i64, env: Seq<BindingView>, st: StateView)
    ensures
        eval_spec(
            fuel,
            ExpView::Div { lhs: Box::new(ExpView::Int(a)), rhs: Box::new(ExpView::Int(0i64)) },
            env,
            st,
        ) == exact_err(InterpErrorView::DivisionByZero, env, st),
{
    let e = ExpView::Div { lhs: Box::new(ExpView::Int(a)), rhs: Box::new(ExpView::Int(0i64)) };
    assert(eval_spec(fuel, e, env, st) == eval_binop_spec(fuel, e, env, st));
    assert(binop_kind_view(e) == Some(
        (BinKind::Div, Box::new(ExpView::Int(a)), Box::new(ExpView::Int(0i64))),
    ));
    assert(eval_spec(fuel, ExpView::Int(a), env, st) == exact_ok(ValueView::Int(a), env, st));
    assert(eval_spec(fuel, ExpView::Int(0i64), env, st) == exact_ok(
        ValueView::Int(0i64),
        env,
        st,
    ));
    assert(apply_binop_spec(BinKind::Div, ValueView::Int(a), ValueView::Int(0i64)) == Some(
        Err::<ValueView, InterpErrorView>(InterpErrorView::DivisionByZero),
    ));
}

/// Law: a conditional whose two branches are the same numeric or boolean
/// literal yields that value, whichever way the condition goes.
pub proof fn lemma_if_same_branches(
    fuel: u64,
    c: bool,
    v: ValueView,
    env: Seq<BindingView>,
    st: StateView,
)
    requires
        v is Int || v is Float || v is Bool,
    ensures
        eval_spec(
            fuel,
            ExpView::If {
                cond: Box::new(ExpView::Bool(c)),
                lhs: Box::new(literal_exp(v)),
                rhs: Box::new(literal_exp(v)),
            },
            env,
            st,
        ) == exact_ok(v, env, st),
{
    let lit = literal_exp(v);
    assert(eval_spec(fuel, lit, env, st) == exact_ok(v, env, st));
    assert(eval_spec(fuel, ExpView::Bool(c), env, st) == exact_ok(ValueView::Bool(c), env, st));
}

/// Law: a mutable borrow demands exclusivity. Taking `mut-ref` of a box
/// handle whose cell is already borrowed — shared or exclusive — fails
/// with a borrow conflict and changes nothing.
pub proof fn lemma_mut_ref_needs_free(
    fuel: u64,
    name: Seq<char>,
    loc: usize,
    env: Seq<BindingView>,
    st: StateView,
)
    requires
        lookup_spec(env, name) == Some(ValueView::BoxRef(loc)),
        loc < st.heap.len(),
        st.heap[loc as int].borrow != BorrowState::Free,
    ensures
        eval_spec(fuel, ExpView::MutRef(Box::new(ExpView::Id(name))), env, st) == exact_err(
            InterpErrorView::BorrowConflict,
            env,
            st,
        ),
{
    assert(eval_spec(fuel, ExpView::Id(name), env, st) == exact_ok(
        ValueView::BoxRef(loc),
        env,
        st,
    ));
}

/// Law: immutable borrows stack. Taking `ref` of a box handle whose cell
/// is free or shared below the count limit succeeds, yields an immutable
/// reference to the cell, and raises the cell's shared count by one; on
/// an exclusively borrowed cell it fails with a borrow conflict.
pub proof fn lemma_ref_shares(
    fuel: u64,
    name: Seq<char>,
    loc: usize,
    env: Seq<BindingView>,
    st: StateView,
)
    requires
        lookup_spec(env, name) == Some(ValueView::BoxRef(loc)),
        loc < st.heap.len(),
    ensures
        st.heap[loc as int].borrow == BorrowState::Exclusive ==> eval_spec(
            fuel,
            ExpView::Ref(Box::new(ExpView::Id(name))),
            env,
            st,
        ) == exact_err(InterpErrorView::BorrowConflict, env, st),
        st.heap[loc as int].borrow == BorrowState::Free ==> eval_spec(
            fuel,
            ExpView::Ref(Box::new(ExpView::Id(name))),
            env,
            st,
        ) == exact_ok(
            ValueView::ImmRef(loc),
            env,
            StateView {
                heap: st.heap.update(
                    loc as int,
                    CellView {
                        value: st.heap[loc as int].value,
                        borrow: BorrowState::SharedBy(1u64),
                    },
                ),
                out: st.out,
            },
        ),
        st.heap[loc as int].borrow matches BorrowState::SharedBy(n) ==> n < u64::MAX
            ==> eval_spec(fuel, ExpView::Ref(Box::new(ExpView::Id(name))), env, st) == exact_ok(
            ValueView::ImmRef(loc),
            env,
            StateView {
                heap: st.heap.update(
                    loc as int,
                    CellView {
                        value: st.heap[loc as int].value,
                        borrow: BorrowState::SharedBy((n + 1) as u64),
                    },
                ),
                out: st.out,
            },
        ),
{
    assert(eval_spec(fuel, ExpView::Id(name), env, st) == exact_ok(
        ValueView::BoxRef(loc),
        env,
        st,
    ));
}

} // verus!
