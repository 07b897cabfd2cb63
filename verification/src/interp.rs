//! The evaluator: a tree-walking interpreter over [`Exp`] with lexical
//! closures, a location-addressed heap of boxed values, immutable and
//! mutable references, move invalidation of bindings, and a runtime
//! borrow discipline (at most one live mutable borrow, or any number of
//! immutable borrows, per cell — never both).
//!
//! [`eval_spec`] is the mathematical semantics; [`interp`] is proved to
//! follow it exactly wherever the semantics is pinned. The one thing the
//! semantics does not pin is the value computed by a floating-point
//! operation: floats are carried as bit patterns, the arithmetic on them is
//! done by a caller-supplied [`FloatOps`] unit, and from the first such
//! operation on, a run's outcome is marked
//! [`EvalOutcome::FloatDependent`] and no further claim is made. Mixed-type
//! errors and division by a float zero are still pinned exactly, since
//! they are decided on the bits alone.
//!
//! Design decisions this crate fixes, where the language leaves them open:
//! - Recursion depth is bounded by an explicit `fuel`, spent one unit per
//!   function application; exhaustion reports
//!   [`InterpError::RecursionLimit`]. Plain nesting spends no fuel.
//! - A borrow is scoped to the application that bound it: when the body of
//!   an applied closure finishes, the borrow that the argument value
//!   carried (an immutable or mutable reference) is released. A reference
//!   that is never bound by an application keeps its borrow for the rest
//!   of the evaluation.
//! - A move is triggered exactly when the argument of an application is
//!   syntactically an identifier whose value is a box handle: that source
//!   binding is re-bound to `Moved`. Moves inside a closure body act on
//!   the body's own environment and do not escape it.
//! - An empty `begin` fails with [`InterpError::IncompatibleTypes`].
//! - `unbox`, `ref`, `mut-ref`, `deref` and `set` on the `Moved` sentinel
//!   fail with [`InterpError::UseAfterMove`].

use vstd::prelude::*;

use crate::ast::{Exp, ExpView};
use crate::value::{
    lookup_spec, mark_moved_spec, BindingView, BorrowState, CellView, Env, EvalState, OutEvent,
    OutEventView, StateView, Value, ValueView,
};

verus! {

/// Why an evaluation failed.
#[derive(Debug)]
pub enum InterpError {
    /// Reserved for unsupported language forms; the finished evaluator
    /// never produces it.
    NotImplemented(String),
    /// An arithmetic or comparison operand is not a number.
    NotANumber,
    /// Operands of different kinds, application of a non-closure, or a
    /// box/reference form applied to the wrong kind of value.
    IncompatibleTypes,
    /// The condition of an `if` is not a boolean.
    ConditionNotBoolean,
    /// The two branches of an `if` evaluate to values of different shapes.
    BranchTypeMismatch,
    /// Division by an integer or float zero.
    DivisionByZero,
    /// `display` applied to a value that is not a number or boolean.
    CantDisplay,
    /// An identifier with no binding in scope.
    SymbolNotFound(String),
    /// A borrow that the discipline forbids: a mutable borrow of a cell
    /// that is already borrowed, or an immutable borrow of an exclusively
    /// borrowed cell.
    BorrowConflict,
    /// A box operation on a binding whose box handle was moved away.
    UseAfterMove,
    /// The application depth exceeded the caller's fuel.
    RecursionLimit,
}

/// The mathematical shape of an [`InterpError`].
#[verifier::ext_equal]
pub enum InterpErrorView {
    NotImplemented(Seq<char>),
    NotANumber,
    IncompatibleTypes,
    ConditionNotBoolean,
    BranchTypeMismatch,
    DivisionByZero,
    CantDisplay,
    SymbolNotFound(Seq<char>),
    BorrowConflict,
    UseAfterMove,
    RecursionLimit,
}

impl View for InterpError {
    type V = InterpErrorView;

    open spec fn view(&self) -> InterpErrorView {
        match self {
            InterpError::NotImplemented(s) => InterpErrorView::NotImplemented(s@),
            InterpError::NotANumber => InterpErrorView::NotANumber,
            InterpError::IncompatibleTypes => InterpErrorView::IncompatibleTypes,
            InterpError::ConditionNotBoolean => InterpErrorView::ConditionNotBoolean,
            InterpError::BranchTypeMismatch => InterpErrorView::BranchTypeMismatch,
            InterpError::DivisionByZero => InterpErrorView::DivisionByZero,
            InterpError::CantDisplay => InterpErrorView::CantDisplay,
            InterpError::SymbolNotFound(s) => InterpErrorView::SymbolNotFound(s@),
            InterpError::BorrowConflict => InterpErrorView::BorrowConflict,
            InterpError::UseAfterMove => InterpErrorView::UseAfterMove,
            InterpError::RecursionLimit => InterpErrorView::RecursionLimit,
        }
    }
}

/// The evaluator's result, at the level of views.
pub open spec fn interp_result_view(r: Result<Value, InterpError>) -> Result<
    ValueView,
    InterpErrorView,
> {
    match r {
        Ok(v) => Ok(v@),
        Err(e) => Err(e@),
    }
}

/// The floating-point unit. The crate carries floats only as 64-bit
/// patterns and never computes with them; a caller that wants floating
/// arithmetic supplies an implementation (ordinarily backed by the
/// machine's floats). Nothing is specified about the results: every
/// outcome that depends on one is outside the pinned semantics (see
/// [`EvalOutcome::FloatDependent`]).
pub trait FloatOps {
    /// The sum of the two operands, by bit patterns.
    fn add(&self, a: u64, b: u64) -> u64;

    /// The difference of the two operands, by bit patterns.
    fn sub(&self, a: u64, b: u64) -> u64;

    /// The product of the two operands, by bit patterns.
    fn mul(&self, a: u64, b: u64) -> u64;

    /// The quotient of the two operands, by bit patterns; never called
    /// with a right operand whose pattern is a float zero.
    fn div(&self, a: u64, b: u64) -> u64;

    /// Whether the left operand orders strictly below the right.
    fn lt(&self, a: u64, b: u64) -> bool;

    /// Whether the left operand orders at or below the right.
    fn le(&self, a: u64, b: u64) -> bool;

    /// Whether the left operand orders strictly above the right.
    fn gt(&self, a: u64, b: u64) -> bool;

    /// Whether the left operand orders at or above the right.
    fn ge(&self, a: u64, b: u64) -> bool;
}

/// The nine binary operators.
#[derive(Clone, Copy, PartialEq, Eq, Structural, Debug)]
pub enum BinKind {
    Add,
    Sub,
    Mult,
    Div,
    Eq,
    Gt,
    Ge,
    Lt,
    Le,
}

/// One pinned evaluation step: result, environment, and state after it.
#[verifier::ext_equal]
pub struct EvalPost {
    pub res: Result<ValueView, InterpErrorView>,
    pub env: Seq<BindingView>,
    pub st: StateView,
}

/// What the semantics says about one evaluation: either the outcome is
/// pinned exactly, or the run performed a floating-point operation and
/// from that point on nothing more is claimed.
#[verifier::ext_equal]
pub enum EvalOutcome {
    Exact(EvalPost),
    FloatDependent,
}

/// Truncating integer division: the quotient rounded toward zero.
pub open spec fn div_trunc(a: int, b: int) -> int {
    let q = abs_int(a) / abs_int(b);
    if (a < 0) != (b < 0) {
        -q
    } else {
        q
    }
}

/// The absolute value of an integer.
pub open spec fn abs_int(x: int) -> int {
    if x < 0 {
        -x
    } else {
        x
    }
}

/// Whether a bit pattern is a 64-bit float zero (either sign).
pub open spec fn is_float_zero(bits: u64) -> bool {
    bits == 0u64 || bits == 0x8000_0000_0000_0000u64
}

/// Whether two values have the same shape, in the sense the `if` branch
/// check uses: both integers, both floats, both booleans, both box
/// handles, both immutable references, or both mutable references.
/// Closures and the `Moved` sentinel never pass the check.
pub open spec fn same_shape(a: ValueView, b: ValueView) -> bool {
    ||| (a is Int && b is Int)
    ||| (a is Float && b is Float)
    ||| (a is Bool && b is Bool)
    ||| (a is BoxRef && b is BoxRef)
    ||| (a is ImmRef && b is ImmRef)
    ||| (a is MutRefVal && b is MutRefVal)
}

/// What one binary operator yields on two operand values: `Some` of the
/// pinned result, or `None` where the result is the output of a
/// floating-point operation and so not pinned. Errors — mixed kinds,
/// non-numbers, zero divisors — are always pinned.
pub open spec fn apply_binop_spec(k: BinKind, a: ValueView, b: ValueView) -> Option<
    Result<ValueView, InterpErrorView>,
> {
    match k {
        BinKind::Add | BinKind::Sub | BinKind::Mult => match (a, b) {
            (ValueView::Int(x), ValueView::Int(y)) => Some(
                Ok(
                    ValueView::Int(
                        match k {
                            BinKind::Add => vstd::wrapping::i64_specs::wrapping_add(x, y),
                            BinKind::Sub => vstd::wrapping::i64_specs::wrapping_sub(x, y),
                            _ => vstd::wrapping::i64_specs::wrapping_mul(x, y),
                        },
                    ),
                ),
            ),
            (ValueView::Float(_), ValueView::Float(_)) => None,
            (ValueView::Int(_), ValueView::Float(_)) => Some(
                Err(InterpErrorView::IncompatibleTypes),
            ),
            (ValueView::Float(_), ValueView::Int(_)) => Some(
                Err(InterpErrorView::IncompatibleTypes),
            ),
            _ => Some(Err(InterpErrorView::NotANumber)),
        },
        BinKind::Div => match (a, b) {
            (ValueView::Int(x), ValueView::Int(y)) => if y == 0i64 {
                Some(Err(InterpErrorView::DivisionByZero))
            } else {
                match x.checked_div(y) {
                    Some(q) => Some(Ok(ValueView::Int(q))),
                    None => Some(Ok(ValueView::Int(i64::MIN))),
                }
            },
            (ValueView::Float(_), ValueView::Float(y)) => if is_float_zero(y) {
                Some(Err(InterpErrorView::DivisionByZero))
            } else {
                None
            },
            (ValueView::Int(_), ValueView::Float(_)) => Some(
                Err(InterpErrorView::IncompatibleTypes),
            ),
            (ValueView::Float(_), ValueView::Int(_)) => Some(
                Err(InterpErrorView::IncompatibleTypes),
            ),
            _ => Some(Err(InterpErrorView::NotANumber)),
        },
        BinKind::Eq => match (a, b) {
            (ValueView::Int(x), ValueView::Int(y)) => Some(Ok(ValueView::Bool(x == y))),
            _ => Some(Err(InterpErrorView::NotANumber)),
        },
        BinKind::Gt | BinKind::Ge | BinKind::Lt | BinKind::Le => match (a, b) {
            (ValueView::Int(x), ValueView::Int(y)) => Some(
                Ok(
                    ValueView::Bool(
                        match k {
                            BinKind::Gt => x > y,
                            BinKind::Ge => x >= y,
                            BinKind::Lt => x < y,
                            _ => x <= y,
                        },
                    ),
                ),
            ),
            (ValueView::Float(_), ValueView::Float(_)) => None,
            (ValueView::Int(_), ValueView::Float(_)) => Some(
                Err(InterpErrorView::IncompatibleTypes),
            ),
            (ValueView::Float(_), ValueView::Int(_)) => Some(
                Err(InterpErrorView::IncompatibleTypes),
            ),
            _ => Some(Err(InterpErrorView::NotANumber)),
        },
    }
}

/// The operator and operands of a binary node, if `e` is one.
pub open spec fn binop_kind_view(e: ExpView) -> Option<(BinKind, Box<ExpView>, Box<ExpView>)> {
    match e {
        ExpView::Add { lhs, rhs } => Some((BinKind::Add, lhs, rhs)),
        ExpView::Sub { lhs, rhs } => Some((BinKind::Sub, lhs, rhs)),
        ExpView::Mult { lhs, rhs } => Some((BinKind::Mult, lhs, rhs)),
        ExpView::Div { lhs, rhs } => Some((BinKind::Div, lhs, rhs)),
        ExpView::Eq { lhs, rhs } => Some((BinKind::Eq, lhs, rhs)),
        ExpView::Gt { lhs, rhs } => Some((BinKind::Gt, lhs, rhs)),
        ExpView::Ge { lhs, rhs } => Some((BinKind::Ge, lhs, rhs)),
        ExpView::Lt { lhs, rhs } => Some((BinKind::Lt, lhs, rhs)),
        ExpView::Le { lhs, rhs } => Some((BinKind::Le, lhs, rhs)),
        _ => None,
    }
}

/// The heap after the borrow carried by `v` is released: an immutable
/// reference leaves one shared borrow, a mutable reference leaves the
/// exclusive borrow, any other value releases nothing. Total over
/// arbitrary heaps; a release that does not fit the cell's state releases
/// nothing.
pub open spec fn release_spec(heap: Seq<CellView>, v: ValueView) -> Seq<CellView> {
    match v {
        ValueView::ImmRef(loc) => if loc < heap.len() {
            match heap[loc as int].borrow {
                BorrowState::SharedBy(n) => if n <= 1 {
                    heap.update(
                        loc as int,
                        CellView { value: heap[loc as int].value, borrow: BorrowState::Free },
                    )
                } else {
                    heap.update(
                        loc as int,
                        CellView {
                            value: heap[loc as int].value,
                            borrow: BorrowState::SharedBy((n - 1) as u64),
                        },
                    )
                },
                _ => heap,
            }
        } else {
            heap
        },
        ValueView::MutRefVal(loc) => if loc < heap.len() {
            match heap[loc as int].borrow {
                BorrowState::Exclusive => heap.update(
                    loc as int,
                    CellView { value: heap[loc as int].value, borrow: BorrowState::Free },
                ),
                _ => heap,
            }
        } else {
            heap
        },
        _ => heap,
    }
}

/// No cell is ever marked as shared by zero borrowers.
pub open spec fn heap_wf(heap: Seq<CellView>) -> bool {
    forall|i: int| 0 <= i < heap.len() ==> #[trigger] heap[i].borrow != BorrowState::SharedBy(0u64)
}

/// The semantics of one evaluation, with `fuel` bounding application
/// depth: what [`interp`] returns, how it rewrites the environment (moves)
/// and the state (heap and output), pinned exactly except beyond the first
/// floating-point operation.
pub open spec fn eval_spec(
    fuel: u64,
    e: ExpView,
    env: Seq<BindingView>,
    st: StateView,
) -> EvalOutcome
    decreases fuel, e, 1int,
{
    match e {
        ExpView::Int(i) => exact_ok(ValueView::Int(i), env, st),
        ExpView::Float(bits) => exact_ok(ValueView::Float(bits), env, st),
        ExpView::Bool(b) => exact_ok(ValueView::Bool(b), env, st),
        ExpView::Id(name) => match lookup_spec(env, name) {
            Some(v) => exact_ok(v, env, st),
            None => exact_err(InterpErrorView::SymbolNotFound(name), env, st),
        },
        ExpView::Lambda { symbol, body } => exact_ok(
            ValueView::Closure { symbol, body: *body, env },
            env,
            st,
        ),
        ExpView::Add { .. } => eval_binop_spec(fuel, e, env, st),
        ExpView::Sub { .. } => eval_binop_spec(fuel, e, env, st),
        ExpView::Mult { .. } => eval_binop_spec(fuel, e, env, st),
        ExpView::Div { .. } => eval_binop_spec(fuel, e, env, st),
        ExpView::Eq { .. } => eval_binop_spec(fuel, e, env, st),
        ExpView::Gt { .. } => eval_binop_spec(fuel, e, env, st),
        ExpView::Ge { .. } => eval_binop_spec(fuel, e, env, st),
        ExpView::Lt { .. } => eval_binop_spec(fuel, e, env, st),
        ExpView::Le { .. } => eval_binop_spec(fuel, e, env, st),
        ExpView::If { cond, lhs, rhs } => match eval_spec(fuel, *cond, env, st) {
            EvalOutcome::FloatDependent => EvalOutcome::FloatDependent,
            EvalOutcome::Exact(p0) => match p0.res {
                Err(_) => EvalOutcome::Exact(p0),
                Ok(cv) => match cv {
                    ValueView::Bool(test) => match eval_spec(fuel, *lhs, p0.env, p0.st) {
                        EvalOutcome::FloatDependent => EvalOutcome::FloatDependent,
                        EvalOutcome::Exact(p1) => match p1.res {
                            Err(_) => EvalOutcome::Exact(p1),
                            Ok(v1) => match eval_spec(fuel, *rhs, p1.env, p1.st) {
                                EvalOutcome::FloatDependent => EvalOutcome::FloatDependent,
                                EvalOutcome::Exact(p2) => match p2.res {
                                    Err(_) => EvalOutcome::Exact(p2),
                                    Ok(v2) => if !same_shape(v1, v2) {
                                        exact_err(
                                            InterpErrorView::BranchTypeMismatch,
                                            p2.env,
                                            p2.st,
                                        )
                                    } else if test {
                                        exact_ok(v1, p2.env, p2.st)
                                    } else {
                                        exact_ok(v2, p2.env, p2.st)
                                    },
                                },
                            },
                        },
                    },
                    _ => exact_err(InterpErrorView::ConditionNotBoolean, p0.env, p0.st),
                },
            },
        },
        ExpView::Begin(es) => if es.len() == 0 {
            exact_err(InterpErrorView::IncompatibleTypes, env, st)
        } else {
            eval_begin_spec(fuel, es, 0, env, st)
        },
        ExpView::App { func, arg } => if fuel == 0 {
            exact_err(InterpErrorView::RecursionLimit, env, st)
        } else {
            match eval_spec(fuel, *func, env, st) {
                EvalOutcome::FloatDependent => EvalOutcome::FloatDependent,
                EvalOutcome::Exact(p1) => match p1.res {
                    Err(_) => EvalOutcome::Exact(p1),
                    Ok(fv) => match eval_spec(fuel, *arg, p1.env, p1.st) {
                        EvalOutcome::FloatDependent => EvalOutcome::FloatDependent,
                        EvalOutcome::Exact(p2) => match p2.res {
                            Err(_) => EvalOutcome::Exact(p2),
                            Ok(av) => match fv {
                                ValueView::Closure { symbol, body, env: cenv } => {
                                    let env2 = move_marked(p2.env, *arg, av);
                                    let benv = cenv.push(
                                        BindingView { name: symbol, value: av },
                                    );
                                    match eval_spec((fuel - 1) as u64, body, benv, p2.st) {
                                        EvalOutcome::FloatDependent => EvalOutcome::FloatDependent,
                                        EvalOutcome::Exact(p3) => EvalOutcome::Exact(
                                            EvalPost {
                                                res: p3.res,
                                                env: env2,
                                                st: StateView {
                                                    heap: release_spec(p3.st.heap, av),
                                                    out: p3.st.out,
                                                },
                                            },
                                        ),
                                    }
                                },
                                _ => exact_err(InterpErrorView::IncompatibleTypes, p2.env, p2.st),
                            },
                        },
                    },
                },
            }
        },
        ExpView::Ref(inner) => match eval_spec(fuel, *inner, env, st) {
            EvalOutcome::FloatDependent => EvalOutcome::FloatDependent,
            EvalOutcome::Exact(p) => match p.res {
                Err(_) => EvalOutcome::Exact(p),
                Ok(v) => match v {
                    ValueView::BoxRef(loc) => if loc < p.st.heap.len() {
                        match p.st.heap[loc as int].borrow {
                            BorrowState::Exclusive => exact_err(
                                InterpErrorView::BorrowConflict,
                                p.env,
                                p.st,
                            ),
                            BorrowState::SharedBy(n) => if n == u64::MAX {
                                exact_err(InterpErrorView::BorrowConflict, p.env, p.st)
                            } else {
                                exact_ok(
                                    ValueView::ImmRef(loc),
                                    p.env,
                                    StateView {
                                        heap: p.st.heap.update(
                                            loc as int,
                                            CellView {
                                                value: p.st.heap[loc as int].value,
                                                borrow: BorrowState::SharedBy((n + 1) as u64),
                                            },
                                        ),
                                        out: p.st.out,
                                    },
                                )
                            },
                            BorrowState::Free => exact_ok(
                                ValueView::ImmRef(loc),
                                p.env,
                                StateView {
                                    heap: p.st.heap.update(
                                        loc as int,
                                        CellView {
                                            value: p.st.heap[loc as int].value,
                                            borrow: BorrowState::SharedBy(1u64),
                                        },
                                    ),
                                    out: p.st.out,
                                },
                            ),
                        }
                    } else {
                        exact_err(InterpErrorView::IncompatibleTypes, p.env, p.st)
                    },
                    ValueView::Moved => exact_err(InterpErrorView::UseAfterMove, p.env, p.st),
                    _ => exact_err(InterpErrorView::IncompatibleTypes, p.env, p.st),
                },
            },
        },
        ExpView::MutRef(inner) => match eval_spec(fuel, *inner, env, st) {
            EvalOutcome::FloatDependent => EvalOutcome::FloatDependent,
            EvalOutcome::Exact(p) => match p.res {
                Err(_) => EvalOutcome::Exact(p),
                Ok(v) => match v {
                    ValueView::BoxRef(loc) => if loc < p.st.heap.len() {
                        match p.st.heap[loc as int].borrow {
                            BorrowState::Free => exact_ok(
                                ValueView::MutRefVal(loc),
                                p.env,
                                StateView {
                                    heap: p.st.heap.update(
                                        loc as int,
                                        CellView {
                                            value: p.st.heap[loc as int].value,
                                            borrow: BorrowState::Exclusive,
                                        },
                                    ),
                                    out: p.st.out,
                                },
                            ),
                            _ => exact_err(InterpErrorView::BorrowConflict, p.env, p.st),
                        }
                    } else {
                        exact_err(InterpErrorView::IncompatibleTypes, p.env, p.st)
                    },
                    ValueView::Moved => exact_err(InterpErrorView::UseAfterMove, p.env, p.st),
                    _ => exact_err(InterpErrorView::IncompatibleTypes, p.env, p.st),
                },
            },
        },
        ExpView::Box(inner) => match eval_spec(fuel, *inner, env, st) {
            EvalOutcome::FloatDependent => EvalOutcome::FloatDependent,
            EvalOutcome::Exact(p) => match p.res {
                Err(_) => EvalOutcome::Exact(p),
                Ok(v) => exact_ok(
                    ValueView::BoxRef(p.st.heap.len() as usize),
                    p.env,
                    StateView {
                        heap: p.st.heap.push(CellView { value: v, borrow: BorrowState::Free }),
                        out: p.st.out,
                    },
                ),
            },
        },
        ExpView::Unbox(inner) => match eval_spec(fuel, *inner, env, st) {
            EvalOutcome::FloatDependent => EvalOutcome::FloatDependent,
            EvalOutcome::Exact(p) => match p.res {
                Err(_) => EvalOutcome::Exact(p),
                Ok(v) => match v {
                    ValueView::BoxRef(loc) => if loc < p.st.heap.len() {
                        exact_ok(p.st.heap[loc as int].value, p.env, p.st)
                    } else {
                        exact_err(InterpErrorView::IncompatibleTypes, p.env, p.st)
                    },
                    ValueView::Moved => exact_err(InterpErrorView::UseAfterMove, p.env, p.st),
                    _ => exact_err(InterpErrorView::IncompatibleTypes, p.env, p.st),
                },
            },
        },
        ExpView::Deref(inner) => match eval_spec(fuel, *inner, env, st) {
            EvalOutcome::FloatDependent => EvalOutcome::FloatDependent,
            EvalOutcome::Exact(p) => match p.res {
                Err(_) => EvalOutcome::Exact(p),
                Ok(v) => match v {
                    ValueView::ImmRef(loc) => if loc < p.st.heap.len() {
                        exact_ok(p.st.heap[loc as int].value, p.env, p.st)
                    } else {
                        exact_err(InterpErrorView::IncompatibleTypes, p.env, p.st)
                    },
                    ValueView::MutRefVal(loc) => if loc < p.st.heap.len() {
                        exact_ok(p.st.heap[loc as int].value, p.env, p.st)
                    } else {
                        exact_err(InterpErrorView::IncompatibleTypes, p.env, p.st)
                    },
                    ValueView::Moved => exact_err(InterpErrorView::UseAfterMove, p.env, p.st),
                    _ => exact_err(InterpErrorView::IncompatibleTypes, p.env, p.st),
                },
            },
        },
        ExpView::Assign { lhs, rhs } => match eval_spec(fuel, *lhs, env, st) {
            EvalOutcome::FloatDependent => EvalOutcome::FloatDependent,
            EvalOutcome::Exact(p1) => match p1.res {
                Err(_) => EvalOutcome::Exact(p1),
                Ok(v1) => match v1 {
                    ValueView::MutRefVal(loc) => match eval_spec(fuel, *rhs, p1.env, p1.st) {
                        EvalOutcome::FloatDependent => EvalOutcome::FloatDependent,
                        EvalOutcome::Exact(p2) => match p2.res {
                            Err(_) => EvalOutcome::Exact(p2),
                            Ok(v2) => if loc < p2.st.heap.len() {
                                exact_ok(
                                    v2,
                                    p2.env,
                                    StateView {
                                        heap: p2.st.heap.update(
                                            loc as int,
                                            CellView {
                                                value: v2,
                                                borrow: p2.st.heap[loc as int].borrow,
                                            },
                                        ),
                                        out: p2.st.out,
                                    },
                                )
                            } else {
                                exact_err(InterpErrorView::IncompatibleTypes, p2.env, p2.st)
                            },
                        },
                    },
                    ValueView::Moved => exact_err(InterpErrorView::UseAfterMove, p1.env, p1.st),
                    _ => exact_err(InterpErrorView::IncompatibleTypes, p1.env, p1.st),
                },
            },
        },
        ExpView::Display(inner) => match eval_spec(fuel, *inner, env, st) {
            EvalOutcome::FloatDependent => EvalOutcome::FloatDependent,
            EvalOutcome::Exact(p) => match p.res {
                Err(_) => EvalOutcome::Exact(p),
                Ok(v) => if v is Int || v is Float || v is Bool {
                    exact_ok(
                        v,
                        p.env,
                        StateView {
                            heap: p.st.heap,
                            out: p.st.out.push(OutEventView::Display(v)),
                        },
                    )
                } else {
                    exact_err(InterpErrorView::CantDisplay, p.env, p.st)
                },
            },
        },
        ExpView::Debug(inner) => match eval_spec(fuel, *inner, env, st) {
            EvalOutcome::FloatDependent => EvalOutcome::FloatDependent,
            EvalOutcome::Exact(p) => match p.res {
                Err(_) => EvalOutcome::Exact(p),
                Ok(v) => exact_ok(
                    v,
                    p.env,
                    StateView { heap: p.st.heap, out: p.st.out.push(OutEventView::Debug(v)) },
                ),
            },
        },
    }
}

/// A pinned success.
pub open spec fn exact_ok(v: ValueView, env: Seq<BindingView>, st: StateView) -> EvalOutcome {
    EvalOutcome::Exact(EvalPost { res: Ok(v), env, st })
}

/// A pinned failure.
pub open spec fn exact_err(
    e: InterpErrorView,
    env: Seq<BindingView>,
    st: StateView,
) -> EvalOutcome {
    EvalOutcome::Exact(EvalPost { res: Err(e), env, st })
}

/// The environment after an application binds its argument value: if the
/// argument expression is an identifier and its value is a box handle,
/// ownership moves and the source binding is re-bound to `Moved`.
pub open spec fn move_marked(
    env: Seq<BindingView>,
    arg: ExpView,
    av: ValueView,
) -> Seq<BindingView> {
    match arg {
        ExpView::Id(name) => if av is BoxRef {
            mark_moved_spec(env, name)
        } else {
            env
        },
        _ => env,
    }
}

/// The semantics of one binary-operator node: both operands evaluated,
/// left before right, then the operator applied.
pub open spec fn eval_binop_spec(
    fuel: u64,
    e: ExpView,
    env: Seq<BindingView>,
    st: StateView,
) -> EvalOutcome
    decreases fuel, e, 0int,
{
    match binop_kind_view(e) {
        Some((k, lhs, rhs)) => match eval_spec(fuel, *lhs, env, st) {
            EvalOutcome::FloatDependent => EvalOutcome::FloatDependent,
            EvalOutcome::Exact(p1) => match p1.res {
                Err(_) => EvalOutcome::Exact(p1),
                Ok(v1) => match eval_spec(fuel, *rhs, p1.env, p1.st) {
                    EvalOutcome::FloatDependent => EvalOutcome::FloatDependent,
                    EvalOutcome::Exact(p2) => match p2.res {
                        Err(_) => EvalOutcome::Exact(p2),
                        Ok(v2) => match apply_binop_spec(k, v1, v2) {
                            Some(res) => EvalOutcome::Exact(
                                EvalPost { res, env: p2.env, st: p2.st },
                            ),
                            None => EvalOutcome::FloatDependent,
                        },
                    },
                },
            },
        },
        None => exact_err(InterpErrorView::IncompatibleTypes, env, st),
    }
}

/// Whether two values pass the `if` branch shape check.
fn values_same_shape(a: &Value, b: &Value) -> (r: bool)
    ensures
        r == same_shape(a@, b@),
{
    match (a, b) {
        (Value::Int(_), Value::Int(_)) => true,
        (Value::Float(_), Value::Float(_)) => true,
        (Value::Bool(_), Value::Bool(_)) => true,
        (Value::BoxRef(_), Value::BoxRef(_)) => true,
        (Value::ImmRef(_), Value::ImmRef(_)) => true,
        (Value::MutRefVal(_), Value::MutRefVal(_)) => true,
        _ => false,
    }
}

/// Applies one binary operator to two already-evaluated operands. Where
/// the specification pins the result — everything except a successful
/// floating-point operation — the result is exactly the pinned one.
fn apply_binop<F: FloatOps>(k: BinKind, v1: Value, v2: Value, ops: &F) -> (r: Result<
    Value,
    InterpError,
>)
    ensures
        apply_binop_spec(k, v1@, v2@) matches Some(res) ==> interp_result_view(r) == res,
{
    match (v1, v2) {
        (Value::Int(x), Value::Int(y)) => match k {
            BinKind::Add => Ok(Value::Int(x.wrapping_add(y))),
            BinKind::Sub => Ok(Value::Int(x.wrapping_sub(y))),
            BinKind::Mult => Ok(Value::Int(x.wrapping_mul(y))),
            BinKind::Div => if y == 0 {
                Err(InterpError::DivisionByZero)
            } else {
                match x.checked_div(y) {
                    Some(q) => Ok(Value::Int(q)),
                    None => Ok(Value::Int(i64::MIN)),
                }
            },
            BinKind::Eq => Ok(Value::Bool(x == y)),
            BinKind::Gt => Ok(Value::Bool(x > y)),
            BinKind::Ge => Ok(Value::Bool(x >= y)),
            BinKind::Lt => Ok(Value::Bool(x < y)),
            BinKind::Le => Ok(Value::Bool(x <= y)),
        },
        (Value::Float(a), Value::Float(b)) => match k {
            BinKind::Add => Ok(Value::Float(ops.add(a, b))),
            BinKind::Sub => Ok(Value::Float(ops.sub(a, b))),
            BinKind::Mult => Ok(Value::Float(ops.mul(a, b))),
            BinKind::Div => if b == 0u64 || b == 0x8000_0000_0000_0000u64 {
                Err(InterpError::DivisionByZero)
            } else {
                Ok(Value::Float(ops.div(a, b)))
            },
            BinKind::Eq => Err(InterpError::NotANumber),
            BinKind::Gt => Ok(Value::Bool(ops.gt(a, b))),
            BinKind::Ge => Ok(Value::Bool(ops.ge(a, b))),
            BinKind::Lt => Ok(Value::Bool(ops.lt(a, b))),
            BinKind::Le => Ok(Value::Bool(ops.le(a, b))),
        },
        (Value::Int(_), Value::Float(_)) => match k {
            BinKind::Eq => Err(InterpError::NotANumber),
            _ => Err(InterpError::IncompatibleTypes),
        },
        (Value::Float(_), Value::Int(_)) => match k {
            BinKind::Eq => Err(InterpError::NotANumber),
            _ => Err(InterpError::IncompatibleTypes),
        },
        _ => Err(InterpError::NotANumber),
    }
}

/// Releases the borrow that the value bound by an application carried,
/// once the application's body has finished.
fn release_borrow(st: &mut EvalState, av: &Value)
    ensures
        final(st)@.heap == release_spec(old(st)@.heap, av@),
        final(st)@.out == old(st)@.out,
{
    match av {
        Value::ImmRef(loc) => {
            let loc = *loc;
            if loc < st.heap.len() {
                match st.heap.state_at(loc) {
                    BorrowState::SharedBy(n) => if n <= 1 {
                        st.heap.set_state(loc, BorrowState::Free);
                    } else {
                        st.heap.set_state(loc, BorrowState::SharedBy(n - 1));
                    },
                    _ => {},
                }
            }
        },
        Value::MutRefVal(loc) => {
            let loc = *loc;
            if loc < st.heap.len() {
                match st.heap.state_at(loc) {
                    BorrowState::Exclusive => {
                        st.heap.set_state(loc, BorrowState::Free);
                    },
                    _ => {},
                }
            }
        },
        _ => {},
    }
}

/// The semantics of a non-empty `begin` from position `k` on: each element
/// evaluated in order, the last one's value kept.
pub open spec fn eval_begin_spec(
    fuel: u64,
    es: Seq<ExpView>,
    k: int,
    env: Seq<BindingView>,
    st: StateView,
) -> EvalOutcome
    decreases fuel, es, es.len() - k,
{
    if k < 0 || k >= es.len() {
        exact_err(InterpErrorView::IncompatibleTypes, env, st)
    } else {
        match eval_spec(fuel, es[k], env, st) {
            EvalOutcome::FloatDependent => EvalOutcome::FloatDependent,
            EvalOutcome::Exact(p) => match p.res {
                Err(_) => EvalOutcome::Exact(p),
                Ok(v) => if k == es.len() - 1 {
                    EvalOutcome::Exact(p)
                } else {
                    eval_begin_spec(fuel, es, k + 1, p.env, p.st)
                },
            },
        }
    }
}

/// Evaluates one expression against an environment and a state, with
/// `fuel` bounding the application depth.
///
/// The contract is [`eval_spec`] itself: wherever the semantics pins the
/// run — everywhere short of a successful floating-point operation — the
/// returned result, the rewritten environment (moves), and the rewritten
/// state (heap and output log) are exactly the pinned ones. On any run at
/// all, the heap never shrinks and never gains a cell shared by zero
/// borrowers.
pub fn interp<F: FloatOps>(
    exp: &Exp,
    env: &mut Env,
    st: &mut EvalState,
    ops: &F,
    fuel: u64,
) -> (r: Result<Value, InterpError>)
    ensures
        (match eval_spec(fuel, exp@, old(env)@, old(st)@) {
            EvalOutcome::Exact(p) => interp_result_view(r) == p.res && final(env)@ == p.env
                && final(st)@ == p.st,
            EvalOutcome::FloatDependent => true,
        }),
        final(st)@.heap.len() >= old(st)@.heap.len(),
        heap_wf(old(st)@.heap) ==> heap_wf(final(st)@.heap),
    decreases fuel, exp@, 1int,
{
    let ghost pre_env = env@;
    let ghost pre_st = st@;
    let ghost o = eval_spec(fuel, exp@, pre_env, pre_st);
    match exp {
        Exp::Int(i) => Ok(Value::Int(*i)),
        Exp::Float(bits) => Ok(Value::Float(*bits)),
        Exp::Bool(b) => Ok(Value::Bool(*b)),
        Exp::Id(name) => match env.lookup(name) {
            Some(v) => Ok(v),
            None => Err(InterpError::SymbolNotFound(name.clone())),
        },
        Exp::Lambda { symbol, body } => {
            let cenv = env.clone();
            let v = Value::Closure {
                symbol: symbol.clone(),
                body: Box::new((**body).clone()),
                env: cenv,
            };
            proof {
                assert(v@ == ValueView::Closure {
                    symbol: symbol@,
                    body: (**body)@,
                    env: pre_env,
                });
            }
            Ok(v)
        },
        Exp::Add { lhs, rhs } => interp_binop(BinKind::Add, exp, &**lhs, &**rhs, env, st, ops, fuel),
        Exp::Sub { lhs, rhs } => interp_binop(BinKind::Sub, exp, &**lhs, &**rhs, env, st, ops, fuel),
        Exp::Mult { lhs, rhs } => interp_binop(
            BinKind::Mult,
            exp,
            &**lhs,
            &**rhs,
            env,
            st,
            ops,
            fuel,
        ),
        Exp::Div { lhs, rhs } => interp_binop(BinKind::Div, exp, &**lhs, &**rhs, env, st, ops, fuel),
        Exp::Eq { lhs, rhs } => interp_binop(BinKind::Eq, exp, &**lhs, &**rhs, env, st, ops, fuel),
        Exp::Gt { lhs, rhs } => interp_binop(BinKind::Gt, exp, &**lhs, &**rhs, env, st, ops, fuel),
        Exp::Ge { lhs, rhs } => interp_binop(BinKind::Ge, exp, &**lhs, &**rhs, env, st, ops, fuel),
        Exp::Lt { lhs, rhs } => interp_binop(BinKind::Lt, exp, &**lhs, &**rhs, env, st, ops, fuel),
        Exp::Le { lhs, rhs } => interp_binop(BinKind::Le, exp, &**lhs, &**rhs, env, st, ops, fuel),
        Exp::If { cond, lhs, rhs } => {
            let cv = match interp(&**cond, env, st, ops, fuel) {
                Err(e) => {
                    return Err(e);
                },
                Ok(v) => v,
            };
            match cv {
                Value::Bool(test) => {
                    let v1 = match interp(&**lhs, env, st, ops, fuel) {
                        Err(e) => {
                            return Err(e);
                        },
                        Ok(v) => v,
                    };
                    let v2 = match interp(&**rhs, env, st, ops, fuel) {
                        Err(e) => {
                            return Err(e);
                        },
                        Ok(v) => v,
                    };
                    if !values_same_shape(&v1, &v2) {
                        Err(InterpError::BranchTypeMismatch)
                    } else if test {
                        Ok(v1)
                    } else {
                        Ok(v2)
                    }
                },
                _ => Err(InterpError::ConditionNotBoolean),
            }
        },
        Exp::Begin(es) => {
            proof {
                crate::ast::lemma_view_exps(es@);
            }
            if es.len() == 0 {
                Err(InterpError::IncompatibleTypes)
            } else {
                interp_begin(es, 0, env, st, ops, fuel)
            }
        },
        Exp::App { func, arg } => {
            if fuel == 0 {
                return Err(InterpError::RecursionLimit);
            }
            let fv = match interp(&**func, env, st, ops, fuel) {
                Err(e) => {
                    return Err(e);
                },
                Ok(v) => v,
            };
            let av = match interp(&**arg, env, st, ops, fuel) {
                Err(e) => {
                    return Err(e);
                },
                Ok(v) => v,
            };
            match fv {
                Value::Closure { symbol, body, env: cenv } => {
                    match &**arg {
                        Exp::Id(name) => if matches!(av, Value::BoxRef(_)) {
                            env.mark_moved(name);
                        },
                        _ => {},
                    }
                    let ghost avv = av@;
                    let release_of = match &av {
                        Value::ImmRef(_) => Some(av.clone()),
                        Value::MutRefVal(_) => Some(av.clone()),
                        _ => None,
                    };
                    let mut benv = cenv;
                    benv.push(symbol, av);
                    let r3 = interp(&*body, &mut benv, st, ops, fuel - 1);
                    match release_of {
                        Some(rv) => release_borrow(st, &rv),
                        None => {
                            proof {
                                assert(release_spec(st@.heap, avv) =~= st@.heap);
                                assert(st@ =~= StateView {
                                    heap: release_spec(st@.heap, avv),
                                    out: st@.out,
                                });
                            }
                        },
                    }
                    r3
                },
                _ => Err(InterpError::IncompatibleTypes),
            }
        },
        Exp::Ref(inner) => {
            let v = match interp(&**inner, env, st, ops, fuel) {
                Err(e) => {
                    return Err(e);
                },
                Ok(v) => v,
            };
            match v {
                Value::BoxRef(loc) => {
                    if loc < st.heap.len() {
                        match st.heap.state_at(loc) {
                            BorrowState::Exclusive => Err(InterpError::BorrowConflict),
                            BorrowState::SharedBy(n) => if n == u64::MAX {
                                Err(InterpError::BorrowConflict)
                            } else {
                                st.heap.set_state(loc, BorrowState::SharedBy(n + 1));
                                Ok(Value::ImmRef(loc))
                            },
                            BorrowState::Free => {
                                st.heap.set_state(loc, BorrowState::SharedBy(1));
                                Ok(Value::ImmRef(loc))
                            },
                        }
                    } else {
                        Err(InterpError::IncompatibleTypes)
                    }
                },
                Value::Moved => Err(InterpError::UseAfterMove),
                _ => Err(InterpError::IncompatibleTypes),
            }
        },
        Exp::MutRef(inner) => {
            let v = match interp(&**inner, env, st, ops, fuel) {
                Err(e) => {
                    return Err(e);
                },
                Ok(v) => v,
            };
            match v {
                Value::BoxRef(loc) => {
                    if loc < st.heap.len() {
                        match st.heap.state_at(loc) {
                            BorrowState::Free => {
                                st.heap.set_state(loc, BorrowState::Exclusive);
                                Ok(Value::MutRefVal(loc))
                            },
                            _ => Err(InterpError::BorrowConflict),
                        }
                    } else {
                        Err(InterpError::IncompatibleTypes)
                    }
                },
                Value::Moved => Err(InterpError::UseAfterMove),
                _ => Err(InterpError::IncompatibleTypes),
            }
        },
        Exp::Box(inner) => {
            let v = match interp(&**inner, env, st, ops, fuel) {
                Err(e) => {
                    return Err(e);
                },
                Ok(v) => v,
            };
            let loc = st.heap.allocate(v);
            Ok(Value::BoxRef(loc))
        },
        Exp::Unbox(inner) => {
            let v = match interp(&**inner, env, st, ops, fuel) {
                Err(e) => {
                    return Err(e);
                },
                Ok(v) => v,
            };
            match v {
                Value::BoxRef(loc) => {
                    if loc < st.heap.len() {
                        Ok(st.heap.value_at(loc))
                    } else {
                        Err(InterpError::IncompatibleTypes)
                    }
                },
                Value::Moved => Err(InterpError::UseAfterMove),
                _ => Err(InterpError::IncompatibleTypes),
            }
        },
        Exp::Deref(inner) => {
            let v = match interp(&**inner, env, st, ops, fuel) {
                Err(e) => {
                    return Err(e);
                },
                Ok(v) => v,
            };
            match v {
                Value::ImmRef(loc) => {
                    if loc < st.heap.len() {
                        Ok(st.heap.value_at(loc))
                    } else {
                        Err(InterpError::IncompatibleTypes)
                    }
                },
                Value::MutRefVal(loc) => {
                    if loc < st.heap.len() {
                        Ok(st.heap.value_at(loc))
                    } else {
                        Err(InterpError::IncompatibleTypes)
                    }
                },
                Value::Moved => Err(InterpError::UseAfterMove),
                _ => Err(InterpError::IncompatibleTypes),
            }
        },
        Exp::Assign { lhs, rhs } => {
            let v1 = match interp(&**lhs, env, st, ops, fuel) {
                Err(e) => {
                    return Err(e);
                },
                Ok(v) => v,
            };
            match v1 {
                Value::MutRefVal(loc) => {
                    let v2 = match interp(&**rhs, env, st, ops, fuel) {
                        Err(e) => {
                            return Err(e);
                        },
                        Ok(v) => v,
                    };
                    if loc < st.heap.len() {
                        let stored = v2.clone();
                        st.heap.set_value(loc, stored);
                        Ok(v2)
                    } else {
                        Err(InterpError::IncompatibleTypes)
                    }
                },
                Value::Moved => Err(InterpError::UseAfterMove),
                _ => Err(InterpError::IncompatibleTypes),
            }
        },
        Exp::Display(inner) => {
            let v = match interp(&**inner, env, st, ops, fuel) {
                Err(e) => {
                    return Err(e);
                },
                Ok(v) => v,
            };
            match v {
                Value::Int(_) | Value::Float(_) | Value::Bool(_) => {
                    st.emit(OutEvent::Display(v.clone()));
                    Ok(v)
                },
                _ => Err(InterpError::CantDisplay),
            }
        },
        Exp::Debug(inner) => {
            let v = match interp(&**inner, env, st, ops, fuel) {
                Err(e) => {
                    return Err(e);
                },
                Ok(v) => v,
            };
            st.emit(OutEvent::Debug(v.clone()));
            Ok(v)
        },
    }
}

/// Evaluates one binary-operator node: both operands, left before right,
/// then the operator.
fn interp_binop<F: FloatOps>(
    k: BinKind,
    exp: &Exp,
    lhs: &Exp,
    rhs: &Exp,
    env: &mut Env,
    st: &mut EvalState,
    ops: &F,
    fuel: u64,
) -> (r: Result<Value, InterpError>)
    requires
        binop_kind_view(exp@) matches Some((sk, sl, sr)) && sk == k && *sl == lhs@ && *sr == rhs@,
    ensures
        (match eval_binop_spec(fuel, exp@, old(env)@, old(st)@) {
            EvalOutcome::Exact(p) => interp_result_view(r) == p.res && final(env)@ == p.env
                && final(st)@ == p.st,
            EvalOutcome::FloatDependent => true,
        }),
        final(st)@.heap.len() >= old(st)@.heap.len(),
        heap_wf(old(st)@.heap) ==> heap_wf(final(st)@.heap),
    decreases fuel, exp@, 0int,
{
    let v1 = match interp(lhs, env, st, ops, fuel) {
        Err(e) => {
            return Err(e);
        },
        Ok(v) => v,
    };
    let v2 = match interp(rhs, env, st, ops, fuel) {
        Err(e) => {
            return Err(e);
        },
        Ok(v) => v,
    };
    apply_binop(k, v1, v2, ops)
}

/// Evaluates the elements of a `begin` from position `k` on.
fn interp_begin<F: FloatOps>(
    es: &Vec<Exp>,
    k: usize,
    env: &mut Env,
    st: &mut EvalState,
    ops: &F,
    fuel: u64,
) -> (r: Result<Value, InterpError>)
    requires
        k < es@.len(),
    ensures
        (match eval_begin_spec(fuel, crate::ast::view_exps(es@), k as int, old(env)@, old(st)@) {
            EvalOutcome::Exact(p) => interp_result_view(r) == p.res && final(env)@ == p.env
                && final(st)@ == p.st,
            EvalOutcome::FloatDependent => true,
        }),
        final(st)@.heap.len() >= old(st)@.heap.len(),
        heap_wf(old(st)@.heap) ==> heap_wf(final(st)@.heap),
    decreases fuel, crate::ast::view_exps(es@), es@.len() - k,
{
    proof {
        crate::ast::lemma_view_exps(es@);
        assert(crate::ast::view_exps(es@)[k as int] == es@[k as int]@);
    }
    let v = match interp(&es[k], env, st, ops, fuel) {
        Err(e) => {
            return Err(e);
        },
        Ok(v) => v,
    };
    if k == es.len() - 1 {
        Ok(v)
    } else {
        interp_begin(es, k + 1, env, st, ops, fuel)
    }
}

} // verus!
