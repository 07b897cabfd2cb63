//! The abstract syntax tree of the expression language: a fixed-shape,
//! strongly-typed tree of 25 node kinds, built once by the parser and never
//! mutated afterwards.
//!
//! Every node owns its children outright; the tree has no sharing and no
//! cycles. `ExpView` is the mathematical shape of a tree: the same
//! constructors with identifiers as character sequences, used by every
//! contract in the crate.

use vstd::prelude::*;

verus! {

/// One node of the expression tree.
///
/// A `Float` carries the bit pattern of its 64-bit floating-point literal;
/// the crate stores and moves such bits but never computes with them (see
/// [`crate::interp::FloatOps`]).
#[derive(Debug)]
pub enum Exp {
    /// Integer literal.
    Int(i64),
    /// Float literal, as the bit pattern of the 64-bit float.
    Float(u64),
    /// Symbolic identifier, resolved in the environment at evaluation time.
    Id(String),
    /// Addition; both operands must evaluate to numbers of the same kind.
    Add { lhs: Box<Exp>, rhs: Box<Exp> },
    /// Subtraction.
    Sub { lhs: Box<Exp>, rhs: Box<Exp> },
    /// Multiplication.
    Mult { lhs: Box<Exp>, rhs: Box<Exp> },
    /// Division; fails on a zero right operand.
    Div { lhs: Box<Exp>, rhs: Box<Exp> },
    /// Single-parameter function literal; evaluates to a closure.
    Lambda { symbol: String, body: Box<Exp> },
    /// Application of a function to exactly one argument.
    App { func: Box<Exp>, arg: Box<Exp> },
    /// Conditional; `cond` must evaluate to a boolean, and both branches
    /// must evaluate to values of the same shape.
    If { cond: Box<Exp>, lhs: Box<Exp>, rhs: Box<Exp> },
    /// Integer equality; defined only over two integers.
    Eq { lhs: Box<Exp>, rhs: Box<Exp> },
    /// Greater-than comparison.
    Gt { lhs: Box<Exp>, rhs: Box<Exp> },
    /// Greater-or-equal comparison.
    Ge { lhs: Box<Exp>, rhs: Box<Exp> },
    /// Less-than comparison.
    Lt { lhs: Box<Exp>, rhs: Box<Exp> },
    /// Less-or-equal comparison.
    Le { lhs: Box<Exp>, rhs: Box<Exp> },
    /// Sequence of expressions evaluated in order; yields the last value.
    Begin(Vec<Exp>),
    /// Boolean literal.
    Bool(bool),
    /// Immutable borrow of a boxed value.
    Ref(Box<Exp>),
    /// Exclusive mutable borrow of a boxed value.
    MutRef(Box<Exp>),
    /// Heap allocation: evaluates the inner expression and boxes the value.
    Box(Box<Exp>),
    /// Read the value held by a box.
    Unbox(Box<Exp>),
    /// Read the value behind an immutable or mutable reference.
    Deref(Box<Exp>),
    /// Overwrite the value behind a mutable reference; rendered as `Set`.
    Assign { lhs: Box<Exp>, rhs: Box<Exp> },
    /// Write the human-readable form of a number or boolean to the output.
    Display(Box<Exp>),
    /// Write the structural form of any value to the output.
    Debug(Box<Exp>),
}

/// The mathematical shape of an [`Exp`]: the same tree with identifiers as
/// character sequences. All contracts speak of this type.
#[verifier::ext_equal]
pub enum ExpView {
    Int(i64),
    Float(u64),
    Id(Seq<char>),
    Add { lhs: Box<ExpView>, rhs: Box<ExpView> },
    Sub { lhs: Box<ExpView>, rhs: Box<ExpView> },
    Mult { lhs: Box<ExpView>, rhs: Box<ExpView> },
    Div { lhs: Box<ExpView>, rhs: Box<ExpView> },
    Lambda { symbol: Seq<char>, body: Box<ExpView> },
    App { func: Box<ExpView>, arg: Box<ExpView> },
    If { cond: Box<ExpView>, lhs: Box<ExpView>, rhs: Box<ExpView> },
    Eq { lhs: Box<ExpView>, rhs: Box<ExpView> },
    Gt { lhs: Box<ExpView>, rhs: Box<ExpView> },
    Ge { lhs: Box<ExpView>, rhs: Box<ExpView> },
    Lt { lhs: Box<ExpView>, rhs: Box<ExpView> },
    Le { lhs: Box<ExpView>, rhs: Box<ExpView> },
    Begin(Seq<ExpView>),
    Bool(bool),
    Ref(Box<ExpView>),
    MutRef(Box<ExpView>),
    Box(Box<ExpView>),
    Unbox(Box<ExpView>),
    Deref(Box<ExpView>),
    Assign { lhs: Box<ExpView>, rhs: Box<ExpView> },
    Display(Box<ExpView>),
    Debug(Box<ExpView>),
}

impl View for Exp {
    type V = ExpView;

    open spec fn view(&self) -> ExpView
        decreases self,
    {
        match self {
            Exp::Int(i) => ExpView::Int(*i),
            Exp::Float(bits) => ExpView::Float(*bits),
            Exp::Id(s) => ExpView::Id(s@),
            Exp::Add { lhs, rhs } => ExpView::Add { lhs: Box::new((**lhs)@), rhs: Box::new((**rhs)@) },
            Exp::Sub { lhs, rhs } => ExpView::Sub { lhs: Box::new((**lhs)@), rhs: Box::new((**rhs)@) },
            Exp::Mult { lhs, rhs } => ExpView::Mult { lhs: Box::new((**lhs)@), rhs: Box::new((**rhs)@) },
            Exp::Div { lhs, rhs } => ExpView::Div { lhs: Box::new((**lhs)@), rhs: Box::new((**rhs)@) },
            Exp::Lambda { symbol, body } => ExpView::Lambda {
                symbol: symbol@,
                body: Box::new((**body)@),
            },
            Exp::App { func, arg } => ExpView::App { func: Box::new((**func)@), arg: Box::new((**arg)@) },
            Exp::If { cond, lhs, rhs } => ExpView::If {
                cond: Box::new((**cond)@),
                lhs: Box::new((**lhs)@),
                rhs: Box::new((**rhs)@),
            },
            Exp::Eq { lhs, rhs } => ExpView::Eq { lhs: Box::new((**lhs)@), rhs: Box::new((**rhs)@) },
            Exp::Gt { lhs, rhs } => ExpView::Gt { lhs: Box::new((**lhs)@), rhs: Box::new((**rhs)@) },
            Exp::Ge { lhs, rhs } => ExpView::Ge { lhs: Box::new((**lhs)@), rhs: Box::new((**rhs)@) },
            Exp::Lt { lhs, rhs } => ExpView::Lt { lhs: Box::new((**lhs)@), rhs: Box::new((**rhs)@) },
            Exp::Le { lhs, rhs } => ExpView::Le { lhs: Box::new((**lhs)@), rhs: Box::new((**rhs)@) },
            Exp::Begin(es) => ExpView::Begin(view_exps(es@)),
            Exp::Bool(b) => ExpView::Bool(*b),
            Exp::Ref(e) => ExpView::Ref(Box::new((**e)@)),
            Exp::MutRef(e) => ExpView::MutRef(Box::new((**e)@)),
            Exp::Box(e) => ExpView::Box(Box::new((**e)@)),
            Exp::Unbox(e) => ExpView::Unbox(Box::new((**e)@)),
            Exp::Deref(e) => ExpView::Deref(Box::new((**e)@)),
            Exp::Assign { lhs, rhs } => ExpView::Assign { lhs: Box::new((**lhs)@), rhs: Box::new((**rhs)@) },
            Exp::Display(e) => ExpView::Display(Box::new((**e)@)),
            Exp::Debug(e) => ExpView::Debug(Box::new((**e)@)),
        }
    }
}

/// The views of a sequence of expressions, element by element.
pub open spec fn view_exps(es: Seq<Exp>) -> Seq<ExpView>
    decreases es,
{
    if es.len() == 0 {
        Seq::empty()
    } else {
        view_exps(es.drop_last()).push(es.last()@)
    }
}

/// `view_exps` is the element-wise view of its argument.
pub proof fn lemma_view_exps(es: Seq<Exp>)
    ensures
        view_exps(es).len() == es.len(),
        forall|i: int| 0 <= i < es.len() ==> view_exps(es)[i] == #[trigger] es[i]@,
    decreases es,
{
    assert(es.len() == 0 ==> view_exps(es).len() == 0);
    if es.len() > 0 {
        assert(view_exps(es) == view_exps(es.drop_last()).push(es.last()@));
        lemma_view_exps(es.drop_last());
        assert forall|i: int| 0 <= i < es.len() implies view_exps(es)[i] == #[trigger] es[i]@ by {
            if i < es.len() - 1 {
                assert(es.drop_last()[i] == es[i]);
            } else {
                assert(es.last() == es[i]);
            }
        }
    }
}

impl Clone for Exp {
    /// A deep copy with the same view.
    fn clone(&self) -> (r: Exp)
        ensures
            r@ == self@,
        decreases self,
    {
        match self {
            Exp::Int(i) => Exp::Int(*i),
            Exp::Float(bits) => Exp::Float(*bits),
            Exp::Id(s) => Exp::Id(s.clone()),
            Exp::Add { lhs, rhs } => Exp::Add {
                lhs: Box::new((**lhs).clone()),
                rhs: Box::new((**rhs).clone()),
            },
            Exp::Sub { lhs, rhs } => Exp::Sub {
                lhs: Box::new((**lhs).clone()),
                rhs: Box::new((**rhs).clone()),
            },
            Exp::Mult { lhs, rhs } => Exp::Mult {
                lhs: Box::new((**lhs).clone()),
                rhs: Box::new((**rhs).clone()),
            },
            Exp::Div { lhs, rhs } => Exp::Div {
                lhs: Box::new((**lhs).clone()),
                rhs: Box::new((**rhs).clone()),
            },
            Exp::Lambda { symbol, body } => Exp::Lambda {
                symbol: symbol.clone(),
                body: Box::new((**body).clone()),
            },
            Exp::App { func, arg } => Exp::App {
                func: Box::new((**func).clone()),
                arg: Box::new((**arg).clone()),
            },
            Exp::If { cond, lhs, rhs } => Exp::If {
                cond: Box::new((**cond).clone()),
                lhs: Box::new((**lhs).clone()),
                rhs: Box::new((**rhs).clone()),
            },
            Exp::Eq { lhs, rhs } => Exp::Eq {
                lhs: Box::new((**lhs).clone()),
                rhs: Box::new((**rhs).clone()),
            },
            Exp::Gt { lhs, rhs } => Exp::Gt {
                lhs: Box::new((**lhs).clone()),
                rhs: Box::new((**rhs).clone()),
            },
            Exp::Ge { lhs, rhs } => Exp::Ge {
                lhs: Box::new((**lhs).clone()),
                rhs: Box::new((**rhs).clone()),
            },
            Exp::Lt { lhs, rhs } => Exp::Lt {
                lhs: Box::new((**lhs).clone()),
                rhs: Box::new((**rhs).clone()),
            },
            Exp::Le { lhs, rhs } => Exp::Le {
                lhs: Box::new((**lhs).clone()),
                rhs: Box::new((**rhs).clone()),
            },
            Exp::Begin(es) => {
                let copies = clone_exps(es);
                proof {
                    lemma_view_exps(es@);
                    lemma_view_exps(copies@);
                    assert forall|i: int| 0 <= i < copies@.len() implies view_exps(copies@)[i]
                        == view_exps(es@)[i] by {
                        assert(copies@[i]@ == es@[i]@);
                    }
                    assert(view_exps(copies@) =~= view_exps(es@));
                }
                Exp::Begin(copies)
            },
            Exp::Bool(b) => Exp::Bool(*b),
            Exp::Ref(e) => Exp::Ref(Box::new((**e).clone())),
            Exp::MutRef(e) => Exp::MutRef(Box::new((**e).clone())),
            Exp::Box(e) => Exp::Box(Box::new((**e).clone())),
            Exp::Unbox(e) => Exp::Unbox(Box::new((**e).clone())),
            Exp::Deref(e) => Exp::Deref(Box::new((**e).clone())),
            Exp::Assign { lhs, rhs } => Exp::Assign {
                lhs: Box::new((**lhs).clone()),
                rhs: Box::new((**rhs).clone()),
            },
            Exp::Display(e) => Exp::Display(Box::new((**e).clone())),
            Exp::Debug(e) => Exp::Debug(Box::new((**e).clone())),
        }
    }
}

/// Deep copies of a vector of expressions, element by element.
fn clone_exps(es: &Vec<Exp>) -> (r: Vec<Exp>)
    ensures
        r@.len() == es@.len(),
        forall|i: int| 0 <= i < es@.len() ==> r@[i]@ == #[trigger] es@[i]@,
    decreases es@,
{
    let mut out: Vec<Exp> = Vec::new();
    let mut i: usize = 0;
    while i < es.len()
        invariant
            i <= es@.len(),
            out@.len() == i,
            forall|j: int| 0 <= j < i ==> out@[j]@ == #[trigger] es@[j]@,
        decreases es@.len() - i,
    {
        out.push(es[i].clone());
        i = i + 1;
    }
    out
}

impl PartialEq for Exp {
    /// Structural equality: two trees are equal exactly when their views are.
    fn eq(&self, other: &Exp) -> (r: bool)
        decreases self,
    {
        match (self, other) {
            (Exp::Int(a), Exp::Int(b)) => a == b,
            (Exp::Float(a), Exp::Float(b)) => a == b,
            (Exp::Id(a), Exp::Id(b)) => *a == *b,
            (Exp::Add { lhs: a1, rhs: a2 }, Exp::Add { lhs: b1, rhs: b2 }) => (**a1).eq(&**b1) && (**a2).eq(&**b2),
            (Exp::Sub { lhs: a1, rhs: a2 }, Exp::Sub { lhs: b1, rhs: b2 }) => (**a1).eq(&**b1) && (**a2).eq(&**b2),
            (Exp::Mult { lhs: a1, rhs: a2 }, Exp::Mult { lhs: b1, rhs: b2 }) => (**a1).eq(&**b1) && (**a2).eq(&**b2),
            (Exp::Div { lhs: a1, rhs: a2 }, Exp::Div { lhs: b1, rhs: b2 }) => (**a1).eq(&**b1) && (**a2).eq(&**b2),
            (
                Exp::Lambda { symbol: s1, body: e1 },
                Exp::Lambda { symbol: s2, body: e2 },
            ) => *s1 == *s2 && (**e1).eq(&**e2),
            (Exp::App { func: a1, arg: a2 }, Exp::App { func: b1, arg: b2 }) => (**a1).eq(&**b1) && (**a2).eq(&**b2),
            (
                Exp::If { cond: c1, lhs: a1, rhs: a2 },
                Exp::If { cond: c2, lhs: b1, rhs: b2 },
            ) => (**c1).eq(&**c2) && (**a1).eq(&**b1) && (**a2).eq(&**b2),
            (Exp::Eq { lhs: a1, rhs: a2 }, Exp::Eq { lhs: b1, rhs: b2 }) => (**a1).eq(&**b1) && (**a2).eq(&**b2),
            (Exp::Gt { lhs: a1, rhs: a2 }, Exp::Gt { lhs: b1, rhs: b2 }) => (**a1).eq(&**b1) && (**a2).eq(&**b2),
            (Exp::Ge { lhs: a1, rhs: a2 }, Exp::Ge { lhs: b1, rhs: b2 }) => (**a1).eq(&**b1) && (**a2).eq(&**b2),
            (Exp::Lt { lhs: a1, rhs: a2 }, Exp::Lt { lhs: b1, rhs: b2 }) => (**a1).eq(&**b1) && (**a2).eq(&**b2),
            (Exp::Le { lhs: a1, rhs: a2 }, Exp::Le { lhs: b1, rhs: b2 }) => (**a1).eq(&**b1) && (**a2).eq(&**b2),
            (Exp::Begin(es1), Exp::Begin(es2)) => {
                let r = exps_eq(es1, es2);
                proof {
                    lemma_view_exps(es1@);
                    lemma_view_exps(es2@);
                    if r {
                        assert forall|i: int| 0 <= i < es1@.len() implies view_exps(es1@)[i]
                            == view_exps(es2@)[i] by {
                            assert(es1@[i]@ == es2@[i]@);
                        }
                        assert(view_exps(es1@) =~= view_exps(es2@));
                    } else {
                        if es1@.len() == es2@.len() {
                            let k = choose|k: int|
                                0 <= k < es1@.len() && es1@[k]@ != es2@[k]@;
                            assert(view_exps(es1@)[k] != view_exps(es2@)[k]);
                        }
                    }
                }
                r
            },
            (Exp::Bool(a), Exp::Bool(b)) => a == b,
            (Exp::Ref(e1), Exp::Ref(e2)) => (**e1).eq(&**e2),
            (Exp::MutRef(e1), Exp::MutRef(e2)) => (**e1).eq(&**e2),
            (Exp::Box(e1), Exp::Box(e2)) => (**e1).eq(&**e2),
            (Exp::Unbox(e1), Exp::Unbox(e2)) => (**e1).eq(&**e2),
            (Exp::Deref(e1), Exp::Deref(e2)) => (**e1).eq(&**e2),
            (Exp::Assign { lhs: a1, rhs: a2 }, Exp::Assign { lhs: b1, rhs: b2 }) => (**a1).eq(&**b1) && (**a2).eq(&**b2),
            (Exp::Display(e1), Exp::Display(e2)) => (**e1).eq(&**e2),
            (Exp::Debug(e1), Exp::Debug(e2)) => (**e1).eq(&**e2),
            _ => false,
        }
    }
}

impl vstd::std_specs::cmp::PartialEqSpecImpl for Exp {
    open spec fn obeys_eq_spec() -> bool {
        true
    }

    open spec fn eq_spec(&self, other: &Exp) -> bool {
        self@ == other@
    }
}

/// Element-wise equality of two expression vectors.
fn exps_eq(a: &Vec<Exp>, b: &Vec<Exp>) -> (r: bool)
    ensures
        r == (a@.len() == b@.len() && forall|i: int|
            0 <= i < a@.len() ==> a@[i]@ == #[trigger] b@[i]@),
    decreases a@,
{
    if a.len() != b.len() {
        return false;
    }
    let mut i: usize = 0;
    while i < a.len()
        invariant
            a@.len() == b@.len(),
            i <= a@.len(),
            forall|j: int| 0 <= j < i ==> a@[j]@ == #[trigger] b@[j]@,
        decreases a@.len() - i,
    {
        if !a[i].eq(&b[i]) {
            assert(a@[i as int]@ != b@[i as int]@);
            return false;
        }
        i = i + 1;
    }
    true
}

} // verus!
