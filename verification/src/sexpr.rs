//! The generic S-expression value that the abstract syntax tree is built
//! from: an atom (integer, float, or symbol) or a list of S-expressions.
//!
//! The tree can be built directly, or read from source text through
//! [`crate::parse::parse_text`], whose reading side is a thin trusted
//! boundary around the `sexp` reader. A
//! float atom carries the raw bit pattern of its 64-bit floating-point
//! value: the crate never computes with floats, it only carries them.

use vstd::prelude::*;

verus! {

/// A generic parenthesized-expression tree: the untyped surface syntax.
pub enum SExpr {
    /// An integer atom.
    Int(i64),
    /// A float atom, carried as the bit pattern of the 64-bit float.
    Float(u64),
    /// A symbol atom (an identifier, an operator name, or a keyword).
    Sym(String),
    /// A parenthesized list of S-expressions.
    List(Vec<SExpr>),
}

/// The mathematical shape of an [`SExpr`]: the same tree with symbols as
/// character sequences.
pub enum SExprView {
    Int(i64),
    Float(u64),
    Sym(Seq<char>),
    List(Seq<SExprView>),
}

impl View for SExpr {
    type V = SExprView;

    open spec fn view(&self) -> SExprView
        decreases self,
    {
        match self {
            SExpr::Int(i) => SExprView::Int(*i),
            SExpr::Float(bits) => SExprView::Float(*bits),
            SExpr::Sym(s) => SExprView::Sym(s@),
            SExpr::List(items) => SExprView::List(view_sexprs(items@)),
        }
    }
}

/// The views of a sequence of S-expressions, element by element.
pub open spec fn view_sexprs(items: Seq<SExpr>) -> Seq<SExprView>
    decreases items,
{
    if items.len() == 0 {
        Seq::empty()
    } else {
        view_sexprs(items.drop_last()).push(items.last()@)
    }
}

/// What the text reader yields for a piece of source text: an
/// S-expression tree computed from the characters alone, or `None` where
/// the reader rejects the text.
pub uninterp spec fn text_sexpr(s: Seq<char>) -> Option<SExpr>;

/// Relies on `sexp::parse`: reads one textual expression into a generic
/// S-expression tree. The result depends on the characters alone;
/// `None` exactly when the reader rejects the text.
#[verifier::external_body]
pub(crate) fn read_sexpr(input: &str) -> (r: Option<SExpr>)
    ensures
        r == text_sexpr(input@),
{
    match sexp::parse(input) {
        Ok(tree) => Some(to_sexpr(&tree)),
        Err(_) => None,
    }
}

/// The reader's tree type, opaque here: values of it only pass from
/// `sexp::parse` into [`read_sexpr`]'s conversion.
#[verifier::external_type_specification]
#[verifier::external_body]
pub struct ExSexp(sexp::Sexp);

/// Relies on the shape of `sexp::Sexp`: each reader node carried over,
/// variant by variant, a float atom as its bit pattern.
#[verifier::external_body]
fn to_sexpr(s: &sexp::Sexp) -> SExpr {
    match s {
        sexp::Sexp::Atom(sexp::Atom::I(i)) => SExpr::Int(*i),
        sexp::Sexp::Atom(sexp::Atom::F(f)) => SExpr::Float(f.to_bits()),
        sexp::Sexp::Atom(sexp::Atom::S(sym)) => SExpr::Sym(sym.clone()),
        sexp::Sexp::List(items) => SExpr::List(items.iter().map(to_sexpr).collect()),
    }
}

/// `view_sexprs` is the element-wise view of its argument.
pub proof fn lemma_view_sexprs(items: Seq<SExpr>)
    ensures
        view_sexprs(items).len() == items.len(),
        forall|i: int| 0 <= i < items.len() ==> view_sexprs(items)[i] == #[trigger] items[i]@,
    decreases items,
{
    assert(items.len() == 0 ==> view_sexprs(items).len() == 0);
    if items.len() > 0 {
        assert(view_sexprs(items) == view_sexprs(items.drop_last()).push(items.last()@));
        lemma_view_sexprs(items.drop_last());
        assert forall|i: int| 0 <= i < items.len() implies view_sexprs(items)[i]
            == #[trigger] items[i]@ by {
            if i < items.len() - 1 {
                assert(items.drop_last()[i] == items[i]);
            } else {
                assert(items.last() == items[i]);
            }
        }
    }
}

} // verus!
