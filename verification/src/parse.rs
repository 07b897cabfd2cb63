//! The AST builder: turns a generic S-expression tree into a fixed-shape
//! [`Exp`] tree.
//!
//! Dispatch over a list is driven by its first element: a literal operator
//! symbol selects the node kind and fixes the arity; any other two-element
//! list is a function application. The `let` form is sugar:
//! `(let ((x v)) body)` becomes the application of `(lambda x body)` to `v`.
//! The whole builder is a pure function; [`parse_spec`] is its mathematical
//! statement, and [`parse`] is proved to compute exactly that.

use vstd::prelude::*;

use crate::ast::{lemma_view_exps, view_exps, Exp, ExpView};
use crate::sexpr::{lemma_view_sexprs, view_sexprs, SExpr, SExprView};

verus! {

/// Why the AST builder rejected its input.
#[derive(Clone, Copy, PartialEq, Eq, Structural, Debug)]
pub enum ParseError {
    /// Reserved for language forms the builder does not support; the
    /// finished builder never produces it.
    NotImplemented,
    /// An empty list, an unknown operator, or an operator used at the
    /// wrong arity.
    SyntaxError,
    /// A `let` whose binding list is not a single `(symbol value)` pair.
    MalformedAssignment,
    /// The reader that turns source text into an S-expression failed;
    /// produced by callers that run such a reader, never by the builder.
    ReaderError,
}

/// The result of the builder, at the level of views.
pub open spec fn parse_result_view(r: Result<Exp, ParseError>) -> Result<ExpView, ParseError> {
    match r {
        Ok(e) => Ok(e@),
        Err(p) => Err(p),
    }
}

/// What the builder returns for any S-expression: the mathematical
/// statement of the whole surface syntax.
pub open spec fn parse_spec(s: SExprView) -> Result<ExpView, ParseError>
    decreases s, 0int,
{
    match s {
        SExprView::Int(i) => Ok(ExpView::Int(i)),
        SExprView::Float(bits) => Ok(ExpView::Float(bits)),
        SExprView::Sym(name) => if name == "true"@ {
            Ok(ExpView::Bool(true))
        } else if name == "false"@ {
            Ok(ExpView::Bool(false))
        } else {
            Ok(ExpView::Id(name))
        },
        SExprView::List(items) => parse_list_spec(items),
    }
}

/// Two parsed operands combined by one binary constructor.
pub open spec fn binop_view(
    op: Seq<char>,
    lhs: ExpView,
    rhs: ExpView,
) -> ExpView {
    if op == "+"@ {
        ExpView::Add { lhs: Box::new(lhs), rhs: Box::new(rhs) }
    } else if op == "-"@ {
        ExpView::Sub { lhs: Box::new(lhs), rhs: Box::new(rhs) }
    } else if op == "*"@ {
        ExpView::Mult { lhs: Box::new(lhs), rhs: Box::new(rhs) }
    } else if op == "/"@ {
        ExpView::Div { lhs: Box::new(lhs), rhs: Box::new(rhs) }
    } else if op == "="@ {
        ExpView::Eq { lhs: Box::new(lhs), rhs: Box::new(rhs) }
    } else if op == "<"@ {
        ExpView::Lt { lhs: Box::new(lhs), rhs: Box::new(rhs) }
    } else if op == ">"@ {
        ExpView::Gt { lhs: Box::new(lhs), rhs: Box::new(rhs) }
    } else if op == "<="@ {
        ExpView::Le { lhs: Box::new(lhs), rhs: Box::new(rhs) }
    } else {
        ExpView::Ge { lhs: Box::new(lhs), rhs: Box::new(rhs) }
    }
}

/// Whether `op` names one of the nine binary operators.
pub open spec fn is_binop_sym(op: Seq<char>) -> bool {
    op == "+"@ || op == "-"@ || op == "*"@ || op == "/"@ || op == "="@ || op == "<"@ || op
        == ">"@ || op == "<="@ || op == ">="@
}

/// Whether `op` names one of the seven unary forms.
pub open spec fn is_unary_sym(op: Seq<char>) -> bool {
    op == "ref"@ || op == "mut-ref"@ || op == "box"@ || op == "unbox"@ || op == "deref"@ || op
        == "display"@ || op == "debug"@
}

/// One parsed operand under the unary constructor `op` names.
pub open spec fn unary_view(op: Seq<char>, inner: ExpView) -> ExpView {
    if op == "ref"@ {
        ExpView::Ref(Box::new(inner))
    } else if op == "mut-ref"@ {
        ExpView::MutRef(Box::new(inner))
    } else if op == "box"@ {
        ExpView::Box(Box::new(inner))
    } else if op == "unbox"@ {
        ExpView::Unbox(Box::new(inner))
    } else if op == "deref"@ {
        ExpView::Deref(Box::new(inner))
    } else if op == "display"@ {
        ExpView::Display(Box::new(inner))
    } else {
        ExpView::Debug(Box::new(inner))
    }
}

/// What the builder returns for a parenthesized list.
pub open spec fn parse_list_spec(items: Seq<SExprView>) -> Result<ExpView, ParseError>
    decreases items, items.len() + 2,
{
    if items.len() == 0 {
        Err(ParseError::SyntaxError)
    } else {
        match items[0] {
            SExprView::Sym(op) => if is_binop_sym(op) {
                if items.len() == 3 {
                    match (parse_spec(items[1]), parse_spec(items[2])) {
                        (Ok(lhs), Ok(rhs)) => Ok(binop_view(op, lhs, rhs)),
                        (Err(p), _) => Err(p),
                        (_, Err(p)) => Err(p),
                    }
                } else {
                    Err(ParseError::SyntaxError)
                }
            } else if is_unary_sym(op) {
                if items.len() == 2 {
                    match parse_spec(items[1]) {
                        Ok(inner) => Ok(unary_view(op, inner)),
                        Err(p) => Err(p),
                    }
                } else {
                    Err(ParseError::SyntaxError)
                }
            } else if op == "set"@ {
                if items.len() == 3 {
                    match (parse_spec(items[1]), parse_spec(items[2])) {
                        (Ok(lhs), Ok(rhs)) => Ok(
                            ExpView::Assign { lhs: Box::new(lhs), rhs: Box::new(rhs) },
                        ),
                        (Err(p), _) => Err(p),
                        (_, Err(p)) => Err(p),
                    }
                } else {
                    Err(ParseError::SyntaxError)
                }
            } else if op == "if"@ {
                if items.len() == 4 {
                    match (parse_spec(items[1]), parse_spec(items[2]), parse_spec(items[3])) {
                        (Ok(cond), Ok(lhs), Ok(rhs)) => Ok(
                            ExpView::If {
                                cond: Box::new(cond),
                                lhs: Box::new(lhs),
                                rhs: Box::new(rhs),
                            },
                        ),
                        (Err(p), _, _) => Err(p),
                        (_, Err(p), _) => Err(p),
                        (_, _, Err(p)) => Err(p),
                    }
                } else {
                    Err(ParseError::SyntaxError)
                }
            } else if op == "lambda"@ {
                if items.len() == 3 {
                    match items[1] {
                        SExprView::Sym(x) => match parse_spec(items[2]) {
                            Ok(body) => Ok(ExpView::Lambda { symbol: x, body: Box::new(body) }),
                            Err(p) => Err(p),
                        },
                        _ => Err(ParseError::SyntaxError),
                    }
                } else {
                    Err(ParseError::SyntaxError)
                }
            } else if op == "let"@ {
                if items.len() == 3 {
                    parse_let_spec(items)
                } else {
                    Err(ParseError::SyntaxError)
                }
            } else if op == "begin"@ {
                match parse_items_from(items, 1) {
                    Ok(es) => Ok(ExpView::Begin(es)),
                    Err(p) => Err(p),
                }
            } else {
                parse_app_spec(items)
            },
            _ => parse_app_spec(items),
        }
    }
}


/// A two-element list that is not operator-led: a function application.
pub open spec fn parse_app_spec(items: Seq<SExprView>) -> Result<ExpView, ParseError>
    decreases items, 1int,
{
    if items.len() == 2 {
        match (parse_spec(items[0]), parse_spec(items[1])) {
            (Ok(func), Ok(arg)) => Ok(ExpView::App { func: Box::new(func), arg: Box::new(arg) }),
            (Err(p), _) => Err(p),
            (_, Err(p)) => Err(p),
        }
    } else {
        Err(ParseError::SyntaxError)
    }
}

/// The desugaring of `let`: `(let ((x v)) body)` becomes
/// `App { Lambda { x, body }, v }`; any other binding shape is a
/// malformed assignment. The bound value is parsed before the body,
/// matching source order.
pub open spec fn parse_let_spec(items: Seq<SExprView>) -> Result<ExpView, ParseError>
    decreases items, 0int,
{
    if items.len() != 3 {
        Err(ParseError::SyntaxError)
    } else {
    match items[1] {
        SExprView::List(bs) => if bs.len() == 1 {
            match bs[0] {
                SExprView::List(pair) => if pair.len() == 2 {
                    match pair[0] {
                        SExprView::Sym(x) => match (parse_spec(pair[1]), parse_spec(items[2])) {
                            (Ok(v), Ok(b)) => Ok(
                                ExpView::App {
                                    func: Box::new(
                                        ExpView::Lambda { symbol: x, body: Box::new(b) },
                                    ),
                                    arg: Box::new(v),
                                },
                            ),
                            (Err(p), _) => Err(p),
                            (_, Err(p)) => Err(p),
                        },
                        _ => Err(ParseError::MalformedAssignment),
                    }
                } else {
                    Err(ParseError::MalformedAssignment)
                },
                _ => Err(ParseError::MalformedAssignment),
            }
        } else {
            Err(ParseError::MalformedAssignment)
        },
        _ => Err(ParseError::MalformedAssignment),
    }
    }
}

/// The elements of `items` from position `k` on, each parsed, with the
/// leftmost failure winning.
pub open spec fn parse_items_from(items: Seq<SExprView>, k: int) -> Result<
    Seq<ExpView>,
    ParseError,
>
    decreases items, items.len() - k,
{
    if k < 0 || k >= items.len() {
        Ok(Seq::empty())
    } else {
        match parse_spec(items[k]) {
            Err(p) => Err(p),
            Ok(e) => match parse_items_from(items, k + 1) {
                Err(p) => Err(p),
                Ok(rest) => Ok(seq![e] + rest),
            },
        }
    }
}

/// Builds the expression tree for one piece of source text: the reader
/// turns the text into an S-expression, and the builder turns that into
/// the tree. A text the reader rejects is a reader error; past the
/// reader, the result is exactly [`parse_spec`] of the S-expression.
pub fn parse_text(input: &str) -> (r: Result<Exp, ParseError>)
    ensures
        (match crate::sexpr::text_sexpr(input@) {
            Some(sv) => parse_result_view(r) == parse_spec(sv@),
            None => r == Err::<Exp, _>(ParseError::ReaderError),
        }),
{
    match crate::sexpr::read_sexpr(input) {
        Some(sv) => parse(&sv),
        None => Err(ParseError::ReaderError),
    }
}

/// Whether a symbol equals the given literal.
fn sym_is(s: &String, lit: &str) -> (r: bool)
    ensures
        r == (s@ == lit@),
{
    let o: String = lit.to_owned();
    *s == o
}

/// Whether a symbol names one of the nine binary operators.
fn is_binop(op: &String) -> (r: bool)
    ensures
        r == is_binop_sym(op@),
{
    sym_is(op, "+") || sym_is(op, "-") || sym_is(op, "*") || sym_is(op, "/") || sym_is(op, "=")
        || sym_is(op, "<") || sym_is(op, ">") || sym_is(op, "<=") || sym_is(op, ">=")
}

/// Whether a symbol names one of the seven unary forms.
fn is_unary(op: &String) -> (r: bool)
    ensures
        r == is_unary_sym(op@),
{
    sym_is(op, "ref") || sym_is(op, "mut-ref") || sym_is(op, "box") || sym_is(op, "unbox")
        || sym_is(op, "deref") || sym_is(op, "display") || sym_is(op, "debug")
}

/// The node for one binary operator applied to two parsed operands.
fn make_binop(op: &String, lhs: Exp, rhs: Exp) -> (r: Exp)
    requires
        is_binop_sym(op@),
    ensures
        r@ == binop_view(op@, lhs@, rhs@),
{
    let l = Box::new(lhs);
    let r = Box::new(rhs);
    if sym_is(op, "+") {
        Exp::Add { lhs: l, rhs: r }
    } else if sym_is(op, "-") {
        Exp::Sub { lhs: l, rhs: r }
    } else if sym_is(op, "*") {
        Exp::Mult { lhs: l, rhs: r }
    } else if sym_is(op, "/") {
        Exp::Div { lhs: l, rhs: r }
    } else if sym_is(op, "=") {
        Exp::Eq { lhs: l, rhs: r }
    } else if sym_is(op, "<") {
        Exp::Lt { lhs: l, rhs: r }
    } else if sym_is(op, ">") {
        Exp::Gt { lhs: l, rhs: r }
    } else if sym_is(op, "<=") {
        Exp::Le { lhs: l, rhs: r }
    } else {
        Exp::Ge { lhs: l, rhs: r }
    }
}

/// The node for one unary form applied to a parsed operand.
fn make_unary(op: &String, inner: Exp) -> (r: Exp)
    requires
        is_unary_sym(op@),
    ensures
        r@ == unary_view(op@, inner@),
{
    let b = Box::new(inner);
    if sym_is(op, "ref") {
        Exp::Ref(b)
    } else if sym_is(op, "mut-ref") {
        Exp::MutRef(b)
    } else if sym_is(op, "box") {
        Exp::Box(b)
    } else if sym_is(op, "unbox") {
        Exp::Unbox(b)
    } else if sym_is(op, "deref") {
        Exp::Deref(b)
    } else if sym_is(op, "display") {
        Exp::Display(b)
    } else {
        Exp::Debug(b)
    }
}

/// Builds the expression tree for one S-expression, or reports exactly why
/// it cannot: the executable form of [`parse_spec`].
pub fn parse(s: &SExpr) -> (r: Result<Exp, ParseError>)
    ensures
        parse_result_view(r) == parse_spec(s@),
    decreases s, 0int,
{
    match s {
        SExpr::Int(i) => Ok(Exp::Int(*i)),
        SExpr::Float(bits) => Ok(Exp::Float(*bits)),
        SExpr::Sym(name) => if sym_is(name, "true") {
            Ok(Exp::Bool(true))
        } else if sym_is(name, "false") {
            Ok(Exp::Bool(false))
        } else {
            Ok(Exp::Id(name.clone()))
        },
        SExpr::List(items) => parse_list(items),
    }
}

/// Builds the node for a parenthesized list.
fn parse_list(items: &Vec<SExpr>) -> (r: Result<Exp, ParseError>)
    ensures
        parse_result_view(r) == parse_list_spec(view_sexprs(items@)),
    decreases items@, items@.len() + 2,
{
    let ghost iv = view_sexprs(items@);
    proof {
        lemma_view_sexprs(items@);
    }
    if items.len() == 0 {
        return Err(ParseError::SyntaxError);
    }
    match &items[0] {
        SExpr::Sym(op) => {
            proof {
                assert(iv[0] == items@[0]@);
            }
            if is_binop(op) {
                if items.len() == 3 {
                    match parse(&items[1]) {
                        Err(p) => Err(p),
                        Ok(lhs) => match parse(&items[2]) {
                            Err(p) => Err(p),
                            Ok(rhs) => Ok(make_binop(op, lhs, rhs)),
                        },
                    }
                } else {
                    Err(ParseError::SyntaxError)
                }
            } else if is_unary(op) {
                if items.len() == 2 {
                    match parse(&items[1]) {
                        Err(p) => Err(p),
                        Ok(inner) => Ok(make_unary(op, inner)),
                    }
                } else {
                    Err(ParseError::SyntaxError)
                }
            } else if sym_is(op, "set") {
                if items.len() == 3 {
                    match parse(&items[1]) {
                        Err(p) => Err(p),
                        Ok(lhs) => match parse(&items[2]) {
                            Err(p) => Err(p),
                            Ok(rhs) => Ok(
                                Exp::Assign { lhs: Box::new(lhs), rhs: Box::new(rhs) },
                            ),
                        },
                    }
                } else {
                    Err(ParseError::SyntaxError)
                }
            } else if sym_is(op, "if") {
                if items.len() == 4 {
                    match parse(&items[1]) {
                        Err(p) => Err(p),
                        Ok(cond) => match parse(&items[2]) {
                            Err(p) => Err(p),
                            Ok(lhs) => match parse(&items[3]) {
                                Err(p) => Err(p),
                                Ok(rhs) => Ok(
                                    Exp::If {
                                        cond: Box::new(cond),
                                        lhs: Box::new(lhs),
                                        rhs: Box::new(rhs),
                                    },
                                ),
                            },
                        },
                    }
                } else {
                    Err(ParseError::SyntaxError)
                }
            } else if sym_is(op, "lambda") {
                if items.len() == 3 {
                    match &items[1] {
                        SExpr::Sym(x) => match parse(&items[2]) {
                            Err(p) => Err(p),
                            Ok(body) => Ok(
                                Exp::Lambda { symbol: x.clone(), body: Box::new(body) },
                            ),
                        },
                        _ => Err(ParseError::SyntaxError),
                    }
                } else {
                    Err(ParseError::SyntaxError)
                }
            } else if sym_is(op, "let") {
                if items.len() == 3 {
                    parse_let(items)
                } else {
                    Err(ParseError::SyntaxError)
                }
            } else if sym_is(op, "begin") {
                match parse_items(items, 1) {
                    Err(p) => Err(p),
                    Ok(es) => Ok(Exp::Begin(es)),
                }
            } else {
                parse_app(items)
            }
        },
        _ => {
            proof {
                assert(iv[0] == items@[0]@);
            }
            parse_app(items)
        },
    }
}

/// Builds the desugared `let`: the executable form of [`parse_let_spec`].
fn parse_let(items: &Vec<SExpr>) -> (r: Result<Exp, ParseError>)
    requires
        items@.len() == 3,
    ensures
        parse_result_view(r) == parse_let_spec(view_sexprs(items@)),
    decreases items@, 0int,
{
    let ghost iv = view_sexprs(items@);
    proof {
        lemma_view_sexprs(items@);
    }
    proof {
        assert(iv[1] == items@[1]@);
        assert(iv[2] == items@[2]@);
    }
    match &items[1] {
        SExpr::List(bs) => {
            proof {
                lemma_view_sexprs(bs@);
                assert(view_sexprs(bs@).len() == bs@.len());
            }
            if bs.len() == 1 {
                proof {
                    assert(view_sexprs(bs@)[0] == bs@[0]@);
                }
                match &bs[0] {
                    SExpr::List(pair) => {
                        proof {
                            lemma_view_sexprs(pair@);
                        }
                        if pair.len() == 2 {
                            proof {
                                assert(view_sexprs(pair@)[0] == pair@[0]@);
                                assert(view_sexprs(pair@)[1] == pair@[1]@);
                            }
                            match &pair[0] {
                                SExpr::Sym(x) => {
                                    match parse(&pair[1]) {
                                    Err(p) => Err(p),
                                    Ok(v) => match parse(&items[2]) {
                                        Err(p) => Err(p),
                                        Ok(b) => {
                                            let ghost bv = b@;
                                            let ghost vv = v@;
                                            let lam = Exp::Lambda {
                                                symbol: x.clone(),
                                                body: Box::new(b),
                                            };
                                            proof {
                                                assert(lam@ == ExpView::Lambda {
                                                    symbol: x@,
                                                    body: Box::new(bv),
                                                });
                                            }
                                            let out = Exp::App {
                                                func: Box::new(lam),
                                                arg: Box::new(v),
                                            };
                                            proof {
                                                assert(out@ == ExpView::App {
                                                    func: Box::new(ExpView::Lambda {
                                                        symbol: x@,
                                                        body: Box::new(bv),
                                                    }),
                                                    arg: Box::new(vv),
                                                });
                                            }
                                            Ok(out)
                                        },
                                    },
                                }
                                },
                                _ => Err(ParseError::MalformedAssignment),
                            }
                        } else {
                            Err(ParseError::MalformedAssignment)
                        }
                    },
                    _ => Err(ParseError::MalformedAssignment),
                }
            } else {
                Err(ParseError::MalformedAssignment)
            }
        },
        _ => Err(ParseError::MalformedAssignment),
    }
}

/// Builds a function application from a two-element list.
fn parse_app(items: &Vec<SExpr>) -> (r: Result<Exp, ParseError>)
    ensures
        parse_result_view(r) == parse_app_spec(view_sexprs(items@)),
    decreases items@, 1int,
{
    let ghost iv = view_sexprs(items@);
    proof {
        lemma_view_sexprs(items@);
    }
    if items.len() == 2 {
        proof {
            assert(iv[0] == items@[0]@);
            assert(iv[1] == items@[1]@);
        }
        match parse(&items[0]) {
            Err(p) => Err(p),
            Ok(func) => match parse(&items[1]) {
                Err(p) => Err(p),
                Ok(arg) => Ok(Exp::App { func: Box::new(func), arg: Box::new(arg) }),
            },
        }
    } else {
        Err(ParseError::SyntaxError)
    }
}

/// Parses every element of `items` from position `k` on: the executable
/// form of [`parse_items_from`].
fn parse_items(items: &Vec<SExpr>, k: usize) -> (r: Result<Vec<Exp>, ParseError>)
    ensures
        match r {
            Ok(v) => parse_items_from(view_sexprs(items@), k as int) == Ok::<_, ParseError>(
                view_exps(v@),
            ),
            Err(p) => parse_items_from(view_sexprs(items@), k as int) == Err::<Seq<ExpView>, _>(
                p,
            ),
        },
    decreases items@, items@.len() - k,
{
    let ghost iv = view_sexprs(items@);
    proof {
        lemma_view_sexprs(items@);
    }
    if k >= items.len() {
        let empty: Vec<Exp> = Vec::new();
        proof {
            lemma_view_exps(empty@);
            assert(view_exps(empty@) =~= Seq::<ExpView>::empty());
        }
        Ok(empty)
    } else {
        match parse(&items[k]) {
            Err(p) => Err(p),
            Ok(e) => match parse_items(items, k + 1) {
                Err(p) => Err(p),
                Ok(mut rest) => {
                    let ghost rest0 = rest@;
                    rest.insert(0, e);
                    proof {
                        rest0.insert_ensures(0, e);
                        lemma_view_exps(rest0);
                        lemma_view_exps(rest@);
                        assert(view_sexprs(items@)[k as int] == items@[k as int]@);
                        assert forall|i: int| 0 <= i < rest@.len() implies view_exps(rest@)[i]
                            == (seq![e@] + view_exps(rest0))[i] by {
                            if i == 0 {
                                assert(rest@[0] == e);
                                assert(view_exps(rest@)[0] == rest@[0]@);
                            } else {
                                assert(rest0.insert(0, e)[(i - 1) + 1] == rest0[i - 1]);
                                assert(rest@[i] == rest0[i - 1]);
                                assert(view_exps(rest@)[i] == rest@[i]@);
                                assert(view_exps(rest0)[i - 1] == rest0[i - 1]@);
                                assert((seq![e@] + view_exps(rest0))[i] == view_exps(rest0)[i - 1]);
                            }
                        }
                        assert(view_exps(rest@) =~= seq![e@] + view_exps(rest0));
                    }
                    Ok(rest)
                },
            },
        }
    }
}

} // verus!
