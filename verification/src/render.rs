//! Text renderings: the structural (debug) form of expression trees and
//! values, the human-readable (display) form of numbers and booleans, and
//! the message texts of the two error types.
//!
//! Every rendering is specified character by character. A float has no
//! native rendering here — the crate only carries its bits — so the
//! structural form shows the bit pattern in fixed-width hexadecimal; a
//! caller with a floating-point unit may render the top-level value of a
//! `display` differently.

use vstd::prelude::*;

use crate::ast::{Exp, ExpView};
use crate::interp::{InterpError, InterpErrorView};
use crate::parse::ParseError;
use crate::value::{Value, ValueView};

verus! {

/// The decimal digit character for `d < 10`.
pub open spec fn digit_char(d: nat) -> char {
    if d == 0 {
        '0'
    } else if d == 1 {
        '1'
    } else if d == 2 {
        '2'
    } else if d == 3 {
        '3'
    } else if d == 4 {
        '4'
    } else if d == 5 {
        '5'
    } else if d == 6 {
        '6'
    } else if d == 7 {
        '7'
    } else if d == 8 {
        '8'
    } else {
        '9'
    }
}

/// The hexadecimal digit character for `d < 16`, lower case.
pub open spec fn hex_char(d: nat) -> char {
    if d < 10 {
        digit_char(d)
    } else if d == 10 {
        'a'
    } else if d == 11 {
        'b'
    } else if d == 12 {
        'c'
    } else if d == 13 {
        'd'
    } else if d == 14 {
        'e'
    } else {
        'f'
    }
}

/// The decimal digits of `n`, most significant first, no leading zeros
/// (a single `0` for zero).
pub open spec fn dec_digits(n: nat) -> Seq<char>
    decreases n,
{
    if n < 10 {
        seq![digit_char(n)]
    } else {
        dec_digits(n / 10).push(digit_char(n % 10))
    }
}

/// The decimal form of an integer: a minus sign for negatives, then the
/// digits of its magnitude.
pub open spec fn int_chars(n: int) -> Seq<char> {
    if n < 0 {
        seq!['-'] + dec_digits((-n) as nat)
    } else {
        dec_digits(n as nat)
    }
}

/// The lowest `width` hexadecimal digits of `n`, most significant first.
pub open spec fn hex_digits(n: nat, width: nat) -> Seq<char>
    decreases width,
{
    if width == 0 {
        Seq::empty()
    } else {
        hex_digits(n / 16, (width - 1) as nat).push(hex_char(n % 16))
    }
}

/// The structural form of a float's bit pattern: sixteen hex digits after
/// an `0x` prefix.
pub open spec fn float_bits_chars(bits: u64) -> Seq<char> {
    "0x"@ + hex_digits(bits as nat, 16)
}

/// One decimal digit as a string slice.
fn digit_str(d: u64) -> (r: &'static str)
    requires
        d < 10,
    ensures
        r@ =~= seq![digit_char(d as nat)],
{
    if d == 0 {
        proof {
            reveal_strlit("0");
        }
        "0"
    } else if d == 1 {
        proof {
            reveal_strlit("1");
        }
        "1"
    } else if d == 2 {
        proof {
            reveal_strlit("2");
        }
        "2"
    } else if d == 3 {
        proof {
            reveal_strlit("3");
        }
        "3"
    } else if d == 4 {
        proof {
            reveal_strlit("4");
        }
        "4"
    } else if d == 5 {
        proof {
            reveal_strlit("5");
        }
        "5"
    } else if d == 6 {
        proof {
            reveal_strlit("6");
        }
        "6"
    } else if d == 7 {
        proof {
            reveal_strlit("7");
        }
        "7"
    } else if d == 8 {
        proof {
            reveal_strlit("8");
        }
        "8"
    } else {
        proof {
            reveal_strlit("9");
        }
        "9"
    }
}

/// One hexadecimal digit as a string slice.
fn hex_digit_str(d: u64) -> (r: &'static str)
    requires
        d < 16,
    ensures
        r@ =~= seq![hex_char(d as nat)],
{
    if d < 10 {
        digit_str(d)
    } else if d == 10 {
        proof {
            reveal_strlit("a");
        }
        "a"
    } else if d == 11 {
        proof {
            reveal_strlit("b");
        }
        "b"
    } else if d == 12 {
        proof {
            reveal_strlit("c");
        }
        "c"
    } else if d == 13 {
        proof {
            reveal_strlit("d");
        }
        "d"
    } else if d == 14 {
        proof {
            reveal_strlit("e");
        }
        "e"
    } else {
        proof {
            reveal_strlit("f");
        }
        "f"
    }
}

/// Appends the decimal digits of `n`.
fn push_dec(s: &mut String, n: u64)
    ensures
        final(s)@ == old(s)@ + dec_digits(n as nat),
    decreases n,
{
    if n < 10 {
        s.append(digit_str(n));
    } else {
        let ghost mid = old(s)@ + dec_digits((n / 10) as nat);
        push_dec(s, n / 10);
        s.append(digit_str(n % 10));
        proof {
            assert(final(s)@ =~= old(s)@ + dec_digits(n as nat));
        }
    }
}

/// Appends the lowest `width` hexadecimal digits of `n`.
fn push_hex(s: &mut String, n: u64, width: u64)
    ensures
        final(s)@ == old(s)@ + hex_digits(n as nat, width as nat),
    decreases width,
{
    if width == 0 {
        proof {
            assert(final(s)@ =~= old(s)@ + hex_digits(n as nat, 0));
        }
    } else {
        push_hex(s, n / 16, width - 1);
        s.append(hex_digit_str(n % 16));
        proof {
            assert(final(s)@ =~= old(s)@ + hex_digits(n as nat, width as nat));
        }
    }
}

/// Appends the decimal form of a signed integer.
fn push_int(s: &mut String, n: i64)
    ensures
        final(s)@ == old(s)@ + int_chars(n as int),
{
    if n < 0 {
        proof {
            reveal_strlit("-");
        }
        s.append("-");
        let m = (-(n as i128)) as u64;
        push_dec(s, m);
        proof {
            assert(final(s)@ =~= old(s)@ + int_chars(n as int));
        }
    } else {
        push_dec(s, n as u64);
    }
}

/// The decimal form of a signed integer, on its own.
pub fn i64_to_string(n: i64) -> (s: String)
    ensures
        s@ == int_chars(n as int),
{
    let mut s = String::new();
    push_int(&mut s, n);
    proof {
        assert(s@ =~= int_chars(n as int));
    }
    s
}


/// The structural rendering of one expression tree, character by
/// character: `Add(Int(5), Int(8))` and the like. The `set` node renders
/// as `Set`.
pub open spec fn exp_debug_chars(e: ExpView) -> Seq<char>
    decreases e, 1int,
{
    match e {
        ExpView::Int(i) => "Int("@ + int_chars(i as int) + ")"@,
        ExpView::Float(bits) => "Float("@ + float_bits_chars(bits) + ")"@,
        ExpView::Id(name) => "Id("@ + name + ")"@,
        ExpView::Bool(b) => "Bool("@ + (if b {
            "true"@
        } else {
            "false"@
        }) + ")"@,
        ExpView::Add { lhs, rhs } => "Add("@ + exp_debug_chars(*lhs) + ", "@ + exp_debug_chars(
            *rhs,
        ) + ")"@,
        ExpView::Sub { lhs, rhs } => "Sub("@ + exp_debug_chars(*lhs) + ", "@ + exp_debug_chars(
            *rhs,
        ) + ")"@,
        ExpView::Mult { lhs, rhs } => "Mult("@ + exp_debug_chars(*lhs) + ", "@ + exp_debug_chars(
            *rhs,
        ) + ")"@,
        ExpView::Div { lhs, rhs } => "Div("@ + exp_debug_chars(*lhs) + ", "@ + exp_debug_chars(
            *rhs,
        ) + ")"@,
        ExpView::Eq { lhs, rhs } => "Eq("@ + exp_debug_chars(*lhs) + ", "@ + exp_debug_chars(
            *rhs,
        ) + ")"@,
        ExpView::Gt { lhs, rhs } => "Gt("@ + exp_debug_chars(*lhs) + ", "@ + exp_debug_chars(
            *rhs,
        ) + ")"@,
        ExpView::Ge { lhs, rhs } => "Ge("@ + exp_debug_chars(*lhs) + ", "@ + exp_debug_chars(
            *rhs,
        ) + ")"@,
        ExpView::Lt { lhs, rhs } => "Lt("@ + exp_debug_chars(*lhs) + ", "@ + exp_debug_chars(
            *rhs,
        ) + ")"@,
        ExpView::Le { lhs, rhs } => "Le("@ + exp_debug_chars(*lhs) + ", "@ + exp_debug_chars(
            *rhs,
        ) + ")"@,
        ExpView::Assign { lhs, rhs } => "Set("@ + exp_debug_chars(*lhs) + ", "@ + exp_debug_chars(
            *rhs,
        ) + ")"@,
        ExpView::Lambda { symbol, body } => "Lambda("@ + symbol + ", "@ + exp_debug_chars(*body)
            + ")"@,
        ExpView::App { func, arg } => "App("@ + exp_debug_chars(*func) + ", "@ + exp_debug_chars(
            *arg,
        ) + ")"@,
        ExpView::If { cond, lhs, rhs } => "If("@ + exp_debug_chars(*cond) + ", "@
            + exp_debug_chars(*lhs) + ", "@ + exp_debug_chars(*rhs) + ")"@,
        ExpView::Begin(es) => "Begin("@ + exp_list_chars(es, 0) + ")"@,
        ExpView::Ref(inner) => "Ref("@ + exp_debug_chars(*inner) + ")"@,
        ExpView::MutRef(inner) => "MutRef("@ + exp_debug_chars(*inner) + ")"@,
        ExpView::Box(inner) => "Box("@ + exp_debug_chars(*inner) + ")"@,
        ExpView::Unbox(inner) => "Unbox("@ + exp_debug_chars(*inner) + ")"@,
        ExpView::Deref(inner) => "Deref("@ + exp_debug_chars(*inner) + ")"@,
        ExpView::Display(inner) => "Display("@ + exp_debug_chars(*inner) + ")"@,
        ExpView::Debug(inner) => "Debug("@ + exp_debug_chars(*inner) + ")"@,
    }
}

/// The comma-separated renderings of the elements of `es` from position
/// `k` on.
pub open spec fn exp_list_chars(es: Seq<ExpView>, k: int) -> Seq<char>
    decreases es, es.len() - k,
{
    if k < 0 || k >= es.len() {
        Seq::empty()
    } else if k == es.len() - 1 {
        exp_debug_chars(es[k])
    } else {
        exp_debug_chars(es[k]) + ", "@ + exp_list_chars(es, k + 1)
    }
}

impl Exp {
    /// The structural rendering of the tree: exactly
    /// [`exp_debug_chars`] of its view.
    pub fn to_debug_string(&self) -> (s: String)
        ensures
            s@ == exp_debug_chars(self@),
    {
        let mut s = String::new();
        push_exp_debug(&mut s, self);
        proof {
            assert(s@ =~= exp_debug_chars(self@));
        }
        s
    }
}

/// Appends the structural rendering of one expression tree.
#[verifier::rlimit(100)]
fn push_exp_debug(s: &mut String, e: &Exp)
    ensures
        final(s)@ == old(s)@ + exp_debug_chars(e@),
    decreases e@, 1int,
{
    match e {
        Exp::Int(i) => {
            s.append("Int(");
            push_int(s, *i);
            s.append(")");
            proof {
                assert(final(s)@ =~= old(s)@ + exp_debug_chars(e@));
            }
        },
        Exp::Float(bits) => {
            s.append("Float(");
            s.append("0x");
            push_hex(s, *bits, 16);
            s.append(")");
            proof {
                assert(final(s)@ =~= old(s)@ + exp_debug_chars(e@));
            }
        },
        Exp::Id(name) => {
            s.append("Id(");
            s.append(name.as_str());
            s.append(")");
            proof {
                assert(final(s)@ =~= old(s)@ + exp_debug_chars(e@));
            }
        },
        Exp::Bool(b) => {
            s.append("Bool(");
            if *b {
                s.append("true");
            } else {
                s.append("false");
            }
            s.append(")");
            proof {
                assert(final(s)@ =~= old(s)@ + exp_debug_chars(e@));
            }
        },
        Exp::Add { lhs, rhs } => {
            s.append("Add(");
            push_exp_debug(s, &**lhs);
            s.append(", ");
            push_exp_debug(s, &**rhs);
            s.append(")");
            proof {
                assert(final(s)@ =~= old(s)@ + exp_debug_chars(e@));
            }
        },
        Exp::Sub { lhs, rhs } => {
            s.append("Sub(");
            push_exp_debug(s, &**lhs);
            s.append(", ");
            push_exp_debug(s, &**rhs);
            s.append(")");
            proof {
                assert(final(s)@ =~= old(s)@ + exp_debug_chars(e@));
            }
        },
        Exp::Mult { lhs, rhs } => {
            s.append("Mult(");
            push_exp_debug(s, &**lhs);
            s.append(", ");
            push_exp_debug(s, &**rhs);
            s.append(")");
            proof {
                assert(final(s)@ =~= old(s)@ + exp_debug_chars(e@));
            }
        },
        Exp::Div { lhs, rhs } => {
            s.append("Div(");
            push_exp_debug(s, &**lhs);
            s.append(", ");
            push_exp_debug(s, &**rhs);
            s.append(")");
            proof {
                assert(final(s)@ =~= old(s)@ + exp_debug_chars(e@));
            }
        },
        Exp::Eq { lhs, rhs } => {
            s.append("Eq(");
            push_exp_debug(s, &**lhs);
            s.append(", ");
            push_exp_debug(s, &**rhs);
            s.append(")");
            proof {
                assert(final(s)@ =~= old(s)@ + exp_debug_chars(e@));
            }
        },
        Exp::Gt { lhs, rhs } => {
            s.append("Gt(");
            push_exp_debug(s, &**lhs);
            s.append(", ");
            push_exp_debug(s, &**rhs);
            s.append(")");
            proof {
                assert(final(s)@ =~= old(s)@ + exp_debug_chars(e@));
            }
        },
        Exp::Ge { lhs, rhs } => {
            s.append("Ge(");
            push_exp_debug(s, &**lhs);
            s.append(", ");
            push_exp_debug(s, &**rhs);
            s.append(")");
            proof {
                assert(final(s)@ =~= old(s)@ + exp_debug_chars(e@));
            }
        },
        Exp::Lt { lhs, rhs } => {
            s.append("Lt(");
            push_exp_debug(s, &**lhs);
            s.append(", ");
            push_exp_debug(s, &**rhs);
            s.append(")");
            proof {
                assert(final(s)@ =~= old(s)@ + exp_debug_chars(e@));
            }
        },
        Exp::Le { lhs, rhs } => {
            s.append("Le(");
            push_exp_debug(s, &**lhs);
            s.append(", ");
            push_exp_debug(s, &**rhs);
            s.append(")");
            proof {
                assert(final(s)@ =~= old(s)@ + exp_debug_chars(e@));
            }
        },
        Exp::Assign { lhs, rhs } => {
            s.append("Set(");
            push_exp_debug(s, &**lhs);
            s.append(", ");
            push_exp_debug(s, &**rhs);
            s.append(")");
            proof {
                assert(final(s)@ =~= old(s)@ + exp_debug_chars(e@));
            }
        },
        Exp::Lambda { symbol, body } => {
            s.append("Lambda(");
            s.append(symbol.as_str());
            s.append(", ");
            push_exp_debug(s, &**body);
            s.append(")");
            proof {
                assert(final(s)@ =~= old(s)@ + exp_debug_chars(e@));
            }
        },
        Exp::App { func, arg } => {
            s.append("App(");
            push_exp_debug(s, &**func);
            s.append(", ");
            push_exp_debug(s, &**arg);
            s.append(")");
            proof {
                assert(final(s)@ =~= old(s)@ + exp_debug_chars(e@));
            }
        },
        Exp::If { cond, lhs, rhs } => {
            s.append("If(");
            push_exp_debug(s, &**cond);
            s.append(", ");
            push_exp_debug(s, &**lhs);
            s.append(", ");
            push_exp_debug(s, &**rhs);
            s.append(")");
            proof {
                assert(final(s)@ =~= old(s)@ + exp_debug_chars(e@));
            }
        },
        Exp::Begin(es) => {
            proof {
                crate::ast::lemma_view_exps(es@);
                assert(e@ == ExpView::Begin(crate::ast::view_exps(es@)));
            }
            s.append("Begin(");
            if es.len() > 0 {
                push_exp_list(s, es, 0);
            }
            s.append(")");
            proof {
                assert(exp_list_chars(crate::ast::view_exps(es@), 0) == if es@.len() == 0 {
                    Seq::<char>::empty()
                } else {
                    exp_list_chars(crate::ast::view_exps(es@), 0)
                });
                assert(final(s)@ =~= old(s)@ + exp_debug_chars(e@));
            }
        },
        Exp::Ref(inner) => {
            s.append("Ref(");
            push_exp_debug(s, &**inner);
            s.append(")");
            proof {
                assert(final(s)@ =~= old(s)@ + exp_debug_chars(e@));
            }
        },
        Exp::MutRef(inner) => {
            s.append("MutRef(");
            push_exp_debug(s, &**inner);
            s.append(")");
            proof {
                assert(final(s)@ =~= old(s)@ + exp_debug_chars(e@));
            }
        },
        Exp::Box(inner) => {
            s.append("Box(");
            push_exp_debug(s, &**inner);
            s.append(")");
            proof {
                assert(final(s)@ =~= old(s)@ + exp_debug_chars(e@));
            }
        },
        Exp::Unbox(inner) => {
            s.append("Unbox(");
            push_exp_debug(s, &**inner);
            s.append(")");
            proof {
                assert(final(s)@ =~= old(s)@ + exp_debug_chars(e@));
            }
        },
        Exp::Deref(inner) => {
            s.append("Deref(");
            push_exp_debug(s, &**inner);
            s.append(")");
            proof {
                assert(final(s)@ =~= old(s)@ + exp_debug_chars(e@));
            }
        },
        Exp::Display(inner) => {
            s.append("Display(");
            push_exp_debug(s, &**inner);
            s.append(")");
            proof {
                assert(final(s)@ =~= old(s)@ + exp_debug_chars(e@));
            }
        },
        Exp::Debug(inner) => {
            s.append("Debug(");
            push_exp_debug(s, &**inner);
            s.append(")");
            proof {
                assert(final(s)@ =~= old(s)@ + exp_debug_chars(e@));
            }
        },
    }
}

/// Appends the comma-separated renderings of the elements from `k` on.
fn push_exp_list(s: &mut String, es: &Vec<Exp>, k: usize)
    requires
        k < es@.len(),
    ensures
        final(s)@ == old(s)@ + exp_list_chars(crate::ast::view_exps(es@), k as int),
    decreases crate::ast::view_exps(es@), es@.len() - k,
{
    proof {
        crate::ast::lemma_view_exps(es@);
        assert(crate::ast::view_exps(es@)[k as int] == es@[k as int]@);
    }
    push_exp_debug(s, &es[k]);
    if k < es.len() - 1 {
        s.append(", ");
        push_exp_list(s, es, k + 1);
        proof {
            assert(final(s)@ =~= old(s)@ + exp_list_chars(crate::ast::view_exps(es@), k as int));
        }
    } else {
        proof {
            assert(final(s)@ =~= old(s)@ + exp_list_chars(crate::ast::view_exps(es@), k as int));
        }
    }
}


/// The structural rendering of one runtime value. A box handle and the
/// two reference kinds show their heap location; a closure shows its
/// parameter and body, with the captured environment left out.
pub open spec fn value_debug_chars(v: ValueView) -> Seq<char>
    decreases v, 0int,
{
    match v {
        ValueView::Int(i) => "Int("@ + int_chars(i as int) + ")"@,
        ValueView::Float(bits) => "Float("@ + float_bits_chars(bits) + ")"@,
        ValueView::Bool(b) => "Bool("@ + (if b {
            "true"@
        } else {
            "false"@
        }) + ")"@,
        ValueView::Closure { symbol, body, env } => "Closure(arg: "@ + symbol + ", body: "@
            + exp_debug_chars(body) + ")"@,
        ValueView::BoxRef(loc) => "Box("@ + dec_digits(loc as nat) + ")"@,
        ValueView::ImmRef(loc) => "Ref("@ + dec_digits(loc as nat) + ")"@,
        ValueView::MutRefVal(loc) => "MutRef("@ + dec_digits(loc as nat) + ")"@,
        ValueView::Moved => "Moved"@,
    }
}

impl Value {
    /// The structural rendering of the value: exactly
    /// [`value_debug_chars`] of its view.
    pub fn to_debug_string(&self) -> (s: String)
        ensures
            s@ == value_debug_chars(self@),
    {
        let mut s = String::new();
        match self {
            Value::Int(i) => {
                s.append("Int(");
                push_int(&mut s, *i);
                s.append(")");
            },
            Value::Float(bits) => {
                s.append("Float(");
                s.append("0x");
                push_hex(&mut s, *bits, 16);
                s.append(")");
            },
            Value::Bool(b) => {
                s.append("Bool(");
                if *b {
                    s.append("true");
                } else {
                    s.append("false");
                }
                s.append(")");
            },
            Value::Closure { symbol, body, env } => {
                s.append("Closure(arg: ");
                s.append(symbol.as_str());
                s.append(", body: ");
                push_exp_debug(&mut s, &**body);
                s.append(")");
            },
            Value::BoxRef(loc) => {
                s.append("Box(");
                push_dec(&mut s, *loc as u64);
                s.append(")");
            },
            Value::ImmRef(loc) => {
                s.append("Ref(");
                push_dec(&mut s, *loc as u64);
                s.append(")");
            },
            Value::MutRefVal(loc) => {
                s.append("MutRef(");
                push_dec(&mut s, *loc as u64);
                s.append(")");
            },
            Value::Moved => {
                s.append("Moved");
            },
        }
        proof {
            assert(s@ =~= value_debug_chars(self@));
        }
        s
    }

    /// The human-readable rendering of a number or boolean, as the
    /// `display` form shows it, or `None` for any other kind of value. A
    /// float is shown as its bit pattern; a caller with a floating-point
    /// unit may render it differently.
    pub fn to_display_string(&self) -> (r: Option<String>)
        ensures
            match r {
                Some(s) => (self@ is Int || self@ is Float || self@ is Bool) && s@
                    == display_chars(self@),
                None => !(self@ is Int || self@ is Float || self@ is Bool),
            },
    {
        match self {
            Value::Int(i) => Some(i64_to_string(*i)),
            Value::Float(bits) => {
                let mut s = String::new();
                s.append("0x");
                push_hex(&mut s, *bits, 16);
                proof {
                    assert(s@ =~= display_chars(self@));
                }
                Some(s)
            },
            Value::Bool(b) => {
                let mut s = String::new();
                if *b {
                    s.append("true");
                } else {
                    s.append("false");
                }
                proof {
                    assert(s@ =~= display_chars(self@));
                }
                Some(s)
            },
            _ => None,
        }
    }
}

/// The human-readable form of a number or boolean: bare digits, the bit
/// pattern of a float, or `true`/`false`. Empty for other kinds.
pub open spec fn display_chars(v: ValueView) -> Seq<char> {
    match v {
        ValueView::Int(i) => int_chars(i as int),
        ValueView::Float(bits) => float_bits_chars(bits),
        ValueView::Bool(b) => if b {
            "true"@
        } else {
            "false"@
        },
        _ => Seq::empty(),
    }
}

/// The message text of one evaluation error.
pub open spec fn interp_error_chars(e: InterpErrorView) -> Seq<char> {
    match e {
        InterpErrorView::NotImplemented(s) => s + " is not yet implemented"@,
        InterpErrorView::NotANumber => "Value is not a number"@,
        InterpErrorView::IncompatibleTypes => "Cannot perform operation on incompatible types"@,
        InterpErrorView::ConditionNotBoolean => "Condition must be a boolean"@,
        InterpErrorView::BranchTypeMismatch => "If branches must have the same type"@,
        InterpErrorView::DivisionByZero => "Division by zero"@,
        InterpErrorView::CantDisplay =>
            "This type cannot be displayed. Please use 'debug' instead"@,
        InterpErrorView::SymbolNotFound(s) => "Cannot find symbol '"@ + s + "'"@,
        InterpErrorView::BorrowConflict => "Cannot borrow this value as requested"@,
        InterpErrorView::UseAfterMove => "Cannot use a value after its box has been moved"@,
        InterpErrorView::RecursionLimit => "Recursion limit reached"@,
    }
}

impl InterpError {
    /// The message text of the error: exactly [`interp_error_chars`] of
    /// its view.
    pub fn message(&self) -> (s: String)
        ensures
            s@ == interp_error_chars(self@),
    {
        let mut s = String::new();
        match self {
            InterpError::NotImplemented(name) => {
                s.append(name.as_str());
                s.append(" is not yet implemented");
            },
            InterpError::NotANumber => {
                s.append("Value is not a number");
            },
            InterpError::IncompatibleTypes => {
                s.append("Cannot perform operation on incompatible types");
            },
            InterpError::ConditionNotBoolean => {
                s.append("Condition must be a boolean");
            },
            InterpError::BranchTypeMismatch => {
                s.append("If branches must have the same type");
            },
            InterpError::DivisionByZero => {
                s.append("Division by zero");
            },
            InterpError::CantDisplay => {
                s.append("This type cannot be displayed. Please use 'debug' instead");
            },
            InterpError::SymbolNotFound(name) => {
                s.append("Cannot find symbol '");
                s.append(name.as_str());
                s.append("'");
            },
            InterpError::BorrowConflict => {
                s.append("Cannot borrow this value as requested");
            },
            InterpError::UseAfterMove => {
                s.append("Cannot use a value after its box has been moved");
            },
            InterpError::RecursionLimit => {
                s.append("Recursion limit reached");
            },
        }
        proof {
            assert(s@ =~= interp_error_chars(self@));
        }
        s
    }
}

/// The message text of one parse error.
pub open spec fn parse_error_chars(e: ParseError) -> Seq<char> {
    match e {
        ParseError::NotImplemented => "This function is not yet implemented"@,
        ParseError::SyntaxError => "Parsing error"@,
        ParseError::MalformedAssignment => "Malformed let binding"@,
        ParseError::ReaderError => "Reader syntax error"@,
    }
}

impl ParseError {
    /// The message text of the error: exactly [`parse_error_chars`] of it.
    pub fn message(&self) -> (s: String)
        ensures
            s@ == parse_error_chars(*self),
    {
        let mut s = String::new();
        match self {
            ParseError::NotImplemented => {
                s.append("This function is not yet implemented");
            },
            ParseError::SyntaxError => {
                s.append("Parsing error");
            },
            ParseError::MalformedAssignment => {
                s.append("Malformed let binding");
            },
            ParseError::ReaderError => {
                s.append("Reader syntax error");
            },
        }
        proof {
            assert(s@ =~= parse_error_chars(*self));
        }
        s
    }
}

} // verus!
