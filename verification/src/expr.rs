//! The expression model: what a source expression means.
//!
//! The compiler emits bytecode in a single pass and never builds a tree at
//! run time; [`Expr`] exists only in specifications, as the shape of the
//! expression a token stream parses to.  [`eval`] is the reference
//! ("native") evaluation: left operand first, then right operand, then the
//! operator, with the value semantics of the `val_*` functions.  The
//! compiler's contract says the emitted code computes exactly `eval` of the
//! parsed expression.
use crate::error::FaultKind;
use crate::float::{float_of_dec, is_digit_char};
use crate::value::{val_add, val_div, val_eq, val_gt, val_lt, val_mul, val_neg, val_not, val_sub,
    ValueView};
use vstd::prelude::*;

verus! {

/// A unary operator.
pub enum UnOp {
    Neg,
    Not,
}

/// A binary operator.
pub enum BinOp {
    Add,
    Sub,
    Mul,
    Div,
    Eq,
    Ne,
    Lt,
    Le,
    Gt,
    Ge,
}

/// The shape of a parsed expression.  Number literals keep their lexeme;
/// what value a lexeme denotes is the business of [`num_value`].
pub enum Expr {
    Num(Seq<char>),
    StrLit(Seq<char>),
    True,
    False,
    Nil,
    Unary(UnOp, Box<Expr>),
    Binary(BinOp, Box<Expr>, Box<Expr>),
}

/// The numeric value of a digit string, most significant digit first.
pub open spec fn digits_val(s: Seq<char>) -> int
    decreases s.len(),
{
    if s.len() == 0 {
        0
    } else {
        digits_val(s.drop_last()) * 10 + (s.last() as int - '0' as int)
    }
}

/// Whether a number lexeme is all digits (no dot).
pub open spec fn is_int_lexeme(s: Seq<char>) -> bool {
    forall|i: int| 0 <= i < s.len() ==> is_digit_char(#[trigger] s[i])
}

/// The value a number literal denotes: a 64-bit integer when the lexeme is
/// all digits and fits, otherwise the binary64 float of the decimal text.
pub open spec fn num_value(lex: Seq<char>) -> ValueView {
    if is_int_lexeme(lex) && digits_val(lex) <= i64::MAX {
        ValueView::Int(digits_val(lex) as i64)
    } else {
        ValueView::Float(float_of_dec(lex))
    }
}

/// The meaning of a binary operator.  `Ne`, `Le` and `Ge` are the
/// complements the compiler synthesizes (`Equal;Not`, `Greater;Not`,
/// `Less;Not`), so each is by definition the negation of its primitive.
pub open spec fn bin_eval(op: BinOp, l: ValueView, r: ValueView) -> Result<ValueView, FaultKind> {
    match op {
        BinOp::Add => val_add(l, r),
        BinOp::Sub => val_sub(l, r),
        BinOp::Mul => val_mul(l, r),
        BinOp::Div => val_div(l, r),
        BinOp::Eq => Ok(ValueView::Bool(val_eq(l, r))),
        BinOp::Ne => Ok(ValueView::Bool(!val_eq(l, r))),
        BinOp::Lt => match val_lt(l, r) {
            Ok(b) => Ok(ValueView::Bool(b)),
            Err(k) => Err(k),
        },
        BinOp::Gt => match val_gt(l, r) {
            Ok(b) => Ok(ValueView::Bool(b)),
            Err(k) => Err(k),
        },
        BinOp::Le => match val_gt(l, r) {
            Ok(b) => Ok(ValueView::Bool(!b)),
            Err(k) => Err(k),
        },
        BinOp::Ge => match val_lt(l, r) {
            Ok(b) => Ok(ValueView::Bool(!b)),
            Err(k) => Err(k),
        },
    }
}

/// Reference evaluation of an expression: left to right, faults propagate.
pub open spec fn eval(e: Expr) -> Result<ValueView, FaultKind>
    decreases e,
{
    match e {
        Expr::Num(lex) => Ok(num_value(lex)),
        Expr::StrLit(s) => Ok(ValueView::Str(s)),
        Expr::True => Ok(ValueView::Bool(true)),
        Expr::False => Ok(ValueView::Bool(false)),
        Expr::Nil => Ok(ValueView::Nil),
        Expr::Unary(op, a) => match eval(*a) {
            Ok(v) => match op {
                UnOp::Neg => val_neg(v),
                UnOp::Not => val_not(v),
            },
            Err(k) => Err(k),
        },
        Expr::Binary(op, l, r) => match eval(*l) {
            Ok(lv) => match eval(*r) {
                Ok(rv) => bin_eval(op, lv, rv),
                Err(k) => Err(k),
            },
            Err(k) => Err(k),
        },
    }
}

/// How many constant-pool entries compiling an expression appends: one per
/// number or string literal occurrence.
pub open spec fn n_consts(e: Expr) -> int
    decreases e,
{
    match e {
        Expr::Num(_) => 1,
        Expr::StrLit(_) => 1,
        Expr::True => 0,
        Expr::False => 0,
        Expr::Nil => 0,
        Expr::Unary(_, a) => n_consts(*a),
        Expr::Binary(_, l, r) => n_consts(*l) + n_consts(*r),
    }
}

pub proof fn lemma_n_consts_nonneg(e: Expr)
    ensures
        n_consts(e) >= 0,
    decreases e,
{
    match e {
        Expr::Unary(_, a) => lemma_n_consts_nonneg(*a),
        Expr::Binary(_, l, r) => {
            lemma_n_consts_nonneg(*l);
            lemma_n_consts_nonneg(*r);
        },
        _ => {},
    }
}

pub proof fn lemma_digits_val_take_step(s: Seq<char>, k: int)
    requires
        0 <= k < s.len(),
    ensures
        digits_val(s.take(k + 1)) == digits_val(s.take(k)) * 10 + (s[k] as int - '0' as int),
{
    assert(s.take(k + 1).drop_last() =~= s.take(k));
    assert(s.take(k + 1).last() == s[k]);
}

pub proof fn lemma_digits_val_nonneg(s: Seq<char>)
    requires
        is_int_lexeme(s),
    ensures
        digits_val(s) >= 0,
    decreases s.len(),
{
    if s.len() > 0 {
        assert(is_int_lexeme(s.drop_last())) by {
            assert(forall|i: int|
                0 <= i < s.len() - 1 ==> #[trigger] s.drop_last()[i] == s[i]);
        }
        lemma_digits_val_nonneg(s.drop_last());
    }
}

/// A digit string's value only grows as more digits are appended.
pub proof fn lemma_digits_val_mono(s: Seq<char>, k: int)
    requires
        is_int_lexeme(s),
        0 <= k <= s.len(),
    ensures
        digits_val(s.take(k)) <= digits_val(s),
    decreases s.len() - k,
{
    if k < s.len() {
        assert(is_int_lexeme(s.take(k))) by {
            assert(forall|i: int| 0 <= i < k ==> #[trigger] s.take(k)[i] == s[i]);
        }
        lemma_digits_val_nonneg(s.take(k));
        lemma_digits_val_take_step(s, k);
        lemma_digits_val_mono(s, k + 1);
    } else {
        assert(s.take(k) =~= s);
    }
}

} // verus!
