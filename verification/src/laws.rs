//! General laws of the language, stated and proved against the
//! specifications the executable code is verified to implement.
use crate::error::FaultKind;
use crate::expr::{bin_eval, eval, BinOp, Expr, UnOp};
use crate::float::{float_add, float_div, float_mul, float_neg, float_of_int, float_sub};
use crate::scanner::{alpha_end, keyword_kind, lemma_quote_end_bounds, lemma_ws_end_bounds,
    quote_end, scan_from, ws_end};
use crate::token::{kind_text, TokenKind};
use crate::value::{val_add, val_div, val_lt, val_mul, val_neg, val_not, val_sub, ValueView};
use vstd::prelude::*;

verus! {

/// The token kinds with a fixed literal form: punctuation, operators and
/// keywords (not the literal-carrying kinds, nor end of input).
pub open spec fn is_fixed_kind(k: TokenKind) -> bool {
    match k {
        TokenKind::Ident(_) | TokenKind::StrLit(_) | TokenKind::Number(_) | TokenKind::Error(_)
            | TokenKind::Eof => false,
        _ => true,
    }
}

/// Scanning a fixed-form token's literal text yields exactly one token of
/// that kind, spanning the whole text, followed by end of input.
pub proof fn lemma_scan_fixed_literal(k: TokenKind)
    requires
        is_fixed_kind(k),
    ensures
        ({
            let s = kind_text(k);
            &&& scan_from(s, 0).kind == k
            &&& scan_from(s, 0).start == 0
            &&& scan_from(s, 0).end == s.len()
            &&& scan_from(s, s.len() as int).kind is Eof
        }),
{
    reveal_strlit("(");
    reveal_strlit(")");
    reveal_strlit("{");
    reveal_strlit("}");
    reveal_strlit(",");
    reveal_strlit(".");
    reveal_strlit("-");
    reveal_strlit("+");
    reveal_strlit(";");
    reveal_strlit("/");
    reveal_strlit("*");
    reveal_strlit("!");
    reveal_strlit("!=");
    reveal_strlit("=");
    reveal_strlit("==");
    reveal_strlit(">");
    reveal_strlit(">=");
    reveal_strlit("<");
    reveal_strlit("<=");
    reveal_strlit("and");
    reveal_strlit("class");
    reveal_strlit("else");
    reveal_strlit("false");
    reveal_strlit("fn");
    reveal_strlit("for");
    reveal_strlit("if");
    reveal_strlit("nil");
    reveal_strlit("or");
    reveal_strlit("return");
    reveal_strlit("super");
    reveal_strlit("this");
    reveal_strlit("true");
    reveal_strlit("var");
    reveal_strlit("while");
    let s = kind_text(k);
    match k {
        TokenKind::And => {
            lemma_scan_keyword(s);
        },
        TokenKind::Class => {
            lemma_scan_keyword(s);
        },
        TokenKind::Else => {
            lemma_scan_keyword(s);
        },
        TokenKind::False => {
            lemma_scan_keyword(s);
        },
        TokenKind::Fn => {
            lemma_scan_keyword(s);
        },
        TokenKind::For => {
            lemma_scan_keyword(s);
        },
        TokenKind::If => {
            lemma_scan_keyword(s);
        },
        TokenKind::Nil => {
            lemma_scan_keyword(s);
        },
        TokenKind::Or => {
            lemma_scan_keyword(s);
        },
        TokenKind::Return => {
            lemma_scan_keyword(s);
        },
        TokenKind::Super => {
            lemma_scan_keyword(s);
        },
        TokenKind::This => {
            lemma_scan_keyword(s);
        },
        TokenKind::True => {
            lemma_scan_keyword(s);
        },
        TokenKind::Var => {
            lemma_scan_keyword(s);
        },
        TokenKind::While => {
            lemma_scan_keyword(s);
        },
        _ => {
            // punctuation and operators: one or two characters, never
            // letters or digits, so the scanner's dispatch is direct
            assert(ws_end(s, 0) == 0);
            assert(ws_end(s, s.len() as int) == s.len() as int);
        },
    }
}

/// Helper: an all-letter text scans as one word covering the whole text.
proof fn lemma_scan_keyword(s: Seq<char>)
    requires
        s.len() >= 1,
        forall|i: int| 0 <= i < s.len() ==> crate::scanner::is_alpha(#[trigger] s[i]),
    ensures
        scan_from(s, 0).kind == keyword_kind(s),
        scan_from(s, 0).start == 0,
        scan_from(s, 0).end == s.len(),
        scan_from(s, s.len() as int).kind is Eof,
{
    assert(ws_end(s, 0) == 0);
    lemma_alpha_end_full(s, 1);
    assert(s.subrange(0, s.len() as int) =~= s);
    assert(ws_end(s, s.len() as int) == s.len() as int);
}

/// Helper: the letter run over an all-letter text reaches its end.
proof fn lemma_alpha_end_full(s: Seq<char>, i: int)
    requires
        0 <= i <= s.len(),
        forall|k: int| 0 <= k < s.len() ==> crate::scanner::is_alpha(#[trigger] s[k]),
    ensures
        alpha_end(s, i) == s.len(),
    decreases s.len() - i,
{
    if i < s.len() {
        lemma_alpha_end_full(s, i + 1);
    }
}

/// Once the source is exhausted, scanning yields the end-of-input token
/// forever: it stands at the end and consumes nothing.
pub proof fn lemma_eof_idempotent(s: Seq<char>)
    ensures
        scan_from(s, s.len() as int).kind is Eof,
        scan_from(s, s.len() as int).start == s.len(),
        scan_from(s, s.len() as int).end == s.len(),
{
    assert(ws_end(s, s.len() as int) == s.len() as int);
}

/// A string literal that reaches end of input before a closing quote scans
/// to the "Unterminated string" error token, never to anything else (and,
/// the scanner being verified panic-free, never to a crash).
pub proof fn lemma_unterminated_string(s: Seq<char>, i: int)
    requires
        0 <= i <= s.len(),
        ({
            let j = ws_end(s, i);
            &&& j < s.len()
            &&& s[j] == '"'
            &&& forall|k: int| j < k < s.len() ==> s[k] != '"'
        }),
    ensures
        scan_from(s, i).kind == TokenKind::Error("Unterminated string"@),
{
    lemma_ws_end_bounds(s, i);
    let j = ws_end(s, i);
    lemma_quote_end_bounds(s, j + 1);
    let q = quote_end(s, j + 1);
    if q < s.len() {
        assert(s[q] == '"');
        assert(false);
    }
}

/// Mixed integer/float arithmetic always promotes the integer operand and
/// yields a float, for every arithmetic operator.
pub proof fn lemma_mixed_arithmetic_promotes(x: i64, q: u64)
    ensures
        val_add(ValueView::Int(x), ValueView::Float(q)) == Ok::<ValueView, FaultKind>(
            ValueView::Float(float_add(float_of_int(x), q)),
        ),
        val_add(ValueView::Float(q), ValueView::Int(x)) == Ok::<ValueView, FaultKind>(
            ValueView::Float(float_add(q, float_of_int(x))),
        ),
        val_sub(ValueView::Int(x), ValueView::Float(q)) == Ok::<ValueView, FaultKind>(
            ValueView::Float(float_sub(float_of_int(x), q)),
        ),
        val_sub(ValueView::Float(q), ValueView::Int(x)) == Ok::<ValueView, FaultKind>(
            ValueView::Float(float_sub(q, float_of_int(x))),
        ),
        val_mul(ValueView::Int(x), ValueView::Float(q)) == Ok::<ValueView, FaultKind>(
            ValueView::Float(float_mul(float_of_int(x), q)),
        ),
        val_mul(ValueView::Float(q), ValueView::Int(x)) == Ok::<ValueView, FaultKind>(
            ValueView::Float(float_mul(q, float_of_int(x))),
        ),
        val_div(ValueView::Int(x), ValueView::Float(q)) == Ok::<ValueView, FaultKind>(
            ValueView::Float(float_div(float_of_int(x), q)),
        ),
        val_div(ValueView::Float(q), ValueView::Int(x)) == Ok::<ValueView, FaultKind>(
            ValueView::Float(float_div(q, float_of_int(x))),
        ),
{
}

/// Adding two strings concatenates them; adding a string to any value of
/// another kind is a reported type fault, on either side.
pub proof fn lemma_string_concat(s: Seq<char>, t: Seq<char>, v: ValueView)
    requires
        !(v matches ValueView::Str(_)),
    ensures
        val_add(ValueView::Str(s), ValueView::Str(t)) == Ok::<ValueView, FaultKind>(
            ValueView::Str(s + t),
        ),
        val_add(ValueView::Str(s), v) == Err::<ValueView, FaultKind>(FaultKind::AddType),
        val_add(v, ValueView::Str(s)) == Err::<ValueView, FaultKind>(FaultKind::AddType),
{
}

/// Comparison complements: for any operand expressions, `l >= r` evaluates
/// exactly as `!(l < r)`, and `l <= r` exactly as `!(l > r)` — whether the
/// operands are numeric (the comparison is complemented), incomparable
/// (both sides raise the same fault), or themselves faulting.
pub proof fn lemma_comparison_complement(l: Expr, r: Expr)
    ensures
        eval(Expr::Binary(BinOp::Ge, Box::new(l), Box::new(r))) == eval(
            Expr::Unary(UnOp::Not, Box::new(Expr::Binary(BinOp::Lt, Box::new(l), Box::new(r)))),
        ),
        eval(Expr::Binary(BinOp::Le, Box::new(l), Box::new(r))) == eval(
            Expr::Unary(UnOp::Not, Box::new(Expr::Binary(BinOp::Gt, Box::new(l), Box::new(r)))),
        ),
{
    let ge = Expr::Binary(BinOp::Ge, Box::new(l), Box::new(r));
    let lt = Expr::Binary(BinOp::Lt, Box::new(l), Box::new(r));
    let nlt = Expr::Unary(UnOp::Not, Box::new(lt));
    let le = Expr::Binary(BinOp::Le, Box::new(l), Box::new(r));
    let gt = Expr::Binary(BinOp::Gt, Box::new(l), Box::new(r));
    let ngt = Expr::Unary(UnOp::Not, Box::new(gt));
    match eval(l) {
        Ok(lv) => {
            match eval(r) {
                Ok(rv) => {
                    assert(eval(ge) == bin_eval(BinOp::Ge, lv, rv));
                    assert(eval(lt) == bin_eval(BinOp::Lt, lv, rv));
                    assert(eval(le) == bin_eval(BinOp::Le, lv, rv));
                    assert(eval(gt) == bin_eval(BinOp::Gt, lv, rv));
                    assert(eval(nlt) == match eval(lt) {
                        Ok(v) => val_not(v),
                        Err(k) => Err(k),
                    });
                    assert(eval(ngt) == match eval(gt) {
                        Ok(v) => val_not(v),
                        Err(k) => Err(k),
                    });
                    match val_lt(lv, rv) {
                        Ok(b) => {
                            assert(val_not(ValueView::Bool(b)) == Ok::<ValueView, FaultKind>(
                                ValueView::Bool(!b),
                            ));
                        },
                        Err(k) => {},
                    }
                    match val_lt(rv, lv) {
                        Ok(b) => {
                            assert(val_not(ValueView::Bool(b)) == Ok::<ValueView, FaultKind>(
                                ValueView::Bool(!b),
                            ));
                        },
                        Err(k) => {},
                    }
                },
                Err(k) => {
                    assert(eval(ge) == Err::<ValueView, FaultKind>(k));
                    assert(eval(lt) == Err::<ValueView, FaultKind>(k));
                    assert(eval(nlt) == Err::<ValueView, FaultKind>(k));
                },
            }
        },
        Err(k) => {
            assert(eval(ge) == Err::<ValueView, FaultKind>(k));
            assert(eval(lt) == Err::<ValueView, FaultKind>(k));
            assert(eval(nlt) == Err::<ValueView, FaultKind>(k));
        },
    }
}

/// Unary negation is an involution on numeric values: whenever negating a
/// value is defined (it faults only on the smallest integer), negating the
/// result gives back the original value.
pub proof fn lemma_negation_involution(v: ValueView)
    requires
        val_neg(v) is Ok,
    ensures
        val_neg(v) matches Ok(w) && val_neg(w) == Ok::<ValueView, FaultKind>(v),
{
    match v {
        ValueView::Int(x) => {
            assert(x != i64::MIN);
        },
        ValueView::Float(b) => {
            assert(float_neg(float_neg(b)) == b) by {
                assert((b ^ 0x8000_0000_0000_0000) ^ 0x8000_0000_0000_0000 == b) by (bit_vector);
            }
        },
        _ => {},
    }
}

/// The same involution through the language's own logical-not on integers
/// (`!` negates integers arithmetically, as negation does).
pub proof fn lemma_not_involution_int(x: i64)
    requires
        x != i64::MIN,
    ensures
        val_not(ValueView::Int(x)) matches Ok(w) && val_not(w) == Ok::<ValueView, FaultKind>(
            ValueView::Int(x),
        ),
{
}

} // verus!
