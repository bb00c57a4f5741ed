//! The single-pass Pratt compiler.
//!
//! The grammar is specified by three mutually recursive functions over the
//! source text: [`sp_prefix`] (prefix rules: literals, grouping, unary
//! operators), [`sp_infix`] (the precedence-climbing loop over infix
//! operators) and [`sp_prec`]; [`parse_src`] is a whole source text parsed
//! as one expression followed by end of input.  The executable
//! [`Parser`] walks the token stream once, emitting instructions directly
//! into a chunk, and its contract ties it to this specification: it
//! succeeds exactly when the specification parses the source and the
//! constant pool does not overflow, and the emitted code then computes
//! exactly the parsed expression's evaluation.
use crate::chunk::{Chunk, Opcode};
use crate::error::Compile;
use crate::expr::{eval, n_consts, BinOp, Expr};
use crate::float::{decimal_lexeme, f64_of_dec, is_digit_char};
use crate::precedence::{prec_rank, Precedence};
use crate::scanner::{scan_from, Cursor};
use crate::semantics::{bin_opcodes, computes, consts_below, no_return, un_opcode};
use crate::strings::str_eq;
use crate::token::{Token, TokenKind, TokenType};
use crate::value::Value;
use vstd::prelude::*;
use vstd::string::StrSliceExecFns;
use vstd::string::StringExecFns;

verus! {

/// The infix binding power of a token kind (0 = no infix rule).
pub open spec fn infix_rank(k: TokenKind) -> int {
    match k {
        TokenKind::Minus | TokenKind::Plus => 6,  // Term
        TokenKind::Slash | TokenKind::Star => 7,  // Factor
        TokenKind::BangEqual | TokenKind::EqualEqual => 4,  // Equality
        TokenKind::Greater | TokenKind::GreaterEqual | TokenKind::Less
            | TokenKind::LessEqual => 5,  // Comparison
        _ => 0,
    }
}

/// The binary operator an infix token denotes.
pub open spec fn bin_op_of(k: TokenKind) -> BinOp {
    match k {
        TokenKind::Minus => BinOp::Sub,
        TokenKind::Plus => BinOp::Add,
        TokenKind::Slash => BinOp::Div,
        TokenKind::Star => BinOp::Mul,
        TokenKind::BangEqual => BinOp::Ne,
        TokenKind::EqualEqual => BinOp::Eq,
        TokenKind::Greater => BinOp::Gt,
        TokenKind::GreaterEqual => BinOp::Ge,
        TokenKind::Less => BinOp::Lt,
        TokenKind::LessEqual => BinOp::Le,
        _ => BinOp::Add,
    }
}

/// A successful parse: the expression, and the position at which the next
/// (unconsumed) token starts being scanned.
pub struct ParseOut {
    pub e: Expr,
    pub j: int,
}

/// The prefix step: parses the token at `i` as the start of an expression
/// (a literal, a grouping, or a unary operator applied to an operand at
/// `Unary` precedence).  The bound guards never fire for real scans; they
/// make the recursion well-founded by construction.
pub open spec fn sp_prefix(s: Seq<char>, i: int) -> Option<ParseOut>
    decreases s.len() - i, 1int,
{
    let st = scan_from(s, i);
    if st.end <= i || st.end > s.len() {
        None
    } else {
        match st.kind {
            TokenKind::Number(d) => Some(ParseOut { e: Expr::Num(d), j: st.end }),
            TokenKind::StrLit(c) => Some(ParseOut { e: Expr::StrLit(c), j: st.end }),
            TokenKind::True => Some(ParseOut { e: Expr::True, j: st.end }),
            TokenKind::False => Some(ParseOut { e: Expr::False, j: st.end }),
            TokenKind::Nil => Some(ParseOut { e: Expr::Nil, j: st.end }),
            TokenKind::OpenParen => match sp_prec(s, st.end, 1) {
                Some(out) => {
                    let st2 = scan_from(s, out.j);
                    if st2.kind is CloseParen {
                        Some(ParseOut { e: out.e, j: st2.end })
                    } else {
                        None
                    }
                },
                None => None,
            },
            TokenKind::Minus => match sp_prec(s, st.end, 8) {
                Some(out) => Some(
                    ParseOut { e: Expr::Unary(crate::expr::UnOp::Neg, Box::new(out.e)), j: out.j },
                ),
                None => None,
            },
            TokenKind::Bang => match sp_prec(s, st.end, 8) {
                Some(out) => Some(
                    ParseOut { e: Expr::Unary(crate::expr::UnOp::Not, Box::new(out.e)), j: out.j },
                ),
                None => None,
            },
            _ => None,
        }
    }
}

/// The infix loop: while the token at `i` is an infix operator binding at
/// least as tightly as `min_prec`, consume it, parse its right operand one
/// level tighter, and fold it into `left` (hence left associativity).
pub open spec fn sp_infix(s: Seq<char>, i: int, min_prec: int, left: Expr) -> Option<ParseOut>
    decreases s.len() - i, 0int,
{
    let st = scan_from(s, i);
    let pr = infix_rank(st.kind);
    if pr >= min_prec && pr > 0 {
        if st.end <= i || st.end > s.len() {
            None
        } else {
            match sp_prec(s, st.end, pr + 1) {
                Some(out) => {
                    let e2 = Expr::Binary(bin_op_of(st.kind), Box::new(left), Box::new(out.e));
                    if out.j <= i || out.j > s.len() {
                        None
                    } else {
                        sp_infix(s, out.j, min_prec, e2)
                    }
                },
                None => None,
            }
        }
    } else {
        Some(ParseOut { e: left, j: i })
    }
}

/// Precedence climbing from position `i`: one prefix step, then the infix
/// loop at `min_prec`.
pub open spec fn sp_prec(s: Seq<char>, i: int, min_prec: int) -> Option<ParseOut>
    decreases s.len() - i, 2int,
{
    match sp_prefix(s, i) {
        Some(out) => if out.j <= i || out.j > s.len() {
            None
        } else {
            sp_infix(s, out.j, min_prec, out.e)
        },
        None => None,
    }
}

/// A whole source text parsed as a single expression followed by end of
/// input.
pub open spec fn parse_src(s: Seq<char>) -> Option<Expr> {
    match sp_prec(s, 0, 1) {
        Some(out) => if scan_from(s, out.j).kind is Eof {
            Some(out.e)
        } else {
            None
        },
        None => None,
    }
}

/// A successful prefix step consumes at least one token.
pub proof fn lemma_sp_prefix_bounds(s: Seq<char>, i: int)
    requires
        0 <= i <= s.len(),
    ensures
        sp_prefix(s, i) matches Some(out) ==> i < out.j <= s.len(),
    decreases s.len() - i, 1int,
{
    let st = scan_from(s, i);
    if st.end <= i || st.end > s.len() {
    } else {
        match st.kind {
            TokenKind::OpenParen => {
                lemma_sp_prec_bounds(s, st.end, 1);
                match sp_prec(s, st.end, 1) {
                    Some(out) => {
                        crate::scanner::lemma_scan_bounds(s, out.j);
                    },
                    None => {},
                }
            },
            TokenKind::Minus => {
                lemma_sp_prec_bounds(s, st.end, 8);
            },
            TokenKind::Bang => {
                lemma_sp_prec_bounds(s, st.end, 8);
            },
            _ => {},
        }
    }
}

/// The infix loop never moves backwards.
pub proof fn lemma_sp_infix_bounds(s: Seq<char>, i: int, min_prec: int, left: Expr)
    requires
        0 <= i <= s.len(),
    ensures
        sp_infix(s, i, min_prec, left) matches Some(out) ==> i <= out.j <= s.len(),
    decreases s.len() - i, 0int,
{
    let st = scan_from(s, i);
    let pr = infix_rank(st.kind);
    if pr >= min_prec && pr > 0 {
        if st.end <= i || st.end > s.len() {
        } else {
            lemma_sp_prec_bounds(s, st.end, pr + 1);
            match sp_prec(s, st.end, pr + 1) {
                Some(out) => {
                    let e2 = Expr::Binary(bin_op_of(st.kind), Box::new(left), Box::new(out.e));
                    if out.j <= i || out.j > s.len() {
                    } else {
                        lemma_sp_infix_bounds(s, out.j, min_prec, e2);
                    }
                },
                None => {},
            }
        }
    }
}

/// A successful precedence climb consumes at least one token.
pub proof fn lemma_sp_prec_bounds(s: Seq<char>, i: int, min_prec: int)
    requires
        0 <= i <= s.len(),
    ensures
        sp_prec(s, i, min_prec) matches Some(out) ==> i < out.j <= s.len(),
    decreases s.len() - i, 2int,
{
    lemma_sp_prefix_bounds(s, i);
    match sp_prefix(s, i) {
        Some(out) => {
            if out.j <= i || out.j > s.len() {
            } else {
                lemma_sp_infix_bounds(s, out.j, min_prec, out.e);
            }
        },
        None => {},
    }
}


/// What kind of prefix rule a token has.
#[derive(Debug, Clone, Copy, PartialEq, Eq, Structural)]
pub enum PrefixRule {
    Grouping,
    Unary,
    Number,
    Literal,
    Text,
}

/// What kind of infix rule a token has.
#[derive(Debug, Clone, Copy, PartialEq, Eq, Structural)]
pub enum InfixRule {
    Binary,
}

/// The prefix rule of a token kind.
pub open spec fn prefix_rule_of(k: TokenKind) -> Option<PrefixRule> {
    match k {
        TokenKind::OpenParen => Some(PrefixRule::Grouping),
        TokenKind::Minus | TokenKind::Bang => Some(PrefixRule::Unary),
        TokenKind::Number(_) => Some(PrefixRule::Number),
        TokenKind::True | TokenKind::False | TokenKind::Nil => Some(PrefixRule::Literal),
        TokenKind::StrLit(_) => Some(PrefixRule::Text),
        _ => None,
    }
}

/// One row of the rule table: the token's prefix rule, infix rule, and
/// infix precedence.
#[derive(Debug, Clone, Copy)]
pub struct ParseRule {
    pub prefix: Option<PrefixRule>,
    pub infix: Option<InfixRule>,
    pub precedence: Precedence,
}

impl ParseRule {
    /// The rule-table row for a token kind.
    pub fn get_rule(kind: TokenType) -> (r: ParseRule)
        ensures
            r.prefix == prefix_rule_of(kind@),
            r.infix is Some <==> infix_rank(kind@) != 0,
            prec_rank(r.precedence) == infix_rank(kind@),
    {
        match kind {
            TokenType::OpenParen => ParseRule {
                prefix: Some(PrefixRule::Grouping),
                infix: None,
                precedence: Precedence::NoPrec,
            },
            TokenType::Minus => ParseRule {
                prefix: Some(PrefixRule::Unary),
                infix: Some(InfixRule::Binary),
                precedence: Precedence::Term,
            },
            TokenType::Plus => ParseRule {
                prefix: None,
                infix: Some(InfixRule::Binary),
                precedence: Precedence::Term,
            },
            TokenType::Slash | TokenType::Star => ParseRule {
                prefix: None,
                infix: Some(InfixRule::Binary),
                precedence: Precedence::Factor,
            },
            TokenType::Bang => ParseRule {
                prefix: Some(PrefixRule::Unary),
                infix: None,
                precedence: Precedence::NoPrec,
            },
            TokenType::BangEqual | TokenType::EqualEqual => ParseRule {
                prefix: None,
                infix: Some(InfixRule::Binary),
                precedence: Precedence::Equality,
            },
            TokenType::Greater | TokenType::GreaterEqual | TokenType::Less
                | TokenType::LessEqual => ParseRule {
                prefix: None,
                infix: Some(InfixRule::Binary),
                precedence: Precedence::Comparison,
            },
            TokenType::String(_) => ParseRule {
                prefix: Some(PrefixRule::Text),
                infix: None,
                precedence: Precedence::NoPrec,
            },
            TokenType::Number(_) => ParseRule {
                prefix: Some(PrefixRule::Number),
                infix: None,
                precedence: Precedence::NoPrec,
            },
            TokenType::Nil | TokenType::True | TokenType::False => ParseRule {
                prefix: Some(PrefixRule::Literal),
                infix: None,
                precedence: Precedence::NoPrec,
            },
            _ => ParseRule { prefix: None, infix: None, precedence: Precedence::NoPrec },
        }
    }
}

/// The single-pass compiler: a cursor, one token of lookahead, the sticky
/// error flags of panic-mode recovery, and the first diagnostic.
/// `look` is the source position the lookahead token was scanned from.
pub struct Parser<'src> {
    pub cursor: Cursor<'src>,
    pub current: Token<'src>,
    pub previous: Token<'src>,
    pub had_error: bool,
    pub panic_mode: bool,
    pub err: Option<Compile>,
    pub look: Ghost<int>,
}

impl<'src> Parser<'src> {
    /// The parts of the invariant that do not involve the lookahead token.
    pub open spec fn wf0(&self) -> bool {
        &&& self.cursor.wf()
        &&& 0 <= self.look@ <= self.cursor.source@.len()
        &&& (self.err is Some <==> self.had_error)
        &&& self.panic_mode == self.had_error
    }

    /// The parser's invariant: on top of [`Parser::wf0`], the lookahead
    /// token is exactly the token scanned at `look`, it is never an error
    /// token, and the cursor stands at its end.
    pub open spec fn wf(&self) -> bool {
        let src = self.cursor.source@;
        &&& self.wf0()
        &&& scan_from(src, self.look@).kind == self.current.kind@
        &&& scan_from(src, self.look@).end == self.cursor.pos as int
        &&& !(self.current.kind@ is Error)
    }

    /// Records an error at a token (suppressed while in panic mode, so only
    /// the first error of a compilation is kept).
    fn error_at(&mut self, token: Token<'src>, msg: &str)
        requires
            old(self).wf0(),
        ensures
            final(self).wf0(),
            final(self).cursor == old(self).cursor,
            final(self).current == old(self).current,
            final(self).previous == old(self).previous,
            final(self).look == old(self).look,
            final(self).had_error,
            old(self).had_error ==> final(self).err == old(self).err,
    {
        if self.panic_mode {
            return ;
        }
        self.panic_mode = true;
        self.had_error = true;
        let at: &str = match token.kind {
            TokenType::Error(_) => "",
            _ => token.kind.as_str(),
        };
        self.err = Some(Compile { msg: msg.to_owned(), line: token.line(), at: at.to_owned() });
    }

    /// Records an error at the lookahead token.
    fn error_at_current(&mut self, msg: &str)
        requires
            old(self).wf0(),
        ensures
            final(self).wf0(),
            final(self).cursor == old(self).cursor,
            final(self).current == old(self).current,
            final(self).previous == old(self).previous,
            final(self).look == old(self).look,
            final(self).had_error,
            old(self).had_error ==> final(self).err == old(self).err,
    {
        let tok = self.current;
        self.error_at(tok, msg);
    }

    /// Records an error at the last consumed token.
    fn error(&mut self, msg: &str)
        requires
            old(self).wf0(),
        ensures
            final(self).wf0(),
            final(self).cursor == old(self).cursor,
            final(self).current == old(self).current,
            final(self).previous == old(self).previous,
            final(self).look == old(self).look,
            final(self).had_error,
            old(self).had_error ==> final(self).err == old(self).err,
    {
        let tok = self.previous;
        self.error_at(tok, msg);
    }

    /// Moves the lookahead one token forward, reporting (and skipping) any
    /// error tokens the scanner yields on the way.
    fn advance(&mut self)
        requires
            old(self).wf0(),
        ensures
            final(self).wf(),
            final(self).cursor.source == old(self).cursor.source,
            final(self).cursor.len == old(self).cursor.len,
            final(self).previous == old(self).current,
            old(self).had_error ==> final(self).had_error,
            old(self).had_error ==> final(self).err == old(self).err,
            final(self).look@ >= old(self).cursor.pos as int,
            !final(self).had_error ==> (!old(self).had_error && final(self).look@ == old(
                self,
            ).cursor.pos as int),
            (!old(self).had_error && !(scan_from(
                old(self).cursor.source@,
                old(self).cursor.pos as int,
            ).kind is Error)) ==> (!final(self).had_error && final(self).look@ == old(
                self,
            ).cursor.pos as int),
            scan_from(old(self).cursor.source@, old(self).cursor.pos as int).kind is Error
                ==> final(self).had_error,
    {
        self.previous = self.current;
        let ghost src = self.cursor.source@;
        loop
            invariant_except_break
                !self.had_error ==> (!old(self).had_error && self.cursor.pos == old(
                    self,
                ).cursor.pos),
                (!old(self).had_error && !(scan_from(
                    src,
                    old(self).cursor.pos as int,
                ).kind is Error)) ==> (!self.had_error && self.cursor.pos == old(
                    self,
                ).cursor.pos),
            invariant
                self.cursor.wf(),
                src == self.cursor.source@,
                self.cursor.source == old(self).cursor.source,
                self.cursor.len == old(self).cursor.len,
                0 <= self.look@ <= src.len(),
                self.previous == old(self).current,
                self.err is Some <==> self.had_error,
                self.panic_mode == self.had_error,
                old(self).had_error ==> self.had_error,
                old(self).had_error ==> self.err == old(self).err,
                old(self).cursor.pos <= self.cursor.pos,
            ensures
                self.cursor.wf(),
                self.cursor.source == old(self).cursor.source,
                self.cursor.len == old(self).cursor.len,
                self.previous == old(self).current,
                self.err is Some <==> self.had_error,
                self.panic_mode == self.had_error,
                old(self).had_error ==> self.had_error,
                old(self).had_error ==> self.err == old(self).err,
                0 <= self.look@ <= src.len(),
                scan_from(src, self.look@).kind == self.current.kind@,
                scan_from(src, self.look@).end == self.cursor.pos as int,
                !(self.current.kind@ is Error),
                self.look@ >= old(self).cursor.pos as int,
                !self.had_error ==> (!old(self).had_error && self.look@ == old(
                    self,
                ).cursor.pos as int),
                scan_from(src, old(self).cursor.pos as int).kind is Error ==> self.had_error,
                (!old(self).had_error && !(scan_from(
                    src,
                    old(self).cursor.pos as int,
                ).kind is Error)) ==> (!self.had_error && self.look@ == old(
                    self,
                ).cursor.pos as int),
            decreases self.cursor.len - self.cursor.pos,
        {
            let ghost p = self.cursor.pos as int;
            let t = self.cursor.advance();
            proof {
                crate::scanner::lemma_scan_bounds(src, p);
            }
            if matches!(t.kind, TokenType::Error(_)) {
                let m = t.lexeme();
                self.error_at(t, m);
            } else {
                self.current = t;
                self.look = Ghost(p);
                break ;
            }
        }
    }
}


/// Bookkeeping preserved by every step of a parse: the parser invariant,
/// the source, append-only growth of the chunk, stickiness of the error
/// flag, suppression of later diagnostics, and forward motion.
pub open spec fn preserved<'a>(p0: Parser<'a>, p1: Parser<'a>, c0: Chunk, c1: Chunk) -> bool {
    &&& p1.wf()
    &&& p1.cursor.source == p0.cursor.source
    &&& p1.cursor.len == p0.cursor.len
    &&& c1.wf()
    &&& c0.code@.is_prefix_of(c1.code@)
    &&& c0.consts().is_prefix_of(c1.consts())
    &&& (p0.had_error ==> p1.had_error)
    &&& (p0.had_error ==> p1.err == p0.err)
    &&& p0.look@ <= p1.look@
}

/// A clean parse step: the ghost result is the specification's expression,
/// the lookahead stands where the specification resumes, and the emitted
/// instructions compute the expression against the final constant pool,
/// which grew by exactly the expression's literals.
pub open spec fn parsed_ok<'a>(p1: Parser<'a>, c0: Chunk, c1: Chunk, o: ParseOut, g: Expr) -> bool {
    let f = c1.code@.skip(c0.code@.len() as int);
    &&& g == o.e
    &&& p1.look@ == o.j
    &&& c1.code@ == c0.code@ + f
    &&& no_return(f)
    &&& consts_below(f, c1.consts().len() as int)
    &&& computes(f, c1.consts(), o.e)
    &&& c1.consts().len() == c0.consts().len() + n_consts(o.e)
}

/// The infix loop only adds to the constants of its accumulated left
/// operand.
pub proof fn lemma_sp_infix_n_consts(s: Seq<char>, i: int, min_prec: int, left: Expr)
    ensures
        sp_infix(s, i, min_prec, left) matches Some(out) ==> n_consts(out.e) >= n_consts(left),
    decreases s.len() - i, 0int,
{
    let st = scan_from(s, i);
    let pr = infix_rank(st.kind);
    if pr >= min_prec && pr > 0 {
        if st.end <= i || st.end > s.len() {
        } else {
            match sp_prec(s, st.end, pr + 1) {
                Some(out) => {
                    let e2 = Expr::Binary(bin_op_of(st.kind), Box::new(left), Box::new(out.e));
                    if out.j <= i || out.j > s.len() {
                    } else {
                        lemma_sp_infix_n_consts(s, out.j, min_prec, e2);
                        crate::expr::lemma_n_consts_nonneg(out.e);
                    }
                },
                None => {},
            }
        }
    }
}

/// The right operand's literals count toward the whole climb's literals.
pub proof fn lemma_sp_prec_n_consts(s: Seq<char>, i: int, min_prec: int)
    ensures
        sp_prec(s, i, min_prec) matches Some(out) ==> (sp_prefix(s, i) matches Some(o1)
            && n_consts(out.e) >= n_consts(o1.e)),
{
    match sp_prefix(s, i) {
        Some(o1) => {
            if o1.j <= i || o1.j > s.len() {
            } else {
                lemma_sp_infix_n_consts(s, o1.j, min_prec, o1.e);
            }
        },
        None => {},
    }
}

/// The decimal value of an all-digit lexeme, when it fits in an `i64`.
fn parse_int_lexeme(s: &str) -> (r: Option<i64>)
    ensures
        r matches Some(v) ==> crate::expr::is_int_lexeme(s@) && crate::expr::digits_val(s@)
            <= i64::MAX && v as int == crate::expr::digits_val(s@),
        r is None ==> !(crate::expr::is_int_lexeme(s@) && crate::expr::digits_val(s@)
            <= i64::MAX),
{
    let n = s.unicode_len();
    let mut i: usize = 0;
    let mut acc: i64 = 0;
    proof {
        assert(s@.take(0) =~= Seq::<char>::empty());
    }
    while i < n
        invariant
            n == s@.len(),
            0 <= i <= n,
            acc >= 0,
            acc as int == crate::expr::digits_val(s@.take(i as int)),
            forall|k: int| 0 <= k < i ==> is_digit_char(#[trigger] s@[k]),
        decreases n - i,
    {
        let c = s.get_char(i);
        if !('0' <= c && c <= '9') {
            return None;
        }
        let d: i64 = ((c as u32) - ('0' as u32)) as i64;
        proof {
            crate::expr::lemma_digits_val_take_step(s@, i as int);
        }
        let acc10 = match acc.checked_mul(10) {
            Some(x) => x,
            None => {
                proof {
                    if crate::expr::is_int_lexeme(s@) {
                        crate::expr::lemma_digits_val_mono(s@, i as int + 1);
                    }
                }
                return None;
            },
        };
        acc = match acc10.checked_add(d) {
            Some(y) => y,
            None => {
                proof {
                    if crate::expr::is_int_lexeme(s@) {
                        crate::expr::lemma_digits_val_mono(s@, i as int + 1);
                    }
                }
                return None;
            },
        };
        i = i + 1;
    }
    proof {
        assert(s@.take(n as int) =~= s@);
    }
    Some(acc)
}

/// The runtime value a number lexeme denotes, per [`num_value`]: an
/// integer when it is all digits and fits, else the correctly rounded
/// float.  `None` only for text that is not a decimal lexeme, which the
/// scanner never produces for a number token.
fn number_value(lex: &str) -> (r: Option<Value>)
    ensures
        r matches Some(v) ==> v@ == crate::expr::num_value(lex@),
        decimal_lexeme(lex@) ==> r is Some,
{
    match parse_int_lexeme(lex) {
        Some(i) => Some(Value::Int(i)),
        None => match f64_of_dec(lex) {
            Some(bits) => Some(Value::Float(bits)),
            None => None,
        },
    }
}


impl<'src> Parser<'src> {
    /// Appends one instruction, recording the line of the last consumed
    /// token.
    fn emit_byte(&self, chunk: &mut Chunk, byte: Opcode)
        requires
            old(chunk).wf(),
            byte matches Opcode::Constant(c) ==> (c as int) < old(chunk).constants@.len(),
        ensures
            final(chunk).wf(),
            final(chunk).code@ == old(chunk).code@.push(byte),
            final(chunk).constants == old(chunk).constants,
            final(chunk).consts() == old(chunk).consts(),
    {
        chunk.write(byte, self.previous.line());
        proof {
            assert forall|i: int| 0 <= i < chunk.code@.len() implies ((#[trigger] chunk.code@[i])
                matches Opcode::Constant(c) ==> (c as int) < chunk.constants@.len()) by {
                if i < chunk.code@.len() - 1 {
                    assert(chunk.code@[i] == old(chunk).code@[i]);
                }
            }
        }
    }

    /// Appends two instructions with the same line.
    fn emit_bytes(&self, chunk: &mut Chunk, b1: Opcode, b2: Opcode)
        requires
            old(chunk).wf(),
            !(b1 is Constant),
            !(b2 is Constant),
        ensures
            final(chunk).wf(),
            final(chunk).code@ == old(chunk).code@.push(b1).push(b2),
            final(chunk).constants == old(chunk).constants,
            final(chunk).consts() == old(chunk).consts(),
    {
        self.emit_byte(chunk, b1);
        self.emit_byte(chunk, b2);
    }

    /// Appends the `Return` that ends a compiled unit.
    fn emit_return(&self, chunk: &mut Chunk)
        requires
            old(chunk).wf(),
        ensures
            final(chunk).wf(),
            final(chunk).code@ == old(chunk).code@.push(Opcode::Return),
            final(chunk).constants == old(chunk).constants,
            final(chunk).consts() == old(chunk).consts(),
    {
        self.emit_byte(chunk, Opcode::Return);
    }

    /// Appends a constant to the pool and the instruction that loads it;
    /// reports an error when the pool is full (256 entries).
    fn emit_constant(&mut self, chunk: &mut Chunk, value: Value)
        requires
            old(self).wf(),
            old(chunk).wf(),
        ensures
            final(self).wf(),
            final(self).cursor == old(self).cursor,
            final(self).current == old(self).current,
            final(self).previous == old(self).previous,
            final(self).look == old(self).look,
            old(self).had_error ==> final(self).err == old(self).err,
            old(self).had_error ==> final(self).had_error,
            final(chunk).wf(),
            old(chunk).constants@.len() < 256 ==> {
                &&& *final(self) == *old(self)
                &&& final(chunk).code@ == old(chunk).code@.push(
                    Opcode::Constant((old(chunk).constants@.len() as u8)),
                )
                &&& final(chunk).consts() == old(chunk).consts().push(value@)
            },
            old(chunk).constants@.len() >= 256 ==> {
                &&& *final(chunk) == *old(chunk)
                &&& final(self).had_error
            },
    {
        proof {
            assert(old(chunk).consts().len() == old(chunk).constants@.len());
        }
        match chunk.add_constant(value) {
            Some(idx) => {
                proof {
                    assert forall|i: int| 0 <= i < chunk.code@.len() implies ((
                    #[trigger] chunk.code@[i]) matches Opcode::Constant(c) ==> (c as int)
                        < chunk.constants@.len()) by {}
                }
                self.emit_byte(chunk, Opcode::Constant(idx));
            },
            None => {
                self.error("Too many constants in one chunk.");
            },
        }
    }

    /// Prefix rule for number literals: the value of the lexeme of the
    /// token just consumed, loaded from the constant pool.
    fn number(&mut self, chunk: &mut Chunk, Ghost(p0): Ghost<int>) -> (g: Ghost<Expr>)
        requires
            old(self).wf(),
            old(chunk).wf(),
            0 <= p0 <= old(self).cursor.source@.len(),
            scan_from(old(self).cursor.source@, p0).kind matches TokenKind::Number(_),
            old(self).previous.kind@ == scan_from(old(self).cursor.source@, p0).kind,
            !old(self).had_error ==> scan_from(old(self).cursor.source@, p0).end == old(
                self,
            ).look@,
        ensures
            preserved(*old(self), *final(self), *old(chunk), *final(chunk)),
            final(self).look == old(self).look,
            (match sp_prefix(old(self).cursor.source@, p0) {
                Some(o) => (!old(self).had_error && old(chunk).consts().len() + n_consts(o.e)
                    <= 256) ==> (!final(self).had_error || scan_from(
                    old(self).cursor.source@,
                    o.j,
                ).kind is Error),
                None => true,
            }),
            !final(self).had_error ==> (sp_prefix(old(self).cursor.source@, p0) matches Some(o)
                && parsed_ok(*final(self), *old(chunk), *final(chunk), o, g@)),
    {
        let ghost src = self.cursor.source@;
        let ghost c0 = *chunk;
        proof {
            crate::scanner::lemma_scan_bounds(src, p0);
            crate::scanner::lemma_scan_number_lexeme(src, p0);
        }
        let lex: &'src str = match self.previous.kind {
            TokenType::Number(s) => s,
            _ => {
                proof {
                    assert(false);
                }
                ""
            },
        };
        let g = Ghost(Expr::Num(lex@));
        match number_value(lex) {
            Some(v) => {
                let ghost vv = v@;
                self.emit_constant(chunk, v);
                proof {
                    if c0.constants@.len() < 256 {
                        let f = chunk.code@.skip(c0.code@.len() as int);
                        assert(f =~= seq![Opcode::Constant((c0.constants@.len() as u8))]);
                        assert(chunk.code@ =~= c0.code@ + f);
                        assert(chunk.consts()[c0.consts().len() as int] == vv);
                        assert(eval(g@) == Ok::<crate::value::ValueView, crate::error::FaultKind>(
                            vv,
                        ));
                        assert forall|st: Seq<crate::value::ValueView>| #[trigger]
                            crate::semantics::step1(f[0], chunk.consts(), st) == Ok::<
                            Seq<crate::value::ValueView>,
                            crate::error::FaultKind,
                        >(st.push(vv)) by {}
                        crate::semantics::lemma_computes_single(f[0], chunk.consts(), g@, vv);
                        assert(computes(f, chunk.consts(), g@));
                        assert(c0.consts().is_prefix_of(chunk.consts()));
                    }
                }
            },
            None => {
                proof {
                    assert(false);
                }
            },
        }
        g
    }

    /// Prefix rule for `true`, `false` and `nil`: one instruction, no
    /// constant-pool entry.
    fn literal(&mut self, chunk: &mut Chunk, Ghost(p0): Ghost<int>) -> (g: Ghost<Expr>)
        requires
            old(self).wf(),
            old(chunk).wf(),
            0 <= p0 <= old(self).cursor.source@.len(),
            prefix_rule_of(scan_from(old(self).cursor.source@, p0).kind) == Some(
                PrefixRule::Literal,
            ),
            old(self).previous.kind@ == scan_from(old(self).cursor.source@, p0).kind,
            !old(self).had_error ==> scan_from(old(self).cursor.source@, p0).end == old(
                self,
            ).look@,
        ensures
            preserved(*old(self), *final(self), *old(chunk), *final(chunk)),
            final(self).look == old(self).look,
            (match sp_prefix(old(self).cursor.source@, p0) {
                Some(o) => (!old(self).had_error && old(chunk).consts().len() + n_consts(o.e)
                    <= 256) ==> (!final(self).had_error || scan_from(
                    old(self).cursor.source@,
                    o.j,
                ).kind is Error),
                None => true,
            }),
            !final(self).had_error ==> (sp_prefix(old(self).cursor.source@, p0) matches Some(o)
                && parsed_ok(*final(self), *old(chunk), *final(chunk), o, g@)),
    {
        let ghost src = self.cursor.source@;
        let ghost c0 = *chunk;
        proof {
            crate::scanner::lemma_scan_bounds(src, p0);
        }
        let (b, g): (Opcode, Ghost<Expr>) = match self.previous.kind {
            TokenType::Nil => (Opcode::Nil, Ghost(Expr::Nil)),
            TokenType::True => (Opcode::True, Ghost(Expr::True)),
            TokenType::False => (Opcode::False, Ghost(Expr::False)),
            _ => {
                proof {
                    assert(false);
                }
                (Opcode::Nil, Ghost(Expr::Nil))
            },
        };
        let ghost vv = match g@ {
            Expr::Nil => crate::value::ValueView::Nil,
            Expr::True => crate::value::ValueView::Bool(true),
            _ => crate::value::ValueView::Bool(false),
        };
        self.emit_byte(chunk, b);
        proof {
            let f = chunk.code@.skip(c0.code@.len() as int);
            assert(f =~= seq![b]);
            assert(chunk.code@ =~= c0.code@ + f);
            assert forall|st: Seq<crate::value::ValueView>| #[trigger]
                crate::semantics::step1(b, chunk.consts(), st) == Ok::<
                Seq<crate::value::ValueView>,
                crate::error::FaultKind,
            >(st.push(vv)) by {}
            crate::semantics::lemma_computes_single(b, chunk.consts(), g@, vv);
            assert(computes(f, chunk.consts(), g@));
            assert(c0.consts().is_prefix_of(chunk.consts()));
        }
        g
    }

    /// Prefix rule for string literals: the token's text, copied into an
    /// owned value in the constant pool.
    fn string(&mut self, chunk: &mut Chunk, Ghost(p0): Ghost<int>) -> (g: Ghost<Expr>)
        requires
            old(self).wf(),
            old(chunk).wf(),
            0 <= p0 <= old(self).cursor.source@.len(),
            scan_from(old(self).cursor.source@, p0).kind matches TokenKind::StrLit(_),
            old(self).previous.kind@ == scan_from(old(self).cursor.source@, p0).kind,
            !old(self).had_error ==> scan_from(old(self).cursor.source@, p0).end == old(
                self,
            ).look@,
        ensures
            preserved(*old(self), *final(self), *old(chunk), *final(chunk)),
            final(self).look == old(self).look,
            (match sp_prefix(old(self).cursor.source@, p0) {
                Some(o) => (!old(self).had_error && old(chunk).consts().len() + n_consts(o.e)
                    <= 256) ==> (!final(self).had_error || scan_from(
                    old(self).cursor.source@,
                    o.j,
                ).kind is Error),
                None => true,
            }),
            !final(self).had_error ==> (sp_prefix(old(self).cursor.source@, p0) matches Some(o)
                && parsed_ok(*final(self), *old(chunk), *final(chunk), o, g@)),
    {
        let ghost src = self.cursor.source@;
        let ghost c0 = *chunk;
        proof {
            crate::scanner::lemma_scan_bounds(src, p0);
        }
        let w: &'src str = match self.previous.kind {
            TokenType::String(s) => s,
            _ => {
                proof {
                    assert(false);
                }
                ""
            },
        };
        let g = Ghost(Expr::StrLit(w@));
        let v = Value::String(w.to_owned());
        let ghost vv = v@;
        self.emit_constant(chunk, v);
        proof {
            if c0.constants@.len() < 256 {
                let f = chunk.code@.skip(c0.code@.len() as int);
                assert(f =~= seq![Opcode::Constant((c0.constants@.len() as u8))]);
                assert(chunk.code@ =~= c0.code@ + f);
                assert(chunk.consts()[c0.consts().len() as int] == vv);
                assert(eval(g@) == Ok::<crate::value::ValueView, crate::error::FaultKind>(vv));
                assert forall|st: Seq<crate::value::ValueView>| #[trigger]
                    crate::semantics::step1(f[0], chunk.consts(), st) == Ok::<
                    Seq<crate::value::ValueView>,
                    crate::error::FaultKind,
                >(st.push(vv)) by {}
                crate::semantics::lemma_computes_single(f[0], chunk.consts(), g@, vv);
                assert(computes(f, chunk.consts(), g@));
                assert(c0.consts().is_prefix_of(chunk.consts()));
            }
        }
        g
    }
}


impl<'src> Parser<'src> {
    /// Prefix rule for `(`: a full expression, then the closing `)`.
    fn grouping(&mut self, chunk: &mut Chunk, Ghost(p0): Ghost<int>) -> (g: Ghost<Expr>)
        requires
            old(self).wf(),
            old(chunk).wf(),
            0 <= p0 <= old(self).cursor.source@.len(),
            scan_from(old(self).cursor.source@, p0).kind is OpenParen,
            !old(self).had_error ==> scan_from(old(self).cursor.source@, p0).end == old(
                self,
            ).look@,
        ensures
            preserved(*old(self), *final(self), *old(chunk), *final(chunk)),
            (match sp_prefix(old(self).cursor.source@, p0) {
                Some(o) => (!old(self).had_error && old(chunk).consts().len() + n_consts(o.e)
                    <= 256) ==> (!final(self).had_error || scan_from(
                    old(self).cursor.source@,
                    o.j,
                ).kind is Error),
                None => true,
            }),
            !final(self).had_error ==> (sp_prefix(old(self).cursor.source@, p0) matches Some(o)
                && parsed_ok(*final(self), *old(chunk), *final(chunk), o, g@)),
        decreases self.cursor.source@.len() - self.look@, 3int,
    {
        let ghost src = self.cursor.source@;
        let ghost c0 = *chunk;
        let ghost st = scan_from(src, p0);
        proof {
            crate::scanner::lemma_scan_bounds(src, p0);
        }
        let g1 = self.expression(chunk);
        let ghost mid = *self;
        proof {
            crate::scanner::lemma_scan_bounds(src, mid.look@);
        }
        if matches!(self.current.kind, TokenType::CloseParen) {
            self.advance();
        } else {
            self.error_at_current("Expect ')' after expression.");
        }
        proof {
            if !self.had_error {
                // the expression was clean and the `)` was really there
                match sp_prec(src, old(self).look@, 1) {
                    Option::Some(out1) => {
                        lemma_sp_prec_bounds(src, old(self).look@, 1);
                        let st2 = scan_from(src, out1.j);
                        assert(st2.kind is CloseParen);
                        assert(sp_prefix(src, p0) matches Some(o) && o.e == out1.e && o.j
                            == st2.end);
                    },
                    Option::None => {
                        assert(false);
                    },
                }
            }
            match sp_prefix(src, p0) {
                Option::Some(o) => {
                    if !old(self).had_error && c0.consts().len() + n_consts(o.e) <= 256 {
                        // completeness: the inner expression fits exactly as the whole does
                        match sp_prec(src, st.end, 1) {
                            Option::Some(out1) => {
                                let st2 = scan_from(src, out1.j);
                                assert(st2.kind is CloseParen);
                                assert(o.e == out1.e);
                                if !mid.had_error {
                                    // expression clean: the `)` was consumed; a new error can
                                    // only be an error token right after it
                                    assert(mid.look@ == out1.j);
                                    assert(scan_from(src, mid.look@).kind == mid.current.kind@);
                                } else {
                                    // expression reported: its fault lies at the resume point,
                                    // which the specification says is a `)` - contradiction
                                    assert(scan_from(src, out1.j).kind is Error || !mid.had_error);
                                }
                            },
                            Option::None => {},
                        }
                    }
                },
                Option::None => {},
            }
        }
        g1
    }

    /// Prefix rule for unary `-` and `!`: the operand at `Unary`
    /// precedence, then the operator's instruction.
    fn unary(&mut self, chunk: &mut Chunk, Ghost(p0): Ghost<int>) -> (g: Ghost<Expr>)
        requires
            old(self).wf(),
            old(chunk).wf(),
            0 <= p0 <= old(self).cursor.source@.len(),
            prefix_rule_of(scan_from(old(self).cursor.source@, p0).kind) == Some(
                PrefixRule::Unary,
            ),
            old(self).previous.kind@ == scan_from(old(self).cursor.source@, p0).kind,
            !old(self).had_error ==> scan_from(old(self).cursor.source@, p0).end == old(
                self,
            ).look@,
        ensures
            preserved(*old(self), *final(self), *old(chunk), *final(chunk)),
            (match sp_prefix(old(self).cursor.source@, p0) {
                Some(o) => (!old(self).had_error && old(chunk).consts().len() + n_consts(o.e)
                    <= 256) ==> (!final(self).had_error || scan_from(
                    old(self).cursor.source@,
                    o.j,
                ).kind is Error),
                None => true,
            }),
            !final(self).had_error ==> (sp_prefix(old(self).cursor.source@, p0) matches Some(o)
                && parsed_ok(*final(self), *old(chunk), *final(chunk), o, g@)),
        decreases self.cursor.source@.len() - self.look@, 2int,
    {
        let ghost src = self.cursor.source@;
        let ghost c0 = *chunk;
        let ghost st = scan_from(src, p0);
        proof {
            crate::scanner::lemma_scan_bounds(src, p0);
        }
        let op_kind = self.previous.kind;
        let g1 = self.parse_precedence(chunk, Precedence::Unary);
        let ghost c1 = *chunk;
        let (opc, gop): (Opcode, Ghost<crate::expr::UnOp>) = match op_kind {
            TokenType::Minus => (Opcode::Negate, Ghost(crate::expr::UnOp::Neg)),
            TokenType::Bang => (Opcode::Not, Ghost(crate::expr::UnOp::Not)),
            _ => {
                proof {
                    assert(false);
                }
                (Opcode::Negate, Ghost(crate::expr::UnOp::Neg))
            },
        };
        self.emit_byte(chunk, opc);
        let g = Ghost(Expr::Unary(gop@, Box::new(g1@)));
        proof {
            assert(crate::semantics::un_opcode(gop@) == opc);
            if !self.had_error {
                match sp_prec(src, old(self).look@, 8) {
                    Option::Some(out) => {
                        lemma_sp_prec_bounds(src, old(self).look@, 8);
                        assert(g1@ == out.e);
                        let f1 = c1.code@.skip(c0.code@.len() as int);
                        assert(computes(f1, c1.consts(), out.e));
                        let f = chunk.code@.skip(c0.code@.len() as int);
                        assert(f =~= f1.push(opc));
                        crate::semantics::lemma_computes_unary(f1, c1.consts(), out.e, gop@);
                        assert(chunk.consts() == c1.consts());
                        assert(computes(f, chunk.consts(), g@));
                        assert(chunk.code@ =~= c0.code@ + f);
                        assert(no_return(f)) by {
                            assert(forall|i: int|
                                0 <= i < f1.len() ==> f[i] == #[trigger] f1[i]);
                        }
                        assert(consts_below(f, chunk.consts().len() as int)) by {
                            assert(forall|i: int|
                                0 <= i < f1.len() ==> f[i] == #[trigger] f1[i]);
                        }
                        assert(sp_prefix(src, p0) matches Some(o) && o.e == g@ && o.j == out.j);
                    },
                    Option::None => {
                        assert(false);
                    },
                }
            }
            match sp_prefix(src, p0) {
                Option::Some(o) => {
                    if !old(self).had_error && c0.consts().len() + n_consts(o.e) <= 256 {
                        match sp_prec(src, st.end, 8) {
                            Option::Some(out) => {
                                assert(n_consts(o.e) == n_consts(out.e));
                            },
                            Option::None => {},
                        }
                    }
                },
                Option::None => {},
            }
        }
        g
    }

    /// Infix rule for binary operators: the right operand one level
    /// tighter than the operator, then the operator's instruction(s).
    /// Returns the right operand's expression; the caller folds it into
    /// its accumulated left operand.
    fn binary(&mut self, chunk: &mut Chunk, Ghost(p0): Ghost<int>) -> (g: Ghost<Expr>)
        requires
            old(self).wf(),
            old(chunk).wf(),
            0 <= p0 <= old(self).cursor.source@.len(),
            infix_rank(scan_from(old(self).cursor.source@, p0).kind) >= 1,
            old(self).previous.kind@ == scan_from(old(self).cursor.source@, p0).kind,
            !old(self).had_error ==> scan_from(old(self).cursor.source@, p0).end == old(
                self,
            ).look@,
        ensures
            preserved(*old(self), *final(self), *old(chunk), *final(chunk)),
            (match sp_prec(
                old(self).cursor.source@,
                old(self).look@,
                infix_rank(scan_from(old(self).cursor.source@, p0).kind) + 1,
            ) {
                Some(out) => (!old(self).had_error && old(chunk).consts().len() + n_consts(
                    out.e,
                ) <= 256) ==> (!final(self).had_error || scan_from(
                    old(self).cursor.source@,
                    out.j,
                ).kind is Error),
                None => true,
            }),
            !final(self).had_error ==> (sp_prec(
                old(self).cursor.source@,
                old(self).look@,
                infix_rank(scan_from(old(self).cursor.source@, p0).kind) + 1,
            ) matches Some(out) && ({
                let ops = bin_opcodes(bin_op_of(scan_from(old(self).cursor.source@, p0).kind));
                let f2 = final(chunk).code@.skip(old(chunk).code@.len() as int).take(
                    final(chunk).code@.len() - old(chunk).code@.len() - ops.len(),
                );
                &&& g@ == out.e
                &&& final(self).look@ == out.j
                &&& final(chunk).code@ == old(chunk).code@ + f2 + ops
                &&& no_return(f2)
                &&& consts_below(f2, final(chunk).consts().len() as int)
                &&& computes(f2, final(chunk).consts(), out.e)
                &&& final(chunk).consts().len() == old(chunk).consts().len() + n_consts(out.e)
            })),
        decreases self.cursor.source@.len() - self.look@, 2int,
    {
        let ghost src = self.cursor.source@;
        let ghost c0 = *chunk;
        let ghost st = scan_from(src, p0);
        proof {
            crate::scanner::lemma_scan_bounds(src, p0);
        }
        let op_kind = self.previous.kind;
        let rule = ParseRule::get_rule(op_kind);
        let g1 = self.parse_precedence(chunk, rule.precedence.next());
        let ghost c1 = *chunk;
        match op_kind {
            TokenType::BangEqual => self.emit_bytes(chunk, Opcode::Equal, Opcode::Not),
            TokenType::EqualEqual => self.emit_byte(chunk, Opcode::Equal),
            TokenType::Greater => self.emit_byte(chunk, Opcode::Greater),
            TokenType::GreaterEqual => self.emit_bytes(chunk, Opcode::Less, Opcode::Not),
            TokenType::Less => self.emit_byte(chunk, Opcode::Less),
            TokenType::LessEqual => self.emit_bytes(chunk, Opcode::Greater, Opcode::Not),
            TokenType::Plus => self.emit_byte(chunk, Opcode::Add),
            TokenType::Minus => self.emit_byte(chunk, Opcode::Subtract),
            TokenType::Star => self.emit_byte(chunk, Opcode::Multiply),
            TokenType::Slash => self.emit_byte(chunk, Opcode::Divide),
            _ => {
                proof {
                    assert(false);
                }
            },
        }
        proof {
            let ops = bin_opcodes(bin_op_of(st.kind));
            assert(chunk.code@ =~= c1.code@ + ops);
            assert(chunk.consts() == c1.consts());
            if !self.had_error {
                match sp_prec(src, old(self).look@, infix_rank(st.kind) + 1) {
                    Option::Some(out) => {
                        let f2 = c1.code@.skip(c0.code@.len() as int);
                        assert(computes(f2, c1.consts(), out.e));
                        assert(chunk.code@ =~= c0.code@ + f2 + ops);
                        assert(chunk.code@.skip(c0.code@.len() as int).take(
                            chunk.code@.len() - c0.code@.len() - ops.len(),
                        ) =~= f2);
                    },
                    Option::None => {
                        assert(false);
                    },
                }
            }
        }
        g1
    }

    /// One expression at the loosest user-facing precedence.
    fn expression(&mut self, chunk: &mut Chunk) -> (g: Ghost<Expr>)
        requires
            old(self).wf(),
            old(chunk).wf(),
        ensures
            preserved(*old(self), *final(self), *old(chunk), *final(chunk)),
            (match sp_prec(old(self).cursor.source@, old(self).look@, 1) {
                Some(out) => (!old(self).had_error && old(chunk).consts().len() + n_consts(
                    out.e,
                ) <= 256) ==> (!final(self).had_error || scan_from(
                    old(self).cursor.source@,
                    out.j,
                ).kind is Error),
                None => true,
            }),
            !final(self).had_error ==> (sp_prec(old(self).cursor.source@, old(self).look@, 1)
                matches Some(out) && parsed_ok(*final(self), *old(chunk), *final(chunk), out, g@)),
        decreases self.cursor.source@.len() - self.look@, 1int,
    {
        self.parse_precedence(chunk, Precedence::Assignment)
    }

    /// Precedence climbing: consume one token, apply its prefix rule, then
    /// fold in infix operators binding at least as tightly as `precedence`.
    fn parse_precedence(&mut self, chunk: &mut Chunk, precedence: Precedence) -> (g: Ghost<Expr>)
        requires
            old(self).wf(),
            old(chunk).wf(),
            1 <= prec_rank(precedence),
        ensures
            preserved(*old(self), *final(self), *old(chunk), *final(chunk)),
            (match sp_prec(old(self).cursor.source@, old(self).look@, prec_rank(precedence)) {
                Some(out) => (!old(self).had_error && old(chunk).consts().len() + n_consts(
                    out.e,
                ) <= 256) ==> (!final(self).had_error || scan_from(
                    old(self).cursor.source@,
                    out.j,
                ).kind is Error),
                None => true,
            }),
            !final(self).had_error ==> (sp_prec(
                old(self).cursor.source@,
                old(self).look@,
                prec_rank(precedence),
            ) matches Some(out) && parsed_ok(*final(self), *old(chunk), *final(chunk), out, g@)),
        decreases self.cursor.source@.len() - self.look@, 0int,
    {
        let ghost src = self.cursor.source@;
        let ghost i0 = self.look@;
        let ghost c0 = *chunk;
        let ghost minp = prec_rank(precedence);
        let ghost total = sp_prec(src, i0, minp);
        let ghost st0 = scan_from(src, i0);
        proof {
            crate::scanner::lemma_scan_bounds(src, i0);
        }
        self.advance();
        let ghost pre_h = *self;
        let prev_kind = self.previous.kind;
        let rule = ParseRule::get_rule(prev_kind);
        let mut gl: Ghost<Expr> = Ghost(Expr::Nil);
        match rule.prefix {
            Some(PrefixRule::Grouping) => {
                gl = self.grouping(chunk, Ghost(i0));
            },
            Some(PrefixRule::Unary) => {
                gl = self.unary(chunk, Ghost(i0));
            },
            Some(PrefixRule::Number) => {
                gl = self.number(chunk, Ghost(i0));
            },
            Some(PrefixRule::Literal) => {
                gl = self.literal(chunk, Ghost(i0));
            },
            Some(PrefixRule::Text) => {
                gl = self.string(chunk, Ghost(i0));
            },
            None => {
                self.error("Expect expression.");
                proof {
                    assert(sp_prefix(src, i0) is None);
                    assert(total is None);
                }
                return Ghost(Expr::Nil);
            },
        }
        let ghost j0 = self.look@;
        let ghost e0 = gl@;
        proof {
            // relate the handler's completeness clause to the whole climb
            match total {
                Option::Some(out) => {
                    if !old(self).had_error && c0.consts().len() + n_consts(out.e) <= 256 {
                        lemma_sp_prec_n_consts(src, i0, minp);
                        match sp_prefix(src, i0) {
                            Option::Some(o1) => {
                                lemma_sp_prefix_bounds(src, i0);
                                if !self.had_error {
                                } else {
                                    // where did the error arise?  Either the token right
                                    // after the prefix token is an error token (then the
                                    // climb stops right there, or the recursive prefix rules
                                    // could not have parsed at all), or the prefix rule
                                    // itself reported, which its contract blames on an
                                    // error token at its resume point.
                                    if pre_h.had_error {
                                        assert(scan_from(src, st0.end).kind is Error);
                                        match st0.kind {
                                            TokenKind::OpenParen => {
                                                assert(sp_prefix(src, st0.end) is None);
                                                assert(sp_prec(src, st0.end, 1) is None);
                                                assert(false);
                                            },
                                            TokenKind::Minus => {
                                                assert(sp_prefix(src, st0.end) is None);
                                                assert(sp_prec(src, st0.end, 8) is None);
                                                assert(false);
                                            },
                                            TokenKind::Bang => {
                                                assert(sp_prefix(src, st0.end) is None);
                                                assert(sp_prec(src, st0.end, 8) is None);
                                                assert(false);
                                            },
                                            _ => {
                                                assert(o1.j == st0.end);
                                            },
                                        }
                                    }
                                    assert(scan_from(src, o1.j).kind is Error);
                                    lemma_sp_infix_bounds(src, o1.j, minp, o1.e);
                                    assert(sp_infix(src, o1.j, minp, o1.e) == Some(
                                        ParseOut { e: o1.e, j: o1.j },
                                    ));
                                    assert(out.j == o1.j);
                                    assert(scan_from(src, out.j).kind is Error);
                                }
                            },
                            Option::None => {
                                assert(false);
                            },
                        }
                    }
                },
                Option::None => {},
            }
        }
        loop
            invariant_except_break
                true,
            invariant
                self.wf(),
                chunk.wf(),
                src == self.cursor.source@,
                self.cursor.source == old(self).cursor.source,
                self.cursor.len == old(self).cursor.len,
                c0.code@.is_prefix_of(chunk.code@),
                c0.consts().is_prefix_of(chunk.consts()),
                old(self).had_error ==> self.had_error,
                old(self).had_error ==> self.err == old(self).err,
                old(self).look@ <= self.look@,
                minp == prec_rank(precedence),
                1 <= minp,
                total == sp_prec(src, i0, minp),
                0 <= i0 <= src.len(),
                !self.had_error ==> (sp_prefix(src, i0) matches Some(o1) && e0 == o1.e && j0
                    == o1.j),
                !self.had_error ==> sp_infix(src, self.look@, minp, gl@) == sp_infix(
                    src,
                    j0,
                    minp,
                    e0,
                ),
                !self.had_error ==> ({
                    let f = chunk.code@.skip(c0.code@.len() as int);
                    &&& chunk.code@ == c0.code@ + f
                    &&& no_return(f)
                    &&& consts_below(f, chunk.consts().len() as int)
                    &&& computes(f, chunk.consts(), gl@)
                    &&& chunk.consts().len() == c0.consts().len() + n_consts(gl@)
                }),
                (match total {
                    Some(out) => (!old(self).had_error && c0.consts().len() + n_consts(out.e)
                        <= 256) ==> (!self.had_error || scan_from(src, out.j).kind is Error),
                    None => true,
                }),
            ensures
                self.wf(),
                chunk.wf(),
                src == self.cursor.source@,
                self.cursor.source == old(self).cursor.source,
                self.cursor.len == old(self).cursor.len,
                c0.code@.is_prefix_of(chunk.code@),
                c0.consts().is_prefix_of(chunk.consts()),
                old(self).had_error ==> self.had_error,
                old(self).had_error ==> self.err == old(self).err,
                old(self).look@ <= self.look@,
                !self.had_error ==> (sp_prefix(src, i0) matches Some(o1) && e0 == o1.e && j0
                    == o1.j),
                !self.had_error ==> sp_infix(src, self.look@, minp, gl@) == sp_infix(
                    src,
                    j0,
                    minp,
                    e0,
                ),
                !self.had_error ==> ({
                    let f = chunk.code@.skip(c0.code@.len() as int);
                    &&& chunk.code@ == c0.code@ + f
                    &&& no_return(f)
                    &&& consts_below(f, chunk.consts().len() as int)
                    &&& computes(f, chunk.consts(), gl@)
                    &&& chunk.consts().len() == c0.consts().len() + n_consts(gl@)
                }),
                (match total {
                    Some(out) => (!old(self).had_error && c0.consts().len() + n_consts(out.e)
                        <= 256) ==> (!self.had_error || scan_from(src, out.j).kind is Error),
                    None => true,
                }),
                infix_rank(self.current.kind@) < minp,
            decreases src.len() - self.look@,
        {
            let r = ParseRule::get_rule(self.current.kind);
            if !(precedence.rank() <= r.precedence.rank()) {
                break ;
            }
            let ghost p_op = self.look@;
            let ghost head = *self;
            let ghost chead = *chunk;
            let ghost gl_old = gl@;
            proof {
                crate::scanner::lemma_scan_bounds(src, p_op);
            }
            self.advance();
            let g2 = self.binary(chunk, Ghost(p_op));
            gl = Ghost(
                Expr::Binary(
                    bin_op_of(scan_from(src, p_op).kind),
                    Box::new(gl_old),
                    Box::new(g2@),
                ),
            );
            proof {
                let stop = scan_from(src, p_op);
                let pr = infix_rank(stop.kind);
                let bop = bin_op_of(stop.kind);
                if !self.had_error {
                    // clean step: stitch the new operand into the invariant
                    match sp_prec(src, stop.end, pr + 1) {
                        Option::Some(out2) => {
                            lemma_sp_prec_bounds(src, stop.end, pr + 1);
                            assert(g2@ == out2.e);
                            assert(self.look@ == out2.j);
                            // code algebra: f_new = f_old + f2 + ops
                            let f_old = chead.code@.skip(c0.code@.len() as int);
                            let ops = bin_opcodes(bop);
                            let f2 = chunk.code@.skip(chead.code@.len() as int).take(
                                chunk.code@.len() - chead.code@.len() - ops.len(),
                            );
                            assert(chunk.code@ == chead.code@ + f2 + ops);
                            crate::semantics::lemma_computes_extend(
                                f_old,
                                chead.consts(),
                                chunk.consts(),
                                gl_old,
                            );
                            crate::semantics::lemma_computes_binary(
                                f_old,
                                f2,
                                chunk.consts(),
                                gl_old,
                                out2.e,
                                bop,
                            );
                            let f_new = chunk.code@.skip(c0.code@.len() as int);
                            assert(f_new =~= f_old + f2 + ops);
                            assert(computes(f_new, chunk.consts(), gl@));
                            assert(chunk.code@ =~= c0.code@ + f_new);
                            assert(no_return(f_new)) by {
                                assert(forall|i: int|
                                    0 <= i < f_old.len() ==> f_new[i] == #[trigger] f_old[i]);
                                assert(forall|i: int|
                                    0 <= i < f2.len() ==> f_new[f_old.len() + i] == #[trigger] f2[
                                    i]);
                                assert(forall|i: int|
                                    0 <= i < ops.len() ==> f_new[f_old.len() + f2.len() + i]
                                        == #[trigger] ops[i]);
                            }
                            assert(consts_below(f_new, chunk.consts().len() as int)) by {
                                assert(forall|i: int|
                                    0 <= i < f_old.len() ==> f_new[i] == #[trigger] f_old[i]);
                                assert(forall|i: int|
                                    0 <= i < f2.len() ==> f_new[f_old.len() + i] == #[trigger] f2[
                                    i]);
                                assert(forall|i: int|
                                    0 <= i < ops.len() ==> f_new[f_old.len() + f2.len() + i]
                                        == #[trigger] ops[i]);
                            }
                            // the specification's loop takes the same step
                            assert(sp_infix(src, p_op, minp, gl_old) == sp_infix(
                                src,
                                out2.j,
                                minp,
                                gl@,
                            ));
                        },
                        Option::None => {
                            assert(false);
                        },
                    }
                }
                // completeness is threaded through the step
                match total {
                    Option::Some(out) => {
                        if !old(self).had_error && c0.consts().len() + n_consts(out.e) <= 256 {
                            if head.had_error {
                                // already accounted for by the invariant
                            } else {
                                assert(sp_infix(src, p_op, minp, gl_old) == sp_infix(
                                    src,
                                    j0,
                                    minp,
                                    e0,
                                ));
                                match sp_prec(src, stop.end, pr + 1) {
                                    Option::Some(out2) => {
                                        lemma_sp_prec_bounds(src, stop.end, pr + 1);
                                        let e2 = Expr::Binary(
                                            bop,
                                            Box::new(gl_old),
                                            Box::new(out2.e),
                                        );
                                        assert(sp_infix(src, p_op, minp, gl_old) == sp_infix(
                                            src,
                                            out2.j,
                                            minp,
                                            e2,
                                        ));
                                        lemma_sp_infix_n_consts(src, out2.j, minp, e2);
                                        crate::expr::lemma_n_consts_nonneg(gl_old);
                                        crate::expr::lemma_n_consts_nonneg(out2.e);
                                        if self.had_error {
                                            assert(scan_from(src, out2.j).kind is Error);
                                            lemma_sp_infix_bounds(src, out2.j, minp, e2);
                                            assert(sp_infix(src, out2.j, minp, e2) == Some(
                                                ParseOut { e: e2, j: out2.j },
                                            ));
                                            assert(out.j == out2.j);
                                        }
                                    },
                                    Option::None => {
                                        // the right operand has no parse: the whole climb fails
                                        assert(sp_infix(src, p_op, minp, gl_old) is None);
                                        assert(false);
                                    },
                                }
                            }
                        }
                    },
                    Option::None => {},
                }
            }
        }
        proof {
            if !self.had_error {
                assert(sp_infix(src, self.look@, minp, gl@) == Some(
                    ParseOut { e: gl@, j: self.look@ },
                ));
                match sp_prefix(src, i0) {
                    Option::Some(o1) => {
                        lemma_sp_prefix_bounds(src, i0);
                        assert(total == sp_infix(src, j0, minp, e0));
                        assert(total == Some(ParseOut { e: gl@, j: self.look@ }));
                    },
                    Option::None => {
                        assert(false);
                    },
                }
            }
        }
        gl
    }
}


impl<'src> Parser<'src> {
    /// A parser over `content`, with its one-token lookahead filled (any
    /// error token found while filling it is already reported).
    pub fn new(content: &'src str) -> (p: Parser<'src>)
        ensures
            p.wf(),
            p.cursor.source == content,
            !p.had_error ==> p.look@ == 0,
            p.had_error ==> scan_from(content@, 0).kind is Error,
    {
        let cursor = Cursor::new(content);
        let mut p = Parser {
            cursor,
            current: Token::new(TokenType::Eof, crate::token::Span::new(0, 0, 1)),
            previous: Token::new(TokenType::Eof, crate::token::Span::new(0, 0, 1)),
            had_error: false,
            panic_mode: false,
            err: None,
            look: Ghost(0),
        };
        p.advance();
        p
    }

    /// Compiles one expression into a fresh chunk, appending the final
    /// `Return`.  Succeeds exactly when the source parses as a single
    /// expression followed by end of input and its literals fit the
    /// constant pool; the emitted code then computes exactly the parsed
    /// expression's evaluation.  On failure the first diagnostic is
    /// returned and the chunk must not be executed.
    pub fn compile(self, chunk: &mut Chunk) -> (r: Result<(), Compile>)
        requires
            self.wf(),
            old(chunk).wf(),
            old(chunk).code@.len() == 0,
            old(chunk).constants@.len() == 0,
        ensures
            final(chunk).wf(),
            ({
                let src = self.cursor.source@;
                match sp_prec(src, self.look@, 1) {
                    Some(out) => {
                        &&& ((r is Ok) <==> (!self.had_error && scan_from(src, out.j).kind is Eof
                            && n_consts(out.e) <= 256))
                        &&& (r is Ok ==> ({
                            let f = final(chunk).code@.drop_last();
                            &&& final(chunk).code@ == f.push(Opcode::Return)
                            &&& no_return(f)
                            &&& computes(f, final(chunk).consts(), out.e)
                        }))
                    },
                    None => r is Err,
                }
            }),
    {
        let mut this = self;
        let ghost src = this.cursor.source@;
        let ghost i0 = this.look@;
        let ghost c0 = *chunk;
        let ghost entry = this;
        let g = this.expression(&mut *chunk);
        let ghost mid = this;
        let ghost cmid = *chunk;
        proof {
            crate::scanner::lemma_scan_bounds(src, mid.look@);
        }
        if matches!(this.current.kind, TokenType::Eof) {
            this.advance();
        } else {
            this.error_at_current("Expect end of expression");
        }
        this.emit_return(&mut *chunk);
        proof {
            match sp_prec(src, i0, 1) {
                Option::Some(out) => {
                    if !this.had_error {
                        // clean run: the parse happened per the specification and the
                        // chunk is the expression's code followed by the return
                        assert(!mid.had_error);
                        assert(mid.look@ == out.j);
                        assert(cmid.code@.skip(0) =~= cmid.code@);
                        assert(c0.code@ + cmid.code@ =~= cmid.code@);
                        assert(computes(cmid.code@, cmid.consts(), out.e));
                        assert(chunk.code@ == cmid.code@.push(Opcode::Return));
                        assert(chunk.code@.drop_last() =~= cmid.code@);
                        assert(chunk.consts() == cmid.consts());
                        assert(computes(chunk.code@.drop_last(), chunk.consts(), out.e));
                        assert(scan_from(src, out.j).kind == mid.current.kind@);
                        assert(chunk.consts().len() == n_consts(out.e));
                        assert(n_consts(out.e) <= 256);
                    }
                    if !entry.had_error && scan_from(src, out.j).kind is Eof && n_consts(out.e)
                        <= 256 {
                        // completeness: nothing can have gone wrong
                        assert(!mid.had_error);
                        assert(mid.look@ == out.j);
                        assert(mid.current.kind@ is Eof);
                        crate::scanner::lemma_scan_bounds(src, out.j);
                        assert(mid.cursor.pos == src.len());
                        assert(scan_from(src, src.len() as int).kind is Eof);
                        assert(!this.had_error);
                    }
                },
                Option::None => {
                    // no parse: the expression step must have reported
                    assert(this.had_error);
                },
            }
        }
        match this.err {
            Some(e) => Err(e),
            None => Ok(()),
        }
    }
}

} // verus!
