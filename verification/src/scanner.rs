//! The scanner: source text to tokens.
//!
//! [`scan_from`] is the specification: given the source and a position, it
//! says which token starts there (after skipping whitespace), what its text
//! is, and where scanning continues.  [`Cursor::advance`] is proved to
//! produce exactly that token.  Once the source is exhausted it yields the
//! end-of-input token forever.
use crate::float::is_digit_char;
use crate::strings::str_eq;
use crate::token::{Span, Token, TokenKind, TokenType};
use vstd::prelude::*;
use vstd::string::StrSliceExecFns;

verus! {

/// Whitespace skipped between tokens.
pub open spec fn is_ws(c: char) -> bool {
    c == ' ' || c == '\r' || c == '\n' || c == '\t'
}

/// An ASCII letter (identifiers are maximal runs of these).
pub open spec fn is_alpha(c: char) -> bool {
    ('a' <= c && c <= 'z') || ('A' <= c && c <= 'Z')
}

/// The number of newline characters in a sequence.
pub open spec fn newlines(s: Seq<char>) -> int
    decreases s.len(),
{
    if s.len() == 0 {
        0
    } else {
        newlines(s.drop_last()) + if s.last() == '\n' {
            1int
        } else {
            0int
        }
    }
}

pub proof fn lemma_newlines_bounds(s: Seq<char>)
    ensures
        0 <= newlines(s) <= s.len(),
    decreases s.len(),
{
    if s.len() != 0 {
        lemma_newlines_bounds(s.drop_last());
    }
}

pub proof fn lemma_newlines_step(s: Seq<char>, i: int)
    requires
        0 <= i < s.len(),
    ensures
        newlines(s.take(i + 1)) == newlines(s.take(i)) + if s[i] == '\n' {
            1int
        } else {
            0int
        },
{
    assert(s.take(i + 1).drop_last() =~= s.take(i));
    assert(s.take(i + 1).last() == s[i]);
}

/// The 1-based line number of position `i`: one more than the newlines
/// before it (saturating at the machine limit, which no real source
/// reaches).
pub open spec fn line_at(s: Seq<char>, i: int) -> usize {
    if 1 + newlines(s.take(i)) <= usize::MAX {
        (1 + newlines(s.take(i))) as usize
    } else {
        usize::MAX
    }
}

/// The position after the whitespace run starting at `i`.
pub open spec fn ws_end(s: Seq<char>, i: int) -> int
    decreases s.len() - i,
{
    if 0 <= i < s.len() && is_ws(s[i]) {
        ws_end(s, i + 1)
    } else {
        i
    }
}

/// The position after the digit run starting at `i`.
pub open spec fn digits_end(s: Seq<char>, i: int) -> int
    decreases s.len() - i,
{
    if 0 <= i < s.len() && is_digit_char(s[i]) {
        digits_end(s, i + 1)
    } else {
        i
    }
}

/// The position after the letter run starting at `i`.
pub open spec fn alpha_end(s: Seq<char>, i: int) -> int
    decreases s.len() - i,
{
    if 0 <= i < s.len() && is_alpha(s[i]) {
        alpha_end(s, i + 1)
    } else {
        i
    }
}

/// The position of the first `"` at or after `i` (the length if none).
pub open spec fn quote_end(s: Seq<char>, i: int) -> int
    decreases s.len() - i,
{
    if 0 <= i < s.len() && s[i] != '"' {
        quote_end(s, i + 1)
    } else {
        i
    }
}

pub proof fn lemma_ws_end_bounds(s: Seq<char>, i: int)
    requires
        0 <= i <= s.len(),
    ensures
        i <= ws_end(s, i) <= s.len(),
        ws_end(s, i) < s.len() ==> !is_ws(s[ws_end(s, i)]),
    decreases s.len() - i,
{
    if 0 <= i < s.len() && is_ws(s[i]) {
        lemma_ws_end_bounds(s, i + 1);
    }
}

pub proof fn lemma_digits_end_bounds(s: Seq<char>, i: int)
    requires
        0 <= i <= s.len(),
    ensures
        i <= digits_end(s, i) <= s.len(),
        digits_end(s, i) < s.len() ==> !is_digit_char(s[digits_end(s, i)]),
        forall|k: int| i <= k < digits_end(s, i) ==> is_digit_char(#[trigger] s[k]),
    decreases s.len() - i,
{
    if 0 <= i < s.len() && is_digit_char(s[i]) {
        lemma_digits_end_bounds(s, i + 1);
    }
}

/// Every number token's text is a well-formed decimal lexeme: non-empty,
/// digits with at most one dot, at least one digit.
pub proof fn lemma_scan_number_lexeme(s: Seq<char>, i: int)
    requires
        0 <= i <= s.len(),
    ensures
        scan_from(s, i).kind matches TokenKind::Number(d)
            ==> crate::float::decimal_lexeme(d),
{
    lemma_ws_end_bounds(s, i);
    let j = ws_end(s, i);
    if j < s.len() && is_digit_char(s[j]) {
        lemma_digits_end_bounds(s, j + 1);
        let d = digits_end(s, j + 1);
        if d < s.len() && s[d] == '.' {
            lemma_digits_end_bounds(s, d + 1);
            let d2 = digits_end(s, d + 1);
            let lex = s.subrange(j, d2);
            assert forall|k: int| 0 <= k < lex.len() implies is_digit_char(#[trigger] lex[k])
                || lex[k] == '.' by {
                assert(lex[k] == s[j + k]);
            }
            assert forall|k1: int, k2: int|
                0 <= k1 < lex.len() && 0 <= k2 < lex.len() && #[trigger] lex[k1] == '.'
                    && #[trigger] lex[k2] == '.' implies k1 == k2 by {
                assert(lex[k1] == s[j + k1]);
                assert(lex[k2] == s[j + k2]);
                assert(j + k1 == d && j + k2 == d);
            }
            assert(is_digit_char(lex[0]));
        } else {
            let lex = s.subrange(j, d);
            assert forall|k: int| 0 <= k < lex.len() implies is_digit_char(#[trigger] lex[k]) by {
                assert(lex[k] == s[j + k]);
            }
            assert(is_digit_char(lex[0]));
        }
    }
}

pub proof fn lemma_alpha_end_bounds(s: Seq<char>, i: int)
    requires
        0 <= i <= s.len(),
    ensures
        i <= alpha_end(s, i) <= s.len(),
        alpha_end(s, i) < s.len() ==> !is_alpha(s[alpha_end(s, i)]),
    decreases s.len() - i,
{
    if 0 <= i < s.len() && is_alpha(s[i]) {
        lemma_alpha_end_bounds(s, i + 1);
    }
}

pub proof fn lemma_quote_end_bounds(s: Seq<char>, i: int)
    requires
        0 <= i <= s.len(),
    ensures
        i <= quote_end(s, i) <= s.len(),
        quote_end(s, i) < s.len() ==> s[quote_end(s, i)] == '"',
    decreases s.len() - i,
{
    if 0 <= i < s.len() && s[i] != '"' {
        lemma_quote_end_bounds(s, i + 1);
    }
}

/// The keyword a word scans as, or an identifier when it is none.
pub open spec fn keyword_kind(w: Seq<char>) -> TokenKind {
    if w == "and"@ {
        TokenKind::And
    } else if w == "class"@ {
        TokenKind::Class
    } else if w == "else"@ {
        TokenKind::Else
    } else if w == "false"@ {
        TokenKind::False
    } else if w == "fn"@ {
        TokenKind::Fn
    } else if w == "for"@ {
        TokenKind::For
    } else if w == "if"@ {
        TokenKind::If
    } else if w == "nil"@ {
        TokenKind::Nil
    } else if w == "or"@ {
        TokenKind::Or
    } else if w == "return"@ {
        TokenKind::Return
    } else if w == "super"@ {
        TokenKind::Super
    } else if w == "this"@ {
        TokenKind::This
    } else if w == "true"@ {
        TokenKind::True
    } else if w == "var"@ {
        TokenKind::Var
    } else if w == "while"@ {
        TokenKind::While
    } else {
        TokenKind::Ident(w)
    }
}

/// One scanned token: its kind, and the half-open range of source
/// positions it occupies (`start` is after any skipped whitespace; `end`
/// is where scanning continues).
pub struct ScanTok {
    pub kind: TokenKind,
    pub start: int,
    pub end: int,
}

/// The token starting at position `i` of the source, after whitespace.
pub open spec fn scan_from(s: Seq<char>, i: int) -> ScanTok {
    let j = ws_end(s, i);
    if j >= s.len() {
        ScanTok { kind: TokenKind::Eof, start: j, end: j }
    } else {
        let c = s[j];
        if c == '(' {
            ScanTok { kind: TokenKind::OpenParen, start: j, end: j + 1 }
        } else if c == ')' {
            ScanTok { kind: TokenKind::CloseParen, start: j, end: j + 1 }
        } else if c == '{' {
            ScanTok { kind: TokenKind::OpenBrace, start: j, end: j + 1 }
        } else if c == '}' {
            ScanTok { kind: TokenKind::CloseBrace, start: j, end: j + 1 }
        } else if c == ',' {
            ScanTok { kind: TokenKind::Comma, start: j, end: j + 1 }
        } else if c == '.' {
            ScanTok { kind: TokenKind::Dot, start: j, end: j + 1 }
        } else if c == '-' {
            ScanTok { kind: TokenKind::Minus, start: j, end: j + 1 }
        } else if c == '+' {
            ScanTok { kind: TokenKind::Plus, start: j, end: j + 1 }
        } else if c == ';' {
            ScanTok { kind: TokenKind::SemiColon, start: j, end: j + 1 }
        } else if c == '/' {
            ScanTok { kind: TokenKind::Slash, start: j, end: j + 1 }
        } else if c == '*' {
            ScanTok { kind: TokenKind::Star, start: j, end: j + 1 }
        } else if c == '!' {
            if j + 1 < s.len() && s[j + 1] == '=' {
                ScanTok { kind: TokenKind::BangEqual, start: j, end: j + 2 }
            } else {
                ScanTok { kind: TokenKind::Bang, start: j, end: j + 1 }
            }
        } else if c == '=' {
            if j + 1 < s.len() && s[j + 1] == '=' {
                ScanTok { kind: TokenKind::EqualEqual, start: j, end: j + 2 }
            } else {
                ScanTok { kind: TokenKind::Equal, start: j, end: j + 1 }
            }
        } else if c == '>' {
            if j + 1 < s.len() && s[j + 1] == '=' {
                ScanTok { kind: TokenKind::GreaterEqual, start: j, end: j + 2 }
            } else {
                ScanTok { kind: TokenKind::Greater, start: j, end: j + 1 }
            }
        } else if c == '<' {
            if j + 1 < s.len() && s[j + 1] == '=' {
                ScanTok { kind: TokenKind::LessEqual, start: j, end: j + 2 }
            } else {
                ScanTok { kind: TokenKind::Less, start: j, end: j + 1 }
            }
        } else if c == '"' {
            let q = quote_end(s, j + 1);
            if q >= s.len() {
                ScanTok { kind: TokenKind::Error("Unterminated string"@), start: j, end: s.len() as int }
            } else {
                ScanTok { kind: TokenKind::StrLit(s.subrange(j + 1, q)), start: j, end: q + 1 }
            }
        } else if is_digit_char(c) {
            let d = digits_end(s, j + 1);
            if d < s.len() && s[d] == '.' {
                let d2 = digits_end(s, d + 1);
                ScanTok { kind: TokenKind::Number(s.subrange(j, d2)), start: j, end: d2 }
            } else {
                ScanTok { kind: TokenKind::Number(s.subrange(j, d)), start: j, end: d }
            }
        } else if is_alpha(c) || c == '_' {
            let e = alpha_end(s, j + 1);
            ScanTok { kind: keyword_kind(s.subrange(j, e)), start: j, end: e }
        } else {
            ScanTok { kind: TokenKind::Error("Unexpected character."@), start: j, end: j + 1 }
        }
    }
}

/// The token at `i` spans forward, never past the end, and is empty
/// exactly for end of input.
pub proof fn lemma_scan_bounds(s: Seq<char>, i: int)
    requires
        0 <= i <= s.len(),
    ensures
        ({
            let st = scan_from(s, i);
            &&& i <= st.start <= st.end <= s.len()
            &&& (st.kind is Eof <==> st.start == st.end)
            &&& (!(st.kind is Eof) ==> st.start < st.end)
            &&& (st.kind is Eof ==> st.start == s.len())
        }),
{
    lemma_ws_end_bounds(s, i);
    let j = ws_end(s, i);
    if j < s.len() {
        let c = s[j];
        lemma_quote_end_bounds(s, j + 1);
        lemma_digits_end_bounds(s, j + 1);
        lemma_alpha_end_bounds(s, j + 1);
        let d = digits_end(s, j + 1);
        if d < s.len() {
            lemma_digits_end_bounds(s, d + 1);
        }
    }
}

/// Executable character classes.
fn ch_is_ws(c: char) -> (r: bool)
    ensures
        r == is_ws(c),
{
    c == ' ' || c == '\r' || c == '\n' || c == '\t'
}

fn ch_is_digit(c: char) -> (r: bool)
    ensures
        r == is_digit_char(c),
{
    '0' <= c && c <= '9'
}

fn ch_is_alpha(c: char) -> (r: bool)
    ensures
        r == is_alpha(c),
{
    ('a' <= c && c <= 'z') || ('A' <= c && c <= 'Z')
}

/// A monotonically advancing cursor over the source text.
#[derive(Debug)]
pub struct Cursor<'s> {
    pub source: &'s str,
    pub len: usize,
    pub pos: usize,
    pub line: usize,
}

impl<'s> Cursor<'s> {
    /// The cursor's invariant: the cached length is the source length, the
    /// position is within bounds, and the line counter matches the line of
    /// the current position.
    pub open spec fn wf(&self) -> bool {
        &&& self.len == self.source@.len()
        &&& self.pos <= self.len
        &&& self.line == line_at(self.source@, self.pos as int)
    }

    /// A cursor at the start of the source, on line 1.
    pub fn new(source: &'s str) -> (c: Cursor<'s>)
        ensures
            c.wf(),
            c.source == source,
            c.pos == 0,
            c.line == 1,
    {
        let len = source.unicode_len();
        proof {
            assert(source@.take(0) =~= Seq::<char>::empty());
            assert(newlines(Seq::<char>::empty()) == 0);
        }
        Cursor { source, len, pos: 0, line: 1 }
    }

    /// Consumes one character, keeping the line counter in step.
    fn bump(&mut self)
        requires
            old(self).wf(),
            old(self).pos < old(self).len,
        ensures
            final(self).wf(),
            final(self).source == old(self).source,
            final(self).len == old(self).len,
            final(self).pos == old(self).pos + 1,
    {
        let c = self.source.get_char(self.pos);
        proof {
            lemma_newlines_step(self.source@, self.pos as int);
            lemma_newlines_bounds(self.source@.take(self.pos as int));
        }
        if c == '\n' {
            if self.line < usize::MAX {
                self.line = self.line + 1;
            }
        }
        self.pos = self.pos + 1;
    }

    /// Skips the whitespace run at the cursor.
    fn skip_whitespace(&mut self)
        requires
            old(self).wf(),
        ensures
            final(self).wf(),
            final(self).source == old(self).source,
            final(self).len == old(self).len,
            old(self).pos <= final(self).pos,
            final(self).pos as int == ws_end(old(self).source@, old(self).pos as int),
    {
        loop
            invariant
                self.wf(),
                self.source == old(self).source,
                self.len == old(self).len,
                old(self).pos <= self.pos,
                ws_end(self.source@, self.pos as int) == ws_end(
                    old(self).source@,
                    old(self).pos as int,
                ),
            ensures
                self.wf(),
                self.source == old(self).source,
                self.len == old(self).len,
                old(self).pos <= self.pos,
                ws_end(self.source@, self.pos as int) == ws_end(
                    old(self).source@,
                    old(self).pos as int,
                ),
                self.pos == self.len || !is_ws(self.source@[self.pos as int]),
            decreases self.len - self.pos,
        {
            if self.pos >= self.len {
                break ;
            }
            let c = self.source.get_char(self.pos);
            if !ch_is_ws(c) {
                break ;
            }
            self.bump();
        }
        proof {
            assert(ws_end(self.source@, self.pos as int) == self.pos as int);
        }
    }

    /// Consumes the digit run at the cursor.
    fn digits(&mut self)
        requires
            old(self).wf(),
        ensures
            final(self).wf(),
            final(self).source == old(self).source,
            final(self).len == old(self).len,
            old(self).pos <= final(self).pos,
            final(self).pos as int == digits_end(old(self).source@, old(self).pos as int),
    {
        loop
            invariant
                self.wf(),
                self.source == old(self).source,
                self.len == old(self).len,
                old(self).pos <= self.pos,
                digits_end(self.source@, self.pos as int) == digits_end(
                    old(self).source@,
                    old(self).pos as int,
                ),
            ensures
                self.wf(),
                self.source == old(self).source,
                self.len == old(self).len,
                old(self).pos <= self.pos,
                digits_end(self.source@, self.pos as int) == digits_end(
                    old(self).source@,
                    old(self).pos as int,
                ),
                self.pos == self.len || !is_digit_char(self.source@[self.pos as int]),
            decreases self.len - self.pos,
        {
            if self.pos >= self.len {
                break ;
            }
            let c = self.source.get_char(self.pos);
            if !ch_is_digit(c) {
                break ;
            }
            self.bump();
        }
        proof {
            assert(digits_end(self.source@, self.pos as int) == self.pos as int);
        }
    }

    /// Consumes the letter run at the cursor.
    fn letters(&mut self)
        requires
            old(self).wf(),
        ensures
            final(self).wf(),
            final(self).source == old(self).source,
            final(self).len == old(self).len,
            old(self).pos <= final(self).pos,
            final(self).pos as int == alpha_end(old(self).source@, old(self).pos as int),
    {
        loop
            invariant
                self.wf(),
                self.source == old(self).source,
                self.len == old(self).len,
                old(self).pos <= self.pos,
                alpha_end(self.source@, self.pos as int) == alpha_end(
                    old(self).source@,
                    old(self).pos as int,
                ),
            ensures
                self.wf(),
                self.source == old(self).source,
                self.len == old(self).len,
                old(self).pos <= self.pos,
                alpha_end(self.source@, self.pos as int) == alpha_end(
                    old(self).source@,
                    old(self).pos as int,
                ),
                self.pos == self.len || !is_alpha(self.source@[self.pos as int]),
            decreases self.len - self.pos,
        {
            if self.pos >= self.len {
                break ;
            }
            let c = self.source.get_char(self.pos);
            if !ch_is_alpha(c) {
                break ;
            }
            self.bump();
        }
        proof {
            assert(alpha_end(self.source@, self.pos as int) == self.pos as int);
        }
    }

    /// Consumes the next character when it equals `expected`.
    fn match_char(&mut self, expected: char) -> (r: bool)
        requires
            old(self).wf(),
        ensures
            final(self).wf(),
            final(self).source == old(self).source,
            final(self).len == old(self).len,
            (old(self).pos < old(self).len && old(self).source@[old(self).pos as int] == expected)
                ==> (r && final(self).pos == old(self).pos + 1),
            !(old(self).pos < old(self).len && old(self).source@[old(self).pos as int]
                == expected) ==> (!r && final(self).pos == old(self).pos),
    {
        if self.pos >= self.len {
            return false;
        }
        let c = self.source.get_char(self.pos);
        if c == expected {
            self.bump();
            true
        } else {
            false
        }
    }

    /// Scans the rest of a string literal; `start` is the position of the
    /// opening quote, which the cursor has already consumed.
    fn string(&mut self, start: usize) -> (k: TokenType<'s>)
        requires
            old(self).wf(),
            old(self).pos == start + 1,
        ensures
            final(self).wf(),
            final(self).source == old(self).source,
            final(self).len == old(self).len,
            old(self).pos <= final(self).pos,
            ({
                let s = old(self).source@;
                let q = quote_end(s, old(self).pos as int);
                if q >= s.len() {
                    k@ == TokenKind::Error("Unterminated string"@) && final(self).pos == s.len()
                } else {
                    k@ == TokenKind::StrLit(s.subrange(old(self).pos as int, q)) && final(self).pos == q
                        + 1
                }
            }),
    {
        loop
            invariant
                self.wf(),
                self.source == old(self).source,
                self.len == old(self).len,
                old(self).pos <= self.pos,
                quote_end(self.source@, self.pos as int) == quote_end(
                    old(self).source@,
                    old(self).pos as int,
                ),
            ensures
                self.wf(),
                self.source == old(self).source,
                self.len == old(self).len,
                old(self).pos <= self.pos,
                quote_end(self.source@, self.pos as int) == quote_end(
                    old(self).source@,
                    old(self).pos as int,
                ),
                self.pos == self.len || self.source@[self.pos as int] == '"',
            decreases self.len - self.pos,
        {
            if self.pos >= self.len {
                break ;
            }
            let c = self.source.get_char(self.pos);
            if c == '"' {
                break ;
            }
            self.bump();
        }
        proof {
            assert(quote_end(self.source@, self.pos as int) == self.pos as int);
        }
        if self.pos >= self.len {
            TokenType::Error("Unterminated string")
        } else {
            let content = self.source.substring_char(start + 1, self.pos);
            self.bump();
            TokenType::String(content)
        }
    }

    /// Scans the rest of a number literal; `start` is the position of its
    /// first digit, which the cursor has already consumed.
    fn number(&mut self, start: usize) -> (k: TokenType<'s>)
        requires
            old(self).wf(),
            old(self).pos == start + 1,
            start < old(self).len,
        ensures
            final(self).wf(),
            final(self).source == old(self).source,
            final(self).len == old(self).len,
            old(self).pos <= final(self).pos,
            ({
                let s = old(self).source@;
                let d = digits_end(s, old(self).pos as int);
                if d < s.len() && s[d] == '.' {
                    let d2 = digits_end(s, d + 1);
                    k@ == TokenKind::Number(s.subrange(start as int, d2)) && final(self).pos == d2
                } else {
                    k@ == TokenKind::Number(s.subrange(start as int, d)) && final(self).pos == d
                }
            }),
    {
        self.digits();
        if self.match_char('.') {
            self.digits();
            proof {
                lemma_digits_end_bounds(
                    self.source@,
                    digits_end(old(self).source@, old(self).pos as int) + 1,
                );
            }
        }
        let lex = self.source.substring_char(start, self.pos);
        TokenType::Number(lex)
    }

    /// Scans the rest of an identifier or keyword; `start` is the position
    /// of its first character, which the cursor has already consumed.
    fn ident(&mut self, start: usize) -> (k: TokenType<'s>)
        requires
            old(self).wf(),
            old(self).pos == start + 1,
            start < old(self).len,
        ensures
            final(self).wf(),
            final(self).source == old(self).source,
            final(self).len == old(self).len,
            old(self).pos <= final(self).pos,
            ({
                let s = old(self).source@;
                let e = alpha_end(s, old(self).pos as int);
                k@ == keyword_kind(s.subrange(start as int, e)) && final(self).pos == e
            }),
    {
        self.letters();
        let w = self.source.substring_char(start, self.pos);
        if str_eq(w, "and") {
            TokenType::And
        } else if str_eq(w, "class") {
            TokenType::Class
        } else if str_eq(w, "else") {
            TokenType::Else
        } else if str_eq(w, "false") {
            TokenType::False
        } else if str_eq(w, "fn") {
            TokenType::Fn
        } else if str_eq(w, "for") {
            TokenType::For
        } else if str_eq(w, "if") {
            TokenType::If
        } else if str_eq(w, "nil") {
            TokenType::Nil
        } else if str_eq(w, "or") {
            TokenType::Or
        } else if str_eq(w, "return") {
            TokenType::Return
        } else if str_eq(w, "super") {
            TokenType::Super
        } else if str_eq(w, "this") {
            TokenType::This
        } else if str_eq(w, "true") {
            TokenType::True
        } else if str_eq(w, "var") {
            TokenType::Var
        } else if str_eq(w, "while") {
            TokenType::While
        } else {
            TokenType::Ident(w)
        }
    }

    /// Returns the next token, skipping whitespace first; at end of input
    /// it returns the end-of-input token forever.  The token, its span and
    /// the new cursor position are exactly those of [`scan_from`] at the
    /// old position.
    pub fn advance(&mut self) -> (t: Token<'s>)
        requires
            old(self).wf(),
        ensures
            final(self).wf(),
            final(self).source == old(self).source,
            final(self).len == old(self).len,
            old(self).pos <= final(self).pos,
            ({
                let st = scan_from(old(self).source@, old(self).pos as int);
                &&& t.kind@ == st.kind
                &&& final(self).pos as int == st.end
                &&& t.span.0 as int == st.start
                &&& t.span.1 as int == st.end
                &&& t.span.2 == line_at(old(self).source@, st.start)
            }),
    {
        self.skip_whitespace();
        let start = self.pos;
        let line = self.line;
        if self.pos >= self.len {
            return Token::new(TokenType::Eof, Span::new(start, start, line));
        }
        let c = self.source.get_char(self.pos);
        self.bump();
        let kind: TokenType<'s> = if c == '(' {
            TokenType::OpenParen
        } else if c == ')' {
            TokenType::CloseParen
        } else if c == '{' {
            TokenType::OpenBrace
        } else if c == '}' {
            TokenType::CloseBrace
        } else if c == ',' {
            TokenType::Comma
        } else if c == '.' {
            TokenType::Dot
        } else if c == '-' {
            TokenType::Minus
        } else if c == '+' {
            TokenType::Plus
        } else if c == ';' {
            TokenType::SemiColon
        } else if c == '/' {
            TokenType::Slash
        } else if c == '*' {
            TokenType::Star
        } else if c == '!' {
            if self.match_char('=') {
                TokenType::BangEqual
            } else {
                TokenType::Bang
            }
        } else if c == '=' {
            if self.match_char('=') {
                TokenType::EqualEqual
            } else {
                TokenType::Equal
            }
        } else if c == '>' {
            if self.match_char('=') {
                TokenType::GreaterEqual
            } else {
                TokenType::Greater
            }
        } else if c == '<' {
            if self.match_char('=') {
                TokenType::LessEqual
            } else {
                TokenType::Less
            }
        } else if c == '"' {
            self.string(start)
        } else if ch_is_digit(c) {
            self.number(start)
        } else if ch_is_alpha(c) || c == '_' {
            self.ident(start)
        } else {
            TokenType::Error("Unexpected character.")
        };
        let end = self.pos;
        Token::new(kind, Span::new(start, end, line))
    }
}

} // verus!
