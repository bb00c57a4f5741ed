//! Lexical tokens: a kind, and a source span with a line number.
//!
//! Tokens borrow their literal text from the source buffer; no allocation
//! happens per token.  [`TokenKind`] is the mathematical model of a token
//! kind, with borrowed text modelled as character sequences.
use vstd::prelude::*;

verus! {

/// A half-open byte range into the source plus a 1-based line number:
/// `(start, end, line)`.
#[derive(Debug, Clone, Copy, PartialEq, Eq, Structural, Default)]
pub struct Span(pub usize, pub usize, pub usize);

impl Span {
    pub fn new(start: usize, offset: usize, line: usize) -> (s: Self)
        ensures
            s == Span(start, offset, line),
    {
        Span(start, offset, line)
    }

    /// Merges two spans: minimum start, maximum end, keeping the left line.
    pub fn combine(&self, rhs: &Self) -> (s: Self)
        ensures
            s == Span(self.0, rhs.1, self.2),
    {
        Span(self.0, rhs.1, self.2)
    }
}

/// The model of a token kind: literal-carrying kinds hold the borrowed
/// text as a character sequence.
pub enum TokenKind {
    OpenParen,
    CloseParen,
    OpenBrace,
    CloseBrace,
    Comma,
    Dot,
    Minus,
    Plus,
    SemiColon,
    Slash,
    Star,
    Bang,
    BangEqual,
    Equal,
    EqualEqual,
    Greater,
    GreaterEqual,
    Less,
    LessEqual,
    Ident(Seq<char>),
    StrLit(Seq<char>),
    Number(Seq<char>),
    And,
    Class,
    Else,
    False,
    Fn,
    For,
    If,
    Nil,
    Or,
    Return,
    Super,
    This,
    True,
    Var,
    While,
    Error(Seq<char>),
    Eof,
}

/// A token kind.  `Ident`, `String`, `Number` and `Error` carry text
/// borrowed from the source buffer (for `Error`, a static diagnostic).
#[derive(Debug, Clone, Copy, Default)]
pub enum TokenType<'s> {
    OpenParen,
    CloseParen,
    OpenBrace,
    CloseBrace,
    Comma,
    Dot,
    Minus,
    Plus,
    SemiColon,
    Slash,
    Star,
    Bang,
    BangEqual,
    Equal,
    EqualEqual,
    Greater,
    GreaterEqual,
    Less,
    LessEqual,
    Ident(&'s str),
    String(&'s str),
    Number(&'s str),
    And,
    Class,
    Else,
    False,
    Fn,
    For,
    If,
    Nil,
    Or,
    Return,
    Super,
    This,
    True,
    Var,
    While,
    Error(&'s str),
    #[default]
    Eof,
}

impl<'s> View for TokenType<'s> {
    type V = TokenKind;

    open spec fn view(&self) -> TokenKind {
        match self {
            TokenType::OpenParen => TokenKind::OpenParen,
            TokenType::CloseParen => TokenKind::CloseParen,
            TokenType::OpenBrace => TokenKind::OpenBrace,
            TokenType::CloseBrace => TokenKind::CloseBrace,
            TokenType::Comma => TokenKind::Comma,
            TokenType::Dot => TokenKind::Dot,
            TokenType::Minus => TokenKind::Minus,
            TokenType::Plus => TokenKind::Plus,
            TokenType::SemiColon => TokenKind::SemiColon,
            TokenType::Slash => TokenKind::Slash,
            TokenType::Star => TokenKind::Star,
            TokenType::Bang => TokenKind::Bang,
            TokenType::BangEqual => TokenKind::BangEqual,
            TokenType::Equal => TokenKind::Equal,
            TokenType::EqualEqual => TokenKind::EqualEqual,
            TokenType::Greater => TokenKind::Greater,
            TokenType::GreaterEqual => TokenKind::GreaterEqual,
            TokenType::Less => TokenKind::Less,
            TokenType::LessEqual => TokenKind::LessEqual,
            TokenType::Ident(w) => TokenKind::Ident(w@),
            TokenType::String(w) => TokenKind::StrLit(w@),
            TokenType::Number(w) => TokenKind::Number(w@),
            TokenType::And => TokenKind::And,
            TokenType::Class => TokenKind::Class,
            TokenType::Else => TokenKind::Else,
            TokenType::False => TokenKind::False,
            TokenType::Fn => TokenKind::Fn,
            TokenType::For => TokenKind::For,
            TokenType::If => TokenKind::If,
            TokenType::Nil => TokenKind::Nil,
            TokenType::Or => TokenKind::Or,
            TokenType::Return => TokenKind::Return,
            TokenType::Super => TokenKind::Super,
            TokenType::This => TokenKind::This,
            TokenType::True => TokenKind::True,
            TokenType::Var => TokenKind::Var,
            TokenType::While => TokenKind::While,
            TokenType::Error(w) => TokenKind::Error(w@),
            TokenType::Eof => TokenKind::Eof,
        }
    }
}

/// The text a token kind displays as: its literal form for fixed kinds,
/// its carried text for literal-carrying kinds, and a placeholder for end
/// of input.
pub open spec fn kind_text(k: TokenKind) -> Seq<char> {
    match k {
        TokenKind::OpenParen => "("@,
        TokenKind::CloseParen => ")"@,
        TokenKind::OpenBrace => "{"@,
        TokenKind::CloseBrace => "}"@,
        TokenKind::Comma => ","@,
        TokenKind::Dot => "."@,
        TokenKind::Minus => "-"@,
        TokenKind::Plus => "+"@,
        TokenKind::SemiColon => ";"@,
        TokenKind::Slash => "/"@,
        TokenKind::Star => "*"@,
        TokenKind::Bang => "!"@,
        TokenKind::BangEqual => "!="@,
        TokenKind::Equal => "="@,
        TokenKind::EqualEqual => "=="@,
        TokenKind::Greater => ">"@,
        TokenKind::GreaterEqual => ">="@,
        TokenKind::Less => "<"@,
        TokenKind::LessEqual => "<="@,
        TokenKind::Ident(w) => w,
        TokenKind::StrLit(w) => w,
        TokenKind::Number(w) => w,
        TokenKind::And => "and"@,
        TokenKind::Class => "class"@,
        TokenKind::Else => "else"@,
        TokenKind::False => "false"@,
        TokenKind::Fn => "fn"@,
        TokenKind::For => "for"@,
        TokenKind::If => "if"@,
        TokenKind::Nil => "nil"@,
        TokenKind::Or => "or"@,
        TokenKind::Return => "return"@,
        TokenKind::Super => "super"@,
        TokenKind::This => "this"@,
        TokenKind::True => "true"@,
        TokenKind::Var => "var"@,
        TokenKind::While => "while"@,
        TokenKind::Error(w) => w,
        TokenKind::Eof => "<<EOF>>"@,
    }
}

impl<'s> TokenType<'s> {
    /// The token's display text, per [`kind_text`].
    pub fn as_str(&self) -> (r: &'s str)
        ensures
            r@ == kind_text(self@),
    {
        match self {
            TokenType::OpenParen => "(",
            TokenType::CloseParen => ")",
            TokenType::OpenBrace => "{",
            TokenType::CloseBrace => "}",
            TokenType::Comma => ",",
            TokenType::Dot => ".",
            TokenType::Minus => "-",
            TokenType::Plus => "+",
            TokenType::SemiColon => ";",
            TokenType::Slash => "/",
            TokenType::Star => "*",
            TokenType::Bang => "!",
            TokenType::BangEqual => "!=",
            TokenType::Equal => "=",
            TokenType::EqualEqual => "==",
            TokenType::Greater => ">",
            TokenType::GreaterEqual => ">=",
            TokenType::Less => "<",
            TokenType::LessEqual => "<=",
            TokenType::Ident(w) => w,
            TokenType::String(w) => w,
            TokenType::Number(w) => w,
            TokenType::And => "and",
            TokenType::Class => "class",
            TokenType::Else => "else",
            TokenType::False => "false",
            TokenType::Fn => "fn",
            TokenType::For => "for",
            TokenType::If => "if",
            TokenType::Nil => "nil",
            TokenType::Or => "or",
            TokenType::Return => "return",
            TokenType::Super => "super",
            TokenType::This => "this",
            TokenType::True => "true",
            TokenType::Var => "var",
            TokenType::While => "while",
            TokenType::Error(w) => w,
            TokenType::Eof => "<<EOF>>",
        }
    }
}

/// A token: a kind and the span of its text.
#[derive(Debug, Clone, Copy, Default)]
pub struct Token<'s> {
    pub kind: TokenType<'s>,
    pub span: Span,
}

impl<'s> Token<'s> {
    pub fn new(kind: TokenType<'s>, span: Span) -> (t: Self)
        ensures
            t.kind == kind,
            t.span == span,
    {
        Token { kind, span }
    }

    /// The 1-based source line the token starts on.
    pub fn line(&self) -> (l: usize)
        ensures
            l == self.span.2,
    {
        self.span.2
    }

    /// The token's display text, per [`kind_text`].
    pub fn lexeme(&self) -> (r: &'s str)
        ensures
            r@ == kind_text(self.kind@),
    {
        self.kind.as_str()
    }
}

} // verus!
