//! The totally ordered precedence levels of the Pratt compiler.
use vstd::prelude::*;

verus! {

/// Precedence levels, loosest first.  An infix rule parses its right
/// operand one level tighter than its own, which makes operators of equal
/// precedence associate to the left.
#[derive(Debug, Clone, Copy, PartialEq, Eq, Structural, Default)]
pub enum Precedence {
    #[default]
    NoPrec,
    Assignment,
    Or,
    And,
    Equality,
    Comparison,
    Term,
    Factor,
    Unary,
    Call,
    Primary,
}

/// The numeric rank of a precedence level.
pub open spec fn prec_rank(p: Precedence) -> int {
    match p {
        Precedence::NoPrec => 0,
        Precedence::Assignment => 1,
        Precedence::Or => 2,
        Precedence::And => 3,
        Precedence::Equality => 4,
        Precedence::Comparison => 5,
        Precedence::Term => 6,
        Precedence::Factor => 7,
        Precedence::Unary => 8,
        Precedence::Call => 9,
        Precedence::Primary => 10,
    }
}

impl Precedence {
    /// The successor level (cycling from the tightest back to the start).
    pub fn next(&self) -> (n: Self)
        ensures
            prec_rank(n) == if *self is Primary {
                0int
            } else {
                prec_rank(*self) + 1
            },
    {
        match self {
            Precedence::NoPrec => Precedence::Assignment,
            Precedence::Assignment => Precedence::Or,
            Precedence::Or => Precedence::And,
            Precedence::And => Precedence::Equality,
            Precedence::Equality => Precedence::Comparison,
            Precedence::Comparison => Precedence::Term,
            Precedence::Term => Precedence::Factor,
            Precedence::Factor => Precedence::Unary,
            Precedence::Unary => Precedence::Call,
            Precedence::Call => Precedence::Primary,
            Precedence::Primary => Precedence::NoPrec,
        }
    }

    /// The rank, as an executable number.
    pub fn rank(&self) -> (r: u8)
        ensures
            r as int == prec_rank(*self),
    {
        match self {
            Precedence::NoPrec => 0,
            Precedence::Assignment => 1,
            Precedence::Or => 2,
            Precedence::And => 3,
            Precedence::Equality => 4,
            Precedence::Comparison => 5,
            Precedence::Term => 6,
            Precedence::Factor => 7,
            Precedence::Unary => 8,
            Precedence::Call => 9,
            Precedence::Primary => 10,
        }
    }
}

} // verus!
