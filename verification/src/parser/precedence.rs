//! Binding powers of the operators.

use crate::lexer::token::TokenKind;
use vstd::prelude::*;

verus! {

/// How tightly an operator binds, from loosest to tightest.
#[derive(Clone, Copy, Debug, PartialEq, Eq, Structural)]
pub enum Precedence {
    /// No operator: the level at which a whole expression is parsed.
    Lowest,
    /// `==` and `!=`
    Equals,
    /// `<` and `>`
    LessGreater,
    /// `+` and `-`
    Sum,
    /// `*` and `/`
    Product,
    /// The operand of a prefix operator.
    Prefix,
    /// Calls and grouping: nothing binds tighter.
    Call,
}

impl Precedence {
    /// The level as a number: a tighter binding has a greater one.
    pub open spec fn level(self) -> nat {
        match self {
            Precedence::Lowest => 0,
            Precedence::Equals => 1,
            Precedence::LessGreater => 2,
            Precedence::Sum => 3,
            Precedence::Product => 4,
            Precedence::Prefix => 5,
            Precedence::Call => 6,
        }
    }

    /// The level as a number: a tighter binding has a greater one.
    pub fn rank(self) -> (rank: u8)
        ensures
            rank == self.level(),
    {
        match self {
            Precedence::Lowest => 0,
            Precedence::Equals => 1,
            Precedence::LessGreater => 2,
            Precedence::Sum => 3,
            Precedence::Product => 4,
            Precedence::Prefix => 5,
            Precedence::Call => 6,
        }
    }

    /// The binding power of a token of category `kind` as a binary
    /// operator; `Lowest` for a token that is none.
    pub open spec fn of(kind: TokenKind) -> Precedence {
        match kind {
            TokenKind::Eq | TokenKind::NotEq => Precedence::Equals,
            TokenKind::Lt | TokenKind::Gt => Precedence::LessGreater,
            TokenKind::Plus | TokenKind::Minus => Precedence::Sum,
            TokenKind::Asterisk | TokenKind::Slash => Precedence::Product,
            _ => Precedence::Lowest,
        }
    }

    /// The binding power of a token of category `kind` as a binary
    /// operator; `Lowest` for a token that is none.
    pub fn binding(kind: TokenKind) -> (precedence: Precedence)
        ensures
            precedence == Precedence::of(kind),
    {
        match kind {
            TokenKind::Eq | TokenKind::NotEq => Precedence::Equals,
            TokenKind::Lt | TokenKind::Gt => Precedence::LessGreater,
            TokenKind::Plus | TokenKind::Minus => Precedence::Sum,
            TokenKind::Asterisk | TokenKind::Slash => Precedence::Product,
            _ => Precedence::Lowest,
        }
    }
}

} // verus!
