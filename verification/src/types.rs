//! Parser-level types: the precedence ladder of the Pratt parser.

use crate::token::TokenType;
use vstd::prelude::*;

verus! {

/// Precedence levels, lowest first.  `PREFIX` is bound by recursion rather
/// than by the table; `CALL` makes `(` the tightest infix.
#[derive(Debug, PartialEq, Eq, Clone, Copy, Structural)]
#[allow(non_camel_case_types)]
pub enum Precedences {
    LOWEST,
    EQUALS,
    LESSGREATER,
    SUM,
    PRODUCT,
    PREFIX,
    CALL,
}

pub type PrecedenceValue = usize;

/// The numeric value of a precedence level.
pub open spec fn spec_precedence_value(p: Precedences) -> PrecedenceValue {
    match p {
        Precedences::LOWEST => 0,
        Precedences::EQUALS => 1,
        Precedences::LESSGREATER => 2,
        Precedences::SUM => 3,
        Precedences::PRODUCT => 4,
        Precedences::PREFIX => 5,
        Precedences::CALL => 6,
    }
}

/// The precedence that a token carries when it stands in infix position.
/// Tokens outside the table parse at `LOWEST`.
pub open spec fn spec_token_precedence(t: TokenType) -> PrecedenceValue {
    match t {
        TokenType::ASSIGN => spec_precedence_value(Precedences::EQUALS),
        TokenType::EQ => spec_precedence_value(Precedences::EQUALS),
        TokenType::NOTEQ => spec_precedence_value(Precedences::EQUALS),
        TokenType::LT => spec_precedence_value(Precedences::LESSGREATER),
        TokenType::GT => spec_precedence_value(Precedences::LESSGREATER),
        TokenType::LTEQ => spec_precedence_value(Precedences::LESSGREATER),
        TokenType::GTEQ => spec_precedence_value(Precedences::LESSGREATER),
        TokenType::PLUS => spec_precedence_value(Precedences::SUM),
        TokenType::MINUS => spec_precedence_value(Precedences::SUM),
        TokenType::SLASH => spec_precedence_value(Precedences::PRODUCT),
        TokenType::ASTERISK => spec_precedence_value(Precedences::PRODUCT),
        TokenType::LPAREN => spec_precedence_value(Precedences::CALL),
        _ => spec_precedence_value(Precedences::LOWEST),
    }
}

} // verus!
