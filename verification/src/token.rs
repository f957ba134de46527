//! Tokens produced by the scanner.

use crate::chars::str_equal;
use vstd::prelude::*;

verus! {

#[derive(Debug, PartialEq, Eq, Clone, Copy, Hash, Structural)]
#[allow(non_camel_case_types)]
pub enum TokenType {
    EOF,
    ILLIGAL,
    // Identifiers and literals
    IDENTIFIER,
    STRING,
    INT,
    // Operators
    ASSIGN,
    EQ,
    NOTEQ,
    PLUS,
    MINUS,
    BANG,
    ASTERISK,
    SLASH,
    LT,
    GT,
    LTEQ,
    GTEQ,
    // Delimiters
    COMMA,
    SEMICOLON,
    LPAREN,
    RPAREN,
    LBRACE,
    RBRACE,
    // Keywords
    LET,
    FUNCTION,
    NULL,
    TRUE,
    FALSE,
    IF,
    ELSE,
    RETURN,
}

/// A token: its kind, the literal text it was scanned from, and the source
/// line (zero-based) of its first character.
#[derive(Debug, PartialEq)]
pub struct Token {
    pub token_type: TokenType,
    pub literal: String,
    pub line: usize,
}

/// The mathematical image of a token: the literal as a character sequence.
pub struct GToken {
    pub token_type: TokenType,
    pub literal: Seq<char>,
    pub line: nat,
}

impl View for Token {
    type V = GToken;

    open spec fn view(&self) -> GToken {
        GToken { token_type: self.token_type, literal: self.literal@, line: self.line as nat }
    }
}

impl Clone for Token {
    fn clone(&self) -> (res: Self)
        ensures
            res == *self,
    {
        Token { token_type: self.token_type, literal: self.literal.clone(), line: self.line }
    }
}

/// The kind an identifier's text resolves to: one of the reserved words, or
/// `IDENTIFIER` for everything else.
pub open spec fn spec_keyword_type(s: Seq<char>) -> TokenType {
    if s == "let"@ {
        TokenType::LET
    } else if s == "null"@ {
        TokenType::NULL
    } else if s == "fn"@ {
        TokenType::FUNCTION
    } else if s == "if"@ {
        TokenType::IF
    } else if s == "else"@ {
        TokenType::ELSE
    } else if s == "return"@ {
        TokenType::RETURN
    } else if s == "true"@ {
        TokenType::TRUE
    } else if s == "false"@ {
        TokenType::FALSE
    } else {
        TokenType::IDENTIFIER
    }
}

/// When resolving an identifier, check whether it is a reserved word.
pub fn lookup_indentifier(indent: &str) -> (t: TokenType)
    ensures
        t == spec_keyword_type(indent@),
{
    if str_equal(indent, "let") {
        TokenType::LET
    } else if str_equal(indent, "null") {
        TokenType::NULL
    } else if str_equal(indent, "fn") {
        TokenType::FUNCTION
    } else if str_equal(indent, "if") {
        TokenType::IF
    } else if str_equal(indent, "else") {
        TokenType::ELSE
    } else if str_equal(indent, "return") {
        TokenType::RETURN
    } else if str_equal(indent, "true") {
        TokenType::TRUE
    } else if str_equal(indent, "false") {
        TokenType::FALSE
    } else {
        TokenType::IDENTIFIER
    }
}

} // verus!
