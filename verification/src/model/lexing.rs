//! The scanner's specification: a recursive description of how a character
//! sequence is cut into tokens.
//!
//! `spec_tokenise` is the reference meaning of scanning.  The executable
//! `Lexer` is proved to produce exactly this token sequence.  Positions are
//! character indices into the source; a position equal to the length means
//! the cursor is past the last character.

use crate::chars::{is_digit_char, is_letter_char, is_whitespace_char};
use crate::token::{spec_keyword_type, GToken, TokenType};
use vstd::prelude::*;

verus! {

/// The character at position `p`, with `'\0'` standing for "past the end".
pub open spec fn char_at(s: Seq<char>, p: int) -> char {
    if 0 <= p < s.len() {
        s[p]
    } else {
        '\0'
    }
}

/// The number of newline characters among the first `k` characters.
pub open spec fn newline_count(s: Seq<char>, k: int) -> nat
    decreases k,
{
    if k <= 0 {
        0
    } else if k > s.len() {
        newline_count(s, s.len() as int)
    } else {
        newline_count(s, k - 1) + (if s[k - 1] == '\n' {
            1nat
        } else {
            0nat
        })
    }
}

/// The line (zero-based) on which the character at position `p` stands: the
/// scanner counts a newline the moment it loads it, so the count runs over
/// the prefix up to and including `p`.
pub open spec fn line_at(s: Seq<char>, p: int) -> nat {
    if p + 1 <= s.len() {
        newline_count(s, p + 1)
    } else {
        newline_count(s, s.len() as int)
    }
}

/// First position at or after `p` whose character is not whitespace.
pub open spec fn skip_whitespace_end(s: Seq<char>, p: int) -> int
    decreases s.len() - p,
{
    if 0 <= p < s.len() && is_whitespace_char(s[p]) {
        skip_whitespace_end(s, p + 1)
    } else {
        p
    }
}

/// First position at or after `p` holding a newline, or the end of input:
/// where a line comment stops.
pub open spec fn comment_end(s: Seq<char>, p: int) -> int
    decreases s.len() - p,
{
    if 0 <= p < s.len() && s[p] != '\n' {
        comment_end(s, p + 1)
    } else if 0 <= p < s.len() {
        p
    } else {
        s.len() as int
    }
}

/// First position at or after `p` whose character no longer continues an
/// identifier.
pub open spec fn ident_end(s: Seq<char>, p: int) -> int
    decreases s.len() - p,
{
    if 0 <= p < s.len() && is_letter_char(s[p]) {
        ident_end(s, p + 1)
    } else {
        p
    }
}

/// First position at or after `p` whose character no longer continues a
/// numeric literal.  A quirk kept from the surface design: `.` is scanned as
/// part of the digit run.
pub open spec fn number_end(s: Seq<char>, p: int) -> int
    decreases s.len() - p,
{
    if 0 <= p < s.len() && (is_digit_char(s[p]) || s[p] == '.') {
        number_end(s, p + 1)
    } else {
        p
    }
}

/// First position at or after `p` holding a closing double quote, or the end
/// of input.
pub open spec fn string_end(s: Seq<char>, p: int) -> int
    decreases s.len() - p,
{
    if 0 <= p < s.len() && s[p] != '"' {
        string_end(s, p + 1)
    } else if 0 <= p < s.len() {
        p
    } else {
        s.len() as int
    }
}

/// A token of one or two fixed characters.
pub open spec fn punct_token(t: TokenType, lit: Seq<char>, s: Seq<char>, p: int, width: int) -> (
    GToken,
    int,
) {
    (GToken { token_type: t, literal: lit, line: line_at(s, p) }, p + width)
}

/// The next token starting at the (whitespace-free) position `p`, together
/// with the position after it.  `p` must already point at a non-whitespace
/// character; `spec_next_token` takes care of that.
pub open spec fn scan_token(s: Seq<char>, p: int) -> (GToken, int)
    decreases s.len() - p,
        1int,
{
    if !(0 <= p < s.len()) {
        (
            GToken {
                token_type: TokenType::EOF,
                literal: "\0"@,
                line: line_at(s, s.len() as int),
            },
            s.len() as int,
        )
    } else {
        let c = s[p];
        if c == '=' {
            if char_at(s, p + 1) == '=' {
                punct_token(TokenType::EQ, "=="@, s, p, 2)
            } else {
                punct_token(TokenType::ASSIGN, "="@, s, p, 1)
            }
        } else if c == '+' {
            punct_token(TokenType::PLUS, "+"@, s, p, 1)
        } else if c == '-' {
            punct_token(TokenType::MINUS, "-"@, s, p, 1)
        } else if c == ';' {
            punct_token(TokenType::SEMICOLON, ";"@, s, p, 1)
        } else if c == '(' {
            punct_token(TokenType::LPAREN, "("@, s, p, 1)
        } else if c == ')' {
            punct_token(TokenType::RPAREN, ")"@, s, p, 1)
        } else if c == '{' {
            punct_token(TokenType::LBRACE, "{"@, s, p, 1)
        } else if c == '}' {
            punct_token(TokenType::RBRACE, "}"@, s, p, 1)
        } else if c == ',' {
            punct_token(TokenType::COMMA, ","@, s, p, 1)
        } else if c == '!' {
            if char_at(s, p + 1) == '=' {
                punct_token(TokenType::NOTEQ, "!="@, s, p, 2)
            } else {
                punct_token(TokenType::BANG, "!"@, s, p, 1)
            }
        } else if c == '*' {
            punct_token(TokenType::ASTERISK, "*"@, s, p, 1)
        } else if c == '<' {
            if char_at(s, p + 1) == '=' {
                punct_token(TokenType::LTEQ, "<="@, s, p, 2)
            } else {
                punct_token(TokenType::LT, "<"@, s, p, 1)
            }
        } else if c == '>' {
            if char_at(s, p + 1) == '=' {
                punct_token(TokenType::GTEQ, ">="@, s, p, 2)
            } else {
                punct_token(TokenType::GT, ">"@, s, p, 1)
            }
        } else if c == '/' {
            if char_at(s, p + 1) == '/' {
                // A line comment: skip to the newline and scan on from there.
                let q = comment_end(s, p);
                if p < q <= s.len() {
                    spec_next_token(s, q)
                } else {
                    // Unreachable: a comment always ends at or before the end
                    // of input, past its opening slashes.
                    punct_token(TokenType::ILLIGAL, "\0"@, s, p, 1)
                }
            } else {
                punct_token(TokenType::SLASH, "/"@, s, p, 1)
            }
        } else if c == '"' {
            let e = string_end(s, p + 1);
            (
                GToken {
                    token_type: TokenType::STRING,
                    literal: s.subrange(p + 1, e),
                    line: line_at(s, p),
                },
                if e < s.len() {
                    e + 1
                } else {
                    s.len() as int
                },
            )
        } else if is_letter_char(c) {
            let e = ident_end(s, p);
            let lit = s.subrange(p, e);
            (
                GToken { token_type: spec_keyword_type(lit), literal: lit, line: line_at(s, p) },
                e,
            )
        } else if is_digit_char(c) {
            let e = number_end(s, p);
            (
                GToken {
                    token_type: TokenType::INT,
                    literal: s.subrange(p, e),
                    line: line_at(s, p),
                },
                e,
            )
        } else {
            punct_token(TokenType::ILLIGAL, "\0"@, s, p, 1)
        }
    }
}

/// The next token at or after position `pos`, skipping whitespace, and the
/// position after it.
pub open spec fn spec_next_token(s: Seq<char>, pos: int) -> (GToken, int)
    decreases s.len() - pos,
        2int,
{
    let p = skip_whitespace_end(s, pos);
    if pos <= p <= s.len() {
        scan_token(s, p)
    } else {
        // Unreachable: skipping whitespace never moves the cursor backwards
        // nor past the end of input.
        (
            GToken {
                token_type: TokenType::EOF,
                literal: "\0"@,
                line: line_at(s, s.len() as int),
            },
            s.len() as int,
        )
    }
}

/// The token sequence from position `pos` to the end of input, closed by the
/// end-of-input token.
pub open spec fn spec_tokenise(s: Seq<char>, pos: int) -> Seq<GToken>
    decreases s.len() - pos,
{
    let (t, p2) = spec_next_token(s, pos);
    if t.token_type == TokenType::EOF || !(pos < p2 <= s.len()) {
        seq![t]
    } else {
        seq![t] + spec_tokenise(s, p2)
    }
}

pub proof fn lemma_newline_count_bound(s: Seq<char>, k: int)
    ensures
        k >= 0 ==> newline_count(s, k) <= k,
        newline_count(s, k) <= s.len(),
    decreases k,
{
    if k > s.len() {
        lemma_newline_count_bound(s, s.len() as int);
    } else if k > 0 {
        lemma_newline_count_bound(s, k - 1);
    }
}

pub proof fn lemma_newline_count_monotone(s: Seq<char>, j: int, k: int)
    requires
        j <= k,
    ensures
        newline_count(s, j) <= newline_count(s, k),
    decreases k - j,
{
    if j < k {
        if k > s.len() {
            if j <= s.len() {
                lemma_newline_count_monotone(s, j, s.len() as int);
            }
        } else {
            lemma_newline_count_monotone(s, j, k - 1);
        }
    }
}

pub proof fn lemma_line_at_monotone(s: Seq<char>, p: int, q: int)
    requires
        p <= q,
    ensures
        line_at(s, p) <= line_at(s, q),
{
    if q + 1 <= s.len() {
        lemma_newline_count_monotone(s, p + 1, q + 1);
    } else if p + 1 <= s.len() {
        lemma_newline_count_monotone(s, p + 1, s.len() as int);
    }
}

pub proof fn lemma_skip_whitespace_bounds(s: Seq<char>, p: int)
    requires
        0 <= p <= s.len(),
    ensures
        p <= skip_whitespace_end(s, p) <= s.len(),
        skip_whitespace_end(s, p) < s.len() ==> !is_whitespace_char(
            s[skip_whitespace_end(s, p)],
        ),
    decreases s.len() - p,
{
    if p < s.len() && is_whitespace_char(s[p]) {
        lemma_skip_whitespace_bounds(s, p + 1);
    }
}

pub proof fn lemma_comment_end_bounds(s: Seq<char>, p: int)
    requires
        0 <= p <= s.len(),
    ensures
        p <= comment_end(s, p) <= s.len(),
        comment_end(s, p) < s.len() ==> s[comment_end(s, p)] == '\n',
    decreases s.len() - p,
{
    if p < s.len() && s[p] != '\n' {
        lemma_comment_end_bounds(s, p + 1);
    }
}

pub proof fn lemma_ident_end_bounds(s: Seq<char>, p: int)
    requires
        0 <= p <= s.len(),
    ensures
        p <= ident_end(s, p) <= s.len(),
        ident_end(s, p) < s.len() ==> !is_letter_char(s[ident_end(s, p)]),
    decreases s.len() - p,
{
    if p < s.len() && is_letter_char(s[p]) {
        lemma_ident_end_bounds(s, p + 1);
    }
}

pub proof fn lemma_number_end_bounds(s: Seq<char>, p: int)
    requires
        0 <= p <= s.len(),
    ensures
        p <= number_end(s, p) <= s.len(),
        number_end(s, p) < s.len() ==> !(is_digit_char(s[number_end(s, p)]) || s[number_end(
            s,
            p,
        )] == '.'),
    decreases s.len() - p,
{
    if p < s.len() && (is_digit_char(s[p]) || s[p] == '.') {
        lemma_number_end_bounds(s, p + 1);
    }
}

pub proof fn lemma_string_end_bounds(s: Seq<char>, p: int)
    requires
        0 <= p <= s.len(),
    ensures
        p <= string_end(s, p) <= s.len(),
        string_end(s, p) < s.len() ==> s[string_end(s, p)] == '"',
    decreases s.len() - p,
{
    if p < s.len() && s[p] != '"' {
        lemma_string_end_bounds(s, p + 1);
    }
}

/// Scanning one token always advances the cursor, stays inside the input,
/// only reports end-of-input at the very end, and attaches a line number
/// between those of the surrounding positions.
pub proof fn lemma_next_token_advances(s: Seq<char>, pos: int)
    requires
        0 <= pos <= s.len(),
    ensures
        ({
            let (t, p2) = spec_next_token(s, pos);
            &&& pos <= p2 <= s.len()
            &&& (t.token_type != TokenType::EOF ==> pos < p2)
            &&& (t.token_type == TokenType::EOF ==> p2 == s.len())
            &&& line_at(s, pos) <= t.line <= line_at(s, p2)
        }),
    decreases s.len() - pos,
{
    let p = skip_whitespace_end(s, pos);
    lemma_skip_whitespace_bounds(s, pos);
    lemma_line_at_monotone(s, pos, p);
    let (t, p2) = spec_next_token(s, pos);
    if p < s.len() {
        let c = s[p];
        if c == '/' && char_at(s, p + 1) == '/' {
            lemma_comment_end_bounds(s, p);
            let q = comment_end(s, p);
            lemma_next_token_advances(s, q);
            lemma_line_at_monotone(s, p, q);
        } else if c == '"' {
            lemma_string_end_bounds(s, p + 1);
            let e = string_end(s, p + 1);
            lemma_line_at_monotone(s, p, if e < s.len() {
                e + 1
            } else {
                s.len() as int
            });
        } else if is_letter_char(c) {
            lemma_ident_end_bounds(s, p);
            lemma_line_at_monotone(s, p, ident_end(s, p));
        } else if is_digit_char(c) {
            lemma_number_end_bounds(s, p);
            lemma_line_at_monotone(s, p, number_end(s, p));
        } else {
            lemma_line_at_monotone(s, p, p2);
        }
    }
}

/// Scanning is deterministic and well formed: from any position, the token
/// sequence is finite and non-empty, exactly its last token is end-of-input,
/// and line numbers never decrease along the sequence.
pub proof fn lemma_tokenise_well_formed(s: Seq<char>, pos: int)
    requires
        0 <= pos <= s.len(),
    ensures
        ({
            let toks = spec_tokenise(s, pos);
            &&& toks.len() >= 1
            &&& toks[toks.len() - 1].token_type == TokenType::EOF
            &&& (forall|i: int|
                0 <= i < toks.len() - 1 ==> toks[i].token_type != TokenType::EOF)
            &&& (forall|i: int| 0 <= i < toks.len() ==> line_at(s, pos) <= toks[i].line)
            &&& (forall|i: int, j: int|
                0 <= i <= j < toks.len() ==> toks[i].line <= toks[j].line)
        }),
    decreases s.len() - pos,
{
    let toks = spec_tokenise(s, pos);
    let (t, p2) = spec_next_token(s, pos);
    lemma_next_token_advances(s, pos);
    if t.token_type == TokenType::EOF || !(pos < p2 <= s.len()) {
    } else {
        lemma_tokenise_well_formed(s, p2);
        let rest = spec_tokenise(s, p2);
        assert(toks == seq![t] + rest);
        assert forall|i: int| 0 <= i < toks.len() implies line_at(s, pos) <= toks[i].line by {
            if i > 0 {
                assert(toks[i] == rest[i - 1]);
                lemma_line_at_monotone(s, pos, p2);
            }
        }
        assert forall|i: int, j: int| 0 <= i <= j < toks.len() implies toks[i].line
            <= toks[j].line by {
            if i == 0 && j > 0 {
                assert(toks[j] == rest[j - 1]);
            } else if i > 0 {
                assert(toks[i] == rest[i - 1]);
                assert(toks[j] == rest[j - 1]);
            }
        }
    }
}

} // verus!
