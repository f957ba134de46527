//! The parser's specification: Pratt precedence climbing over the token
//! images, producing the ghost syntax tree.
//!
//! Every function takes the position of a token in the stream and returns,
//! on success, the parsed node and the position of its last token.  A fuel
//! parameter bounds the recursion; the executable parser threads exactly the
//! same fuel, so the two sides agree step for step.

use crate::ast::{BinOp, PrefixOp};
use crate::error::BoltErrorType;
use crate::model::syntax::{GBlock, GExpr, GIdent, GStmt};
use crate::token::{GToken, TokenType};
use crate::types::{spec_precedence_value, spec_token_precedence, Precedences};
use vstd::prelude::*;

verus! {

/// The recursion budget handed to the grammar.  Parsing consumes at least
/// one token for every few budget steps, so no input that fits in memory
/// comes near exhausting it.
pub const PARSER_FUEL: u64 = 0xffff_ffff_ffff_ffff;

/// The token image at position `p`; past the end it degenerates to an
/// end-of-input token, which every grammar rule rejects or stops on.
pub open spec fn tk(ts: Seq<GToken>, p: int) -> GToken {
    if 0 <= p < ts.len() {
        ts[p]
    } else {
        GToken { token_type: TokenType::EOF, literal: "\0"@, line: 0 }
    }
}

/// The token kind at position `p`.
pub open spec fn tt(ts: Seq<GToken>, p: int) -> TokenType {
    tk(ts, p).token_type
}

/// The value of a decimal digit character.
pub open spec fn digit_val(c: char) -> int {
    c as u32 - '0' as u32
}

/// First position at or after `p` in the literal that is not a digit.
pub open spec fn digits_end(s: Seq<char>, p: int) -> int
    decreases s.len() - p,
{
    if 0 <= p < s.len() && crate::chars::is_digit_char(s[p]) {
        digits_end(s, p + 1)
    } else {
        p
    }
}

/// The number denoted by a digit sequence, most significant first.
pub open spec fn digits_value(s: Seq<char>) -> int
    decreases s,
{
    if s.len() == 0 {
        0
    } else {
        digits_value(s.drop_last()) * 10 + digit_val(s.last())
    }
}

/// The numeric value of an integer-literal token: the digits before any `.`
/// (the scanner admits `.` into the run; the fractional part is dropped).
/// `None` when the text does not start with a digit or the value does not
/// fit the machine integer.
pub open spec fn int_literal_value(s: Seq<char>) -> Option<i64> {
    if s.len() == 0 || !crate::chars::is_digit_char(s[0]) {
        None
    } else {
        let v = digits_value(s.subrange(0, digits_end(s, 0)));
        if v > i64::MAX {
            None
        } else {
            Some(v as i64)
        }
    }
}


pub proof fn lemma_digits_end_bounds(s: Seq<char>, p: int)
    requires
        0 <= p <= s.len(),
    ensures
        p <= digits_end(s, p) <= s.len(),
        digits_end(s, p) < s.len() ==> !crate::chars::is_digit_char(s[digits_end(s, p)]),
        forall|m: int| p <= m < digits_end(s, p) ==> crate::chars::is_digit_char(s[m]),
    decreases s.len() - p,
{
    if p < s.len() && crate::chars::is_digit_char(s[p]) {
        lemma_digits_end_bounds(s, p + 1);
    }
}

pub proof fn lemma_digits_value_nonneg(s: Seq<char>, j: int)
    requires
        0 <= j <= s.len(),
        forall|m: int| 0 <= m < j ==> crate::chars::is_digit_char(s[m]),
    ensures
        digits_value(s.subrange(0, j)) >= 0,
    decreases j,
{
    if j > 0 {
        lemma_digits_value_nonneg(s, j - 1);
        assert(s.subrange(0, j).drop_last() =~= s.subrange(0, j - 1));
        assert(s.subrange(0, j).last() == s[j - 1]);
    } else {
        assert(s.subrange(0, 0) =~= Seq::<char>::empty());
    }
}

/// A digit run's value only grows as more of its digits are taken in.
pub proof fn lemma_digits_value_grows(s: Seq<char>, j: int, k: int)
    requires
        0 <= j <= k <= s.len(),
        forall|m: int| 0 <= m < k ==> crate::chars::is_digit_char(s[m]),
    ensures
        0 <= digits_value(s.subrange(0, j)) <= digits_value(s.subrange(0, k)),
    decreases k - j,
{
    lemma_digits_value_nonneg(s, j);
    if j < k {
        lemma_digits_value_grows(s, j, k - 1);
        assert(s.subrange(0, k).drop_last() =~= s.subrange(0, k - 1));
        assert(s.subrange(0, k).last() == s[k - 1]);
    }
}

/// The binary operator denoted by an infix token.
pub open spec fn binop_of(t: TokenType) -> BinOp {
    match t {
        TokenType::PLUS => BinOp::Plus,
        TokenType::MINUS => BinOp::Minus,
        TokenType::ASTERISK => BinOp::Asterisk,
        TokenType::SLASH => BinOp::Slash,
        TokenType::LT => BinOp::Lt,
        TokenType::GT => BinOp::Gt,
        TokenType::EQ => BinOp::Eq,
        TokenType::NOTEQ => BinOp::NotEq,
        TokenType::LTEQ => BinOp::LtEq,
        TokenType::GTEQ => BinOp::GtEq,
        _ => BinOp::Plus,
    }
}

/// Whether an infix token is dispatched to a binary expression.
pub open spec fn is_binary_token(t: TokenType) -> bool {
    ||| t == TokenType::PLUS
    ||| t == TokenType::MINUS
    ||| t == TokenType::ASTERISK
    ||| t == TokenType::SLASH
    ||| t == TokenType::LT
    ||| t == TokenType::GT
    ||| t == TokenType::EQ
    ||| t == TokenType::NOTEQ
    ||| t == TokenType::LTEQ
    ||| t == TokenType::GTEQ
}

/// Parse the expression whose first token stands at `pos`, at the given
/// binding power: prefix dispatch, then the infix loop.
pub open spec fn spec_parse_expression(ts: Seq<GToken>, pos: int, prec: int, fuel: nat) -> Result<
    (GExpr, int),
    BoltErrorType,
>
    decreases fuel,
{
    if fuel == 0 {
        Err(BoltErrorType::INTERNAL)
    } else {
        let left = spec_parse_prefix(ts, pos, (fuel - 1) as nat);
        match left {
            Ok((e, last)) => spec_parse_infix_loop(ts, e, last, prec, (fuel - 1) as nat),
            Err(k) => Err(k),
        }
    }
}

/// The prefix dispatch: literals, identifiers, unary operators, grouping,
/// conditionals and function literals.
pub open spec fn spec_parse_prefix(ts: Seq<GToken>, pos: int, fuel: nat) -> Result<
    (GExpr, int),
    BoltErrorType,
>
    decreases fuel,
{
    if fuel == 0 {
        Err(BoltErrorType::INTERNAL)
    } else {
        let t = tt(ts, pos);
        if t == TokenType::INT {
            match int_literal_value(tk(ts, pos).literal) {
                Some(n) => Ok((GExpr::Int { tok: tk(ts, pos), n: n as int }, pos)),
                None => Err(BoltErrorType::PARSE),
            }
        } else if t == TokenType::NULL {
            Ok((GExpr::Null, pos))
        } else if t == TokenType::IDENTIFIER {
            Ok((GExpr::Ident { tok: tk(ts, pos), name: tk(ts, pos).literal }, pos))
        } else if t == TokenType::TRUE || t == TokenType::FALSE {
            Ok((GExpr::Bool { tok: tk(ts, pos), b: t == TokenType::TRUE }, pos))
        } else if t == TokenType::BANG || t == TokenType::MINUS {
            let op = if t == TokenType::BANG {
                PrefixOp::Bang
            } else {
                PrefixOp::Minus
            };
            match spec_parse_expression(
                ts,
                pos + 1,
                spec_precedence_value(Precedences::PREFIX) as int,
                (fuel - 1) as nat,
            ) {
                Ok((right, last)) => Ok(
                    (GExpr::Prefix { tok: tk(ts, pos), op, right: Box::new(right) }, last),
                ),
                Err(k) => Err(k),
            }
        } else if t == TokenType::LPAREN {
            match spec_parse_expression(
                ts,
                pos + 1,
                spec_precedence_value(Precedences::LOWEST) as int,
                (fuel - 1) as nat,
            ) {
                Ok((inner, last)) => if tt(ts, last + 1) == TokenType::RPAREN {
                    Ok((inner, last + 1))
                } else {
                    Err(BoltErrorType::PARSE)
                },
                Err(k) => Err(k),
            }
        } else if t == TokenType::IF {
            spec_parse_if(ts, pos, (fuel - 1) as nat)
        } else if t == TokenType::FUNCTION {
            spec_parse_function(ts, pos, (fuel - 1) as nat)
        } else if t == TokenType::EOF {
            Err(BoltErrorType::EOF)
        } else {
            Err(BoltErrorType::PARSE)
        }
    }
}

/// The infix loop: while the peek token is not `;` and binds tighter than
/// the caller, fold it into the left-hand tree.
pub open spec fn spec_parse_infix_loop(
    ts: Seq<GToken>,
    left: GExpr,
    pos: int,
    prec: int,
    fuel: nat,
) -> Result<(GExpr, int), BoltErrorType>
    decreases fuel,
{
    if fuel == 0 {
        Err(BoltErrorType::INTERNAL)
    } else {
        let pt = tt(ts, pos + 1);
        if pt == TokenType::SEMICOLON || !(prec < spec_token_precedence(pt) as int) {
            Ok((left, pos))
        } else if is_binary_token(pt) {
            match spec_parse_expression(
                ts,
                pos + 2,
                spec_token_precedence(pt) as int,
                (fuel - 1) as nat,
            ) {
                Ok((right, last)) => spec_parse_infix_loop(
                    ts,
                    GExpr::Binary {
                        tok: tk(ts, pos + 1),
                        op: binop_of(pt),
                        left: Box::new(left),
                        right: Box::new(right),
                    },
                    last,
                    prec,
                    (fuel - 1) as nat,
                ),
                Err(k) => Err(k),
            }
        } else if pt == TokenType::LPAREN {
            match spec_parse_call_args(ts, pos + 1, Seq::empty(), (fuel - 1) as nat) {
                Ok((args, last)) => spec_parse_infix_loop(
                    ts,
                    GExpr::Call { tok: tk(ts, pos + 1), callee: Box::new(left), args },
                    last,
                    prec,
                    (fuel - 1) as nat,
                ),
                Err(k) => Err(k),
            }
        } else {
            // A token in the precedence table with no infix rule (`=`): the
            // expression ends before it.
            Ok((left, pos))
        }
    }
}

/// Call arguments: comma-separated expressions; commas only separate, and a
/// bare `)` ends the list.  `pos` is the last consumed token.
pub open spec fn spec_parse_call_args(
    ts: Seq<GToken>,
    pos: int,
    acc: Seq<GExpr>,
    fuel: nat,
) -> Result<(Seq<GExpr>, int), BoltErrorType>
    decreases fuel,
{
    if fuel == 0 {
        Err(BoltErrorType::INTERNAL)
    } else {
        let pt = tt(ts, pos + 1);
        if pt == TokenType::RPAREN {
            Ok((acc, pos + 1))
        } else if pt == TokenType::COMMA {
            spec_parse_call_args(ts, pos + 1, acc, (fuel - 1) as nat)
        } else {
            match spec_parse_expression(
                ts,
                pos + 1,
                spec_precedence_value(Precedences::LOWEST) as int,
                (fuel - 1) as nat,
            ) {
                Ok((arg, last)) => spec_parse_call_args(ts, last, acc.push(arg), (fuel - 1) as nat),
                Err(k) => Err(k),
            }
        }
    }
}

/// `if` `(` expression `)` block, with an optional `else` block.
pub open spec fn spec_parse_if(ts: Seq<GToken>, pos: int, fuel: nat) -> Result<
    (GExpr, int),
    BoltErrorType,
>
    decreases fuel,
{
    if fuel == 0 {
        Err(BoltErrorType::INTERNAL)
    } else if tt(ts, pos + 1) != TokenType::LPAREN {
        Err(BoltErrorType::PARSE)
    } else {
        match spec_parse_expression(
            ts,
            pos + 2,
            spec_precedence_value(Precedences::LOWEST) as int,
            (fuel - 1) as nat,
        ) {
            Ok((cond, clast)) => if tt(ts, clast + 1) != TokenType::RPAREN {
                Err(BoltErrorType::PARSE)
            } else if tt(ts, clast + 2) != TokenType::LBRACE {
                Err(BoltErrorType::PARSE)
            } else {
                match spec_parse_block(ts, clast + 2, (fuel - 1) as nat) {
                    Ok((cons, blast)) => if tt(ts, blast + 1) == TokenType::ELSE {
                        if tt(ts, blast + 2) != TokenType::LBRACE {
                            Err(BoltErrorType::PARSE)
                        } else {
                            match spec_parse_block(ts, blast + 2, (fuel - 1) as nat) {
                                Ok((alt, alast)) => Ok(
                                    (
                                        GExpr::If {
                                            tok: tk(ts, pos),
                                            cond: Box::new(cond),
                                            cons,
                                            alt: Some(alt),
                                        },
                                        alast,
                                    ),
                                ),
                                Err(k) => Err(k),
                            }
                        }
                    } else {
                        Ok(
                            (
                                GExpr::If {
                                    tok: tk(ts, pos),
                                    cond: Box::new(cond),
                                    cons,
                                    alt: None,
                                },
                                blast,
                            ),
                        )
                    },
                    Err(k) => Err(k),
                }
            },
            Err(k) => Err(k),
        }
    }
}

/// `fn` `(` identifiers `)` block.  Commas in the parameter list only
/// separate; a bare `)` ends it.
pub open spec fn spec_parse_function(ts: Seq<GToken>, pos: int, fuel: nat) -> Result<
    (GExpr, int),
    BoltErrorType,
>
    decreases fuel,
{
    if fuel == 0 {
        Err(BoltErrorType::INTERNAL)
    } else if tt(ts, pos + 1) != TokenType::LPAREN {
        Err(BoltErrorType::PARSE)
    } else {
        match spec_parse_params(ts, pos + 1, Seq::empty(), (fuel - 1) as nat) {
            Ok((params, plast)) => if tt(ts, plast + 1) != TokenType::LBRACE {
                Err(BoltErrorType::PARSE)
            } else {
                match spec_parse_block(ts, plast + 1, (fuel - 1) as nat) {
                    Ok((body, blast)) => Ok(
                        (GExpr::FnLit { tok: tk(ts, pos), params, body }, blast),
                    ),
                    Err(k) => Err(k),
                }
            },
            Err(k) => Err(k),
        }
    }
}

/// Parameter names up to the closing `)`.  `pos` is the last consumed token.
pub open spec fn spec_parse_params(ts: Seq<GToken>, pos: int, acc: Seq<GIdent>, fuel: nat) -> Result<
    (Seq<GIdent>, int),
    BoltErrorType,
>
    decreases fuel,
{
    if fuel == 0 {
        Err(BoltErrorType::INTERNAL)
    } else {
        let pt = tt(ts, pos + 1);
        if pt == TokenType::RPAREN {
            Ok((acc, pos + 1))
        } else if pt == TokenType::COMMA {
            spec_parse_params(ts, pos + 1, acc, (fuel - 1) as nat)
        } else if pt == TokenType::IDENTIFIER {
            spec_parse_params(
                ts,
                pos + 1,
                acc.push(GIdent { tok: tk(ts, pos + 1), name: tk(ts, pos + 1).literal }),
                (fuel - 1) as nat,
            )
        } else if pt == TokenType::EOF {
            Err(BoltErrorType::EOF)
        } else {
            Err(BoltErrorType::PARSE)
        }
    }
}

/// A block: statements until `}` or the end of input, stray semicolons
/// skipped.  `lbrace` is the position of the opening `{`; the block's token
/// is the first token inside the braces.  The returned position is that of
/// the terminator.
pub open spec fn spec_parse_block(ts: Seq<GToken>, lbrace: int, fuel: nat) -> Result<
    (GBlock, int),
    BoltErrorType,
>
    decreases fuel, 1int,
{
    spec_parse_block_stmts(ts, lbrace, tk(ts, lbrace + 1), Seq::empty(), fuel)
}

pub open spec fn spec_parse_block_stmts(
    ts: Seq<GToken>,
    pos: int,
    tok0: GToken,
    acc: Seq<GStmt>,
    fuel: nat,
) -> Result<(GBlock, int), BoltErrorType>
    decreases fuel, 0int,
{
    if fuel == 0 {
        Err(BoltErrorType::INTERNAL)
    } else {
        let pt = tt(ts, pos + 1);
        if pt == TokenType::SEMICOLON {
            spec_parse_block_stmts(ts, pos + 1, tok0, acc, (fuel - 1) as nat)
        } else if pt == TokenType::RBRACE || pt == TokenType::EOF {
            // The terminator may be the virtual end-of-input past the last
            // token; the cursor saturates there.
            Ok(
                (
                    GBlock { tok: tok0, stmts: acc },
                    if pos < ts.len() {
                        pos + 1
                    } else {
                        pos
                    },
                ),
            )
        } else {
            match spec_parse_statement(ts, pos + 1, (fuel - 1) as nat) {
                Ok((s, last)) => spec_parse_block_stmts(
                    ts,
                    last,
                    tok0,
                    acc.push(s),
                    (fuel - 1) as nat,
                ),
                Err(k) => Err(k),
            }
        }
    }
}

/// One statement, starting at `pos`: `let`, `return`, or an expression
/// statement; a single trailing semicolon is consumed.
pub open spec fn spec_parse_statement(ts: Seq<GToken>, pos: int, fuel: nat) -> Result<
    (GStmt, int),
    BoltErrorType,
>
    decreases fuel,
{
    if fuel == 0 {
        Err(BoltErrorType::INTERNAL)
    } else {
        let t = tt(ts, pos);
        if t == TokenType::LET {
            spec_parse_let(ts, pos, (fuel - 1) as nat)
        } else if t == TokenType::RETURN {
            match spec_parse_expression(
                ts,
                pos + 1,
                spec_precedence_value(Precedences::LOWEST) as int,
                (fuel - 1) as nat,
            ) {
                Ok((e, last)) => Ok(
                    (
                        GStmt::Return { tok: tk(ts, pos), value: e },
                        skip_one_semicolon(ts, last),
                    ),
                ),
                Err(k) => Err(k),
            }
        } else {
            match spec_parse_expression(
                ts,
                pos,
                spec_precedence_value(Precedences::LOWEST) as int,
                (fuel - 1) as nat,
            ) {
                Ok((e, last)) => Ok(
                    (GStmt::Expr { tok: tk(ts, pos), value: e }, skip_one_semicolon(ts, last)),
                ),
                Err(k) => Err(k),
            }
        }
    }
}

/// The position after consuming an optional trailing semicolon.
pub open spec fn skip_one_semicolon(ts: Seq<GToken>, pos: int) -> int {
    if tt(ts, pos + 1) == TokenType::SEMICOLON {
        pos + 1
    } else {
        pos
    }
}

/// `let` name `=` expression, with an optional trailing semicolon.
pub open spec fn spec_parse_let(ts: Seq<GToken>, pos: int, fuel: nat) -> Result<
    (GStmt, int),
    BoltErrorType,
>
    decreases fuel,
{
    if fuel == 0 {
        Err(BoltErrorType::INTERNAL)
    } else if tt(ts, pos + 1) != TokenType::IDENTIFIER {
        Err(BoltErrorType::PARSE)
    } else if tt(ts, pos + 2) != TokenType::ASSIGN {
        Err(BoltErrorType::PARSE)
    } else {
        match spec_parse_expression(
            ts,
            pos + 3,
            spec_precedence_value(Precedences::LOWEST) as int,
            (fuel - 1) as nat,
        ) {
            Ok((e, last)) => Ok(
                (
                    GStmt::Let {
                        tok: tk(ts, pos),
                        ident: GIdent {
                            tok: tk(ts, pos + 1),
                            name: tk(ts, pos + 1).literal,
                        },
                        value: e,
                    },
                    skip_one_semicolon(ts, last),
                ),
            ),
            Err(k) => Err(k),
        }
    }
}

/// The whole program: statements until the end-of-input token.  An
/// end-of-input error from inside a statement ends the program quietly, as
/// the surface design asks; any other parse error aborts it.
pub open spec fn spec_parse_program_stmts(
    ts: Seq<GToken>,
    pos: int,
    acc: Seq<GStmt>,
    fuel: nat,
) -> Result<Seq<GStmt>, BoltErrorType>
    decreases fuel,
{
    if fuel == 0 {
        Err(BoltErrorType::INTERNAL)
    } else if tt(ts, pos) == TokenType::EOF {
        Ok(acc)
    } else {
        match spec_parse_statement(ts, pos, (fuel - 1) as nat) {
            Ok((s, last)) => spec_parse_program_stmts(ts, last + 1, acc.push(s), (fuel - 1) as nat),
            Err(k) => if k == BoltErrorType::EOF {
                Ok(acc)
            } else {
                Err(k)
            },
        }
    }
}

pub open spec fn spec_parse_program(ts: Seq<GToken>, fuel: nat) -> Result<
    Seq<GStmt>,
    BoltErrorType,
> {
    spec_parse_program_stmts(ts, 0, Seq::empty(), fuel)
}

} // verus!
