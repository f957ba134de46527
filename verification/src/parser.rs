//! The Pratt parser: top-down operator-precedence parsing over the scanned
//! token stream, proved to build exactly the tree of
//! [`crate::model::parsing::spec_parse_program`].
//!
//! The cursor convention: every parse function is entered with the current
//! token being the first token of its construct, and leaves the cursor on
//! the construct's last token.  A fuel counter bounds the recursion; the
//! specification threads the same counter, so the two sides agree step for
//! step.

use crate::ast::{
    BinOp, BinaryExpression, BlockStatement, Boolean, CallExpression, Expression,
    ExpressionStatement, FunctionLiteral, Identifier, IfExpression, IntegerLiteral, LetStatement,
    NullLiteral, PrefixExpression, PrefixOp, Program, ReturnStatement, Statement,
};
use crate::chars::{is_digit, str_chars};
use crate::error::{BoltError, BoltErrorType, ParseError};
use crate::lexer::{tokens_view, Lexer};
use crate::model::lexing::spec_tokenise;
use crate::model::parsing::{
    digit_val, digits_end, digits_value, int_literal_value, is_binary_token, spec_parse_block,
    PARSER_FUEL,
    spec_parse_call_args, spec_parse_expression, spec_parse_function, spec_parse_if,
    spec_parse_infix_loop, spec_parse_let, spec_parse_params, spec_parse_prefix,
    spec_parse_program, spec_parse_program_stmts, spec_parse_statement, tk, tt,
};
use crate::model::syntax::{
    expr_view, exprs_view, idents_view, lemma_exprs_view_push, lemma_stmts_view_push, stmt_view,
    stmts_view, GExpr, GIdent, GStmt,
};
use crate::token::{GToken, Token, TokenType};
use crate::types::{spec_precedence_value, spec_token_precedence, Precedences};
use vstd::prelude::*;
use vstd::string::StringExecFns;

verus! {

pub struct Parser {
    tokens: Vec<Token>,
    pos: usize,
}

impl Parser {
    /// The token images the parser walks over.
    pub closed spec fn toks(&self) -> Seq<GToken> {
        tokens_view(self.tokens@)
    }

    pub closed spec fn pos(&self) -> int {
        self.pos as int
    }

    /// The cursor never runs more than one step past the last token.
    pub closed spec fn inv(&self) -> bool {
        self.pos <= self.tokens@.len()
    }

    pub fn new(source: &str) -> (p: Parser)
        ensures
            p.inv(),
            p.pos() == 0,
            p.toks() == spec_tokenise(source@, 0),
    {
        let mut lexer = Lexer::new(source);
        let tokens = lexer.get_tokens();
        Parser { tokens, pos: 0 }
    }

    /// The token under the cursor; a degenerate end-of-input token once the
    /// cursor has moved past the stream.
    fn get_current_token(&self) -> (t: Token)
        requires
            self.inv(),
        ensures
            t@ == tk(self.toks(), self.pos()),
    {
        proof {
            assert(self.toks().len() == self.tokens@.len());
        }
        if self.pos < self.tokens.len() {
            let t = &self.tokens[self.pos];
            proof {
                assert(tk(self.toks(), self.pos()) == self.tokens@[self.pos as int]@);
            }
            t.clone()
        } else {
            Token { token_type: TokenType::EOF, literal: String::from_str("\0"), line: 0 }
        }
    }

    /// The kind of the token under the cursor.
    fn current_token(&self) -> (t: TokenType)
        requires
            self.inv(),
        ensures
            t == tt(self.toks(), self.pos()),
    {
        proof {
            assert(self.toks().len() == self.tokens@.len());
        }
        if self.pos < self.tokens.len() {
            proof {
                assert(tk(self.toks(), self.pos()) == self.tokens@[self.pos as int]@);
            }
            self.tokens[self.pos].token_type
        } else {
            TokenType::EOF
        }
    }

    fn check_current_token_match(&self, token_type: TokenType) -> (r: bool)
        requires
            self.inv(),
        ensures
            r == (tt(self.toks(), self.pos()) == token_type),
    {
        self.current_token() == token_type
    }

    /// The token one past the cursor.
    fn get_peek_token(&self) -> (t: Token)
        requires
            self.inv(),
        ensures
            t@ == tk(self.toks(), self.pos() + 1),
    {
        let n = self.tokens.len();
        proof {
            assert(self.toks().len() == self.tokens@.len());
        }
        if n >= 1 && self.pos < n - 1 {
            let t = &self.tokens[self.pos + 1];
            proof {
                assert(tk(self.toks(), self.pos() + 1) == self.tokens@[self.pos + 1]@);
            }
            t.clone()
        } else {
            Token { token_type: TokenType::EOF, literal: String::from_str("\0"), line: 0 }
        }
    }

    /// The kind of the token one past the cursor.
    fn peek_token_type(&self) -> (t: TokenType)
        requires
            self.inv(),
        ensures
            t == tt(self.toks(), self.pos() + 1),
    {
        let n = self.tokens.len();
        proof {
            assert(self.toks().len() == self.tokens@.len());
        }
        if n >= 1 && self.pos < n - 1 {
            proof {
                assert(tk(self.toks(), self.pos() + 1) == self.tokens@[self.pos + 1]@);
            }
            self.tokens[self.pos + 1].token_type
        } else {
            TokenType::EOF
        }
    }

    fn check_peek_token_match(&self, token_type: TokenType) -> (r: bool)
        requires
            self.inv(),
        ensures
            r == (tt(self.toks(), self.pos() + 1) == token_type),
    {
        self.peek_token_type() == token_type
    }

    /// Advance the cursor one token, saturating one step past the stream.
    fn next_token(&mut self)
        requires
            old(self).inv(),
        ensures
            final(self).inv(),
            final(self).toks() == old(self).toks(),
            final(self).pos() == if old(self).pos() < old(self).toks().len() {
                old(self).pos() + 1
            } else {
                old(self).pos()
            },
    {
        proof {
            assert(self.toks().len() == self.tokens@.len());
        }
        if self.pos < self.tokens.len() {
            self.pos = self.pos + 1;
        }
    }

    /// If the peek token has the wanted kind, advance onto it.
    fn expect_peek_token_with_type(&mut self, token_type: TokenType) -> (r: bool)
        requires
            old(self).inv(),
            token_type != TokenType::EOF,
        ensures
            final(self).inv(),
            final(self).toks() == old(self).toks(),
            r == (tt(old(self).toks(), old(self).pos() + 1) == token_type),
            r ==> final(self).pos() == old(self).pos() + 1,
            !r ==> final(self).pos() == old(self).pos(),
    {
        let flag = self.check_peek_token_match(token_type);
        if flag {
            self.next_token();
        }
        flag
    }

    /// If the cursor stands on a semicolon, step past it.
    fn skip_peek_semicolon_token(&mut self)
        requires
            old(self).inv(),
        ensures
            final(self).inv(),
            final(self).toks() == old(self).toks(),
            final(self).pos() == crate::model::parsing::skip_one_semicolon(
                old(self).toks(),
                old(self).pos(),
            ),
    {
        if self.check_peek_token_match(TokenType::SEMICOLON) {
            self.next_token();
        }
    }

    fn parse_error(&self, message: &str, kind: Option<BoltErrorType>) -> (e: ParseError)
        ensures
            e.spec_kind() == (match kind {
                Some(k) => k,
                None => BoltErrorType::PARSE,
            }),
    {
        ParseError::new(String::from_str(message), kind, None)
    }

    /// Parse the numeric value of an integer literal's text: the digits
    /// before any `.`, if they fit the machine integer.
    #[verifier::rlimit(100)]
    fn parse_int_literal(literal: &str) -> (r: Option<i64>)
        ensures
            r == int_literal_value(literal@),
    {
        let chars = str_chars(literal);
        let ghost s = literal@;
        let n = chars.len();
        if n == 0 || !is_digit(chars[0]) {
            return None;
        }
        proof {
            crate::model::parsing::lemma_digits_end_bounds(s, 0);
            assert(s.subrange(0, 0) =~= Seq::<char>::empty());
        }
        let mut acc: i64 = 0;
        let mut i: usize = 0;
        loop
            invariant
                s == literal@,
                0 <= i <= n,
                n == s.len(),
                chars@ == s,
                i <= digits_end(s, 0),
                acc == digits_value(s.subrange(0, i as int)),
                0 <= acc <= i64::MAX,
            ensures
                i == digits_end(s, 0),
                acc == digits_value(s.subrange(0, i as int)),
                0 <= acc,
            decreases n - i,
        {
            if i < n && is_digit(chars[i]) {
                proof {
                    crate::model::parsing::lemma_digits_end_bounds(s, 0);
                }
                let d: i64 = (chars[i] as u32 - '0' as u32) as i64;
                let next = match acc.checked_mul(10) {
                    Some(x) => x.checked_add(d),
                    None => None,
                };
                proof {
                    assert(s.subrange(0, i as int + 1).drop_last() =~= s.subrange(0, i as int));
                    assert(s.subrange(0, i as int + 1).last() == s[i as int]);
                }
                match next {
                    Some(x) => {
                        acc = x;
                    },
                    None => {
                        // The running value has outgrown the machine integer,
                        // so the full literal has too.
                        proof {
                            assert(d == digit_val(s[i as int]));
                            assert(d >= 0);
                            assert(digits_value(s.subrange(0, i as int + 1)) == acc * 10 + d);
                            assert(acc * 10 + d > i64::MAX);
                            crate::model::parsing::lemma_digits_value_grows(
                                s,
                                i as int + 1,
                                digits_end(s, 0),
                            );
                            assert(digits_value(s.subrange(0, digits_end(s, 0))) > i64::MAX);
                            assert(int_literal_value(s) is None);
                        }
                        return None;
                    },
                }
                i = i + 1;
            } else {
                proof {
                    crate::model::parsing::lemma_digits_end_bounds(s, 0);
                }
                break ;
            }
        }
        Some(acc)
    }

    /// Parse a whole program: statements until end of input.
    #[verifier::rlimit(100)]
    pub fn parse_program(&mut self) -> (r: Result<Program, ParseError>)
        requires
            old(self).inv(),
        ensures
            final(self).inv(),
            match spec_parse_program_stmts(
                old(self).toks(),
                old(self).pos(),
                Seq::empty(),
                PARSER_FUEL as nat,
            ) {
                Ok(gs) => r matches Ok(p) && crate::model::syntax::program_view(p) == gs,
                Err(k) => r matches Err(e) && e.spec_kind() == k,
            },
    {
        proof {
            assert(stmts_view(Seq::<Statement>::empty()) =~= Seq::<GStmt>::empty());
        }
        let stmts = self.parse_program_statements(Vec::new(), PARSER_FUEL)?;
        Ok(Program { stmts })
    }

    #[verifier::rlimit(100)]
    fn parse_program_statements(&mut self, acc: Vec<Statement>, fuel: u64) -> (r: Result<
        Vec<Statement>,
        ParseError,
    >)
        requires
            old(self).inv(),
        ensures
            final(self).inv(),
            final(self).toks() == old(self).toks(),
            match spec_parse_program_stmts(
                old(self).toks(),
                old(self).pos(),
                stmts_view(acc@),
                fuel as nat,
            ) {
                Ok(gs) => r matches Ok(ss) && stmts_view(ss@) == gs,
                Err(k) => r matches Err(e) && e.spec_kind() == k,
            },
        decreases fuel, 0int,
    {
        if fuel == 0 {
            return Err(self.parse_error("parser budget exhausted", Some(BoltErrorType::INTERNAL)));
        }
        if self.current_token() == TokenType::EOF {
            return Ok(acc);
        }
        let ghost ts0 = self.toks();
        let ghost pos0 = self.pos();
        let ghost accv = acc@;
        match self.parse_statement(fuel - 1) {
            Ok(stmt) => {
                let ghost gstmt = stmt_view(stmt);
                let ghost last = self.pos();
                let mut acc2 = acc;
                acc2.push(stmt);
                proof {
                    lemma_stmts_view_push(accv, acc2@.last());
                    assert(acc2@ == accv.push(acc2@.last()));
                }
                self.next_token();
                proof {
                    if last == ts0.len() {
                        // The statement ended at the virtual end of input; the
                        // cursor saturates, and both positions read end-of-input.
                        assert(tt(ts0, last) == TokenType::EOF);
                        assert(tt(ts0, last + 1) == TokenType::EOF);
                        assert(spec_parse_program_stmts(ts0, last + 1, stmts_view(acc2@), (fuel - 1) as nat)
                            == spec_parse_program_stmts(ts0, last, stmts_view(acc2@), (fuel - 1) as nat));
                    }
                }
                self.parse_program_statements(acc2, fuel - 1)
            },
            Err(e) => {
                if e.get_type() == BoltErrorType::EOF {
                    Ok(acc)
                } else {
                    Err(e)
                }
            },
        }
    }

    /// One statement: `let`, `return`, or an expression statement.
    #[verifier::rlimit(100)]
    fn parse_statement(&mut self, fuel: u64) -> (r: Result<Statement, ParseError>)
        requires
            old(self).inv(),
        ensures
            final(self).inv(),
            final(self).toks() == old(self).toks(),
            match spec_parse_statement(old(self).toks(), old(self).pos(), fuel as nat) {
                Ok((gs, last)) => r matches Ok(s) && stmt_view(s) == gs && final(self).pos()
                    == last,
                Err(k) => r matches Err(e) && e.spec_kind() == k,
            },
        decreases fuel, 1int,
    {
        if fuel == 0 {
            return Err(self.parse_error("parser budget exhausted", Some(BoltErrorType::INTERNAL)));
        }
        let t = self.current_token();
        if t == TokenType::LET {
            self.parse_let_statement(fuel - 1)
        } else if t == TokenType::RETURN {
            self.parse_return_statement(fuel)
        } else {
            self.parse_expression_statement(fuel)
        }
    }

    /// `let` name `=` expression `;`?
    #[verifier::rlimit(100)]
    fn parse_let_statement(&mut self, fuel: u64) -> (r: Result<Statement, ParseError>)
        requires
            old(self).inv(),
        ensures
            final(self).inv(),
            final(self).toks() == old(self).toks(),
            match spec_parse_let(old(self).toks(), old(self).pos(), fuel as nat) {
                Ok((gs, last)) => r matches Ok(s) && stmt_view(s) == gs && final(self).pos()
                    == last,
                Err(k) => r matches Err(e) && e.spec_kind() == k,
            },
        decreases fuel, 0int,
    {
        if fuel == 0 {
            return Err(self.parse_error("parser budget exhausted", Some(BoltErrorType::INTERNAL)));
        }
        let token = self.get_current_token();
        if !self.expect_peek_token_with_type(TokenType::IDENTIFIER) {
            return Err(self.parse_error("expected an identifier after let", None));
        }
        let identifier_token = self.get_current_token();
        let identifier = Identifier {
            value: identifier_token.literal.clone(),
            token: identifier_token,
        };
        if !self.expect_peek_token_with_type(TokenType::ASSIGN) {
            return Err(self.parse_error("expected = after the let binding's name", None));
        }
        self.next_token();
        let value = self.parse_expression(
            precedence_value(Precedences::LOWEST),
            fuel - 1,
        )?;
        self.skip_peek_semicolon_token();
        Ok(Statement::Let(LetStatement { token, identifier, value }))
    }

    /// `return` expression `;`?
    #[verifier::rlimit(100)]
    fn parse_return_statement(&mut self, fuel: u64) -> (r: Result<Statement, ParseError>)
        requires
            old(self).inv(),
            fuel >= 1,
            tt(old(self).toks(), old(self).pos()) == TokenType::RETURN,
        ensures
            final(self).inv(),
            final(self).toks() == old(self).toks(),
            match spec_parse_statement(old(self).toks(), old(self).pos(), fuel as nat) {
                Ok((gs, last)) => r matches Ok(s) && stmt_view(s) == gs && final(self).pos()
                    == last,
                Err(k) => r matches Err(e) && e.spec_kind() == k,
            },
        decreases fuel, 0int,
    {
        let token = self.get_current_token();
        self.next_token();
        let value = self.parse_expression(
            precedence_value(Precedences::LOWEST),
            fuel - 1,
        )?;
        self.skip_peek_semicolon_token();
        Ok(Statement::Return(ReturnStatement { token, value }))
    }

    /// An expression in statement position, value kept for the REPL.
    #[verifier::rlimit(100)]
    fn parse_expression_statement(&mut self, fuel: u64) -> (r: Result<Statement, ParseError>)
        requires
            old(self).inv(),
            fuel >= 1,
            tt(old(self).toks(), old(self).pos()) != TokenType::LET,
            tt(old(self).toks(), old(self).pos()) != TokenType::RETURN,
        ensures
            final(self).inv(),
            final(self).toks() == old(self).toks(),
            match spec_parse_statement(old(self).toks(), old(self).pos(), fuel as nat) {
                Ok((gs, last)) => r matches Ok(s) && stmt_view(s) == gs && final(self).pos()
                    == last,
                Err(k) => r matches Err(e) && e.spec_kind() == k,
            },
        decreases fuel, 0int,
    {
        let token = self.get_current_token();
        let value = self.parse_expression(
            precedence_value(Precedences::LOWEST),
            fuel - 1,
        )?;
        self.skip_peek_semicolon_token();
        Ok(Statement::Expression(ExpressionStatement { token, value }))
    }

    /// An expression at the given binding power: prefix dispatch, then the
    /// infix loop.
    #[verifier::rlimit(100)]
    fn parse_expression(&mut self, precedence: usize, fuel: u64) -> (r: Result<
        Expression,
        ParseError,
    >)
        requires
            old(self).inv(),
        ensures
            final(self).inv(),
            final(self).toks() == old(self).toks(),
            match spec_parse_expression(
                old(self).toks(),
                old(self).pos(),
                precedence as int,
                fuel as nat,
            ) {
                Ok((ge, last)) => r matches Ok(e) && expr_view(e) == ge && final(self).pos()
                    == last,
                Err(k) => r matches Err(e) && e.spec_kind() == k,
            },
        decreases fuel, 0int,
    {
        if fuel == 0 {
            return Err(self.parse_error("parser budget exhausted", Some(BoltErrorType::INTERNAL)));
        }
        let left = self.parse_prefix(fuel - 1)?;
        self.parse_infix_loop(left, precedence, fuel - 1)
    }

    /// The prefix dispatch on the current token.
    #[verifier::rlimit(100)]
    fn parse_prefix(&mut self, fuel: u64) -> (r: Result<Expression, ParseError>)
        requires
            old(self).inv(),
        ensures
            final(self).inv(),
            final(self).toks() == old(self).toks(),
            match spec_parse_prefix(old(self).toks(), old(self).pos(), fuel as nat) {
                Ok((ge, last)) => r matches Ok(e) && expr_view(e) == ge && final(self).pos()
                    == last,
                Err(k) => r matches Err(e) && e.spec_kind() == k,
            },
        decreases fuel, 1int,
    {
        if fuel == 0 {
            return Err(self.parse_error("parser budget exhausted", Some(BoltErrorType::INTERNAL)));
        }
        let t = self.current_token();
        if t == TokenType::INT {
            let token = self.get_current_token();
            match Self::parse_int_literal(token.literal.as_str()) {
                Some(value) => Ok(Expression::Integer(IntegerLiteral { token, value })),
                None => Err(
                    self.parse_error("integer literal does not fit the numeric type", None),
                ),
            }
        } else if t == TokenType::NULL {
            Ok(Expression::Null(NullLiteral {}))
        } else if t == TokenType::IDENTIFIER {
            self.parse_identifier_expression()
        } else if t == TokenType::TRUE || t == TokenType::FALSE {
            self.parse_boolean_expression()
        } else if t == TokenType::BANG || t == TokenType::MINUS {
            self.parse_prefix_expression(fuel)
        } else if t == TokenType::LPAREN {
            self.parse_group_expression(fuel)
        } else if t == TokenType::IF {
            self.parse_if_expression(fuel - 1)
        } else if t == TokenType::FUNCTION {
            self.parse_function_literal(fuel - 1)
        } else if t == TokenType::EOF {
            Err(self.parse_error("EOF", Some(BoltErrorType::EOF)))
        } else {
            Err(self.parse_error("no rule parses this token in prefix position", None))
        }
    }

    fn parse_identifier_expression(&self) -> (r: Result<Expression, ParseError>)
        requires
            self.inv(),
            tt(self.toks(), self.pos()) == TokenType::IDENTIFIER,
        ensures
            r matches Ok(e) && expr_view(e) == (GExpr::Ident {
                tok: tk(self.toks(), self.pos()),
                name: tk(self.toks(), self.pos()).literal,
            }),
    {
        let token = self.get_current_token();
        Ok(Expression::Identifier(Identifier { value: token.literal.clone(), token }))
    }

    fn parse_boolean_expression(&self) -> (r: Result<Expression, ParseError>)
        requires
            self.inv(),
            tt(self.toks(), self.pos()) == TokenType::TRUE || tt(self.toks(), self.pos())
                == TokenType::FALSE,
        ensures
            r matches Ok(e) && expr_view(e) == (GExpr::Bool {
                tok: tk(self.toks(), self.pos()),
                b: tt(self.toks(), self.pos()) == TokenType::TRUE,
            }),
    {
        let token = self.get_current_token();
        let value = token.token_type == TokenType::TRUE;
        Ok(Expression::Boolean(Boolean { token, value }))
    }

    /// Unary `!` or `-`, binding tighter than any binary operator.
    #[verifier::rlimit(100)]
    fn parse_prefix_expression(&mut self, fuel: u64) -> (r: Result<Expression, ParseError>)
        requires
            old(self).inv(),
            fuel >= 1,
            tt(old(self).toks(), old(self).pos()) == TokenType::BANG || tt(
                old(self).toks(),
                old(self).pos(),
            ) == TokenType::MINUS,
        ensures
            final(self).inv(),
            final(self).toks() == old(self).toks(),
            match spec_parse_prefix(old(self).toks(), old(self).pos(), fuel as nat) {
                Ok((ge, last)) => r matches Ok(e) && expr_view(e) == ge && final(self).pos()
                    == last,
                Err(k) => r matches Err(e) && e.spec_kind() == k,
            },
        decreases fuel, 0int,
    {
        let token = self.get_current_token();
        let operator = if token.token_type == TokenType::BANG {
            PrefixOp::Bang
        } else {
            PrefixOp::Minus
        };
        self.next_token();
        let right = self.parse_expression(
            precedence_value(Precedences::PREFIX),
            fuel - 1,
        )?;
        Ok(
            Expression::Prefix(
                PrefixExpression { token, operator, right: Box::new(right) },
            ),
        )
    }

    /// A parenthesised group: the inner expression, with the parens dropped.
    #[verifier::rlimit(100)]
    fn parse_group_expression(&mut self, fuel: u64) -> (r: Result<Expression, ParseError>)
        requires
            old(self).inv(),
            fuel >= 1,
            tt(old(self).toks(), old(self).pos()) == TokenType::LPAREN,
        ensures
            final(self).inv(),
            final(self).toks() == old(self).toks(),
            match spec_parse_prefix(old(self).toks(), old(self).pos(), fuel as nat) {
                Ok((ge, last)) => r matches Ok(e) && expr_view(e) == ge && final(self).pos()
                    == last,
                Err(k) => r matches Err(e) && e.spec_kind() == k,
            },
        decreases fuel, 0int,
    {
        self.next_token();
        let inner = self.parse_expression(
            precedence_value(Precedences::LOWEST),
            fuel - 1,
        )?;
        if !self.expect_peek_token_with_type(TokenType::RPAREN) {
            return Err(self.parse_error("expected ) to close the group", None));
        }
        Ok(inner)
    }

    /// The infix loop: while the peek token is not `;` and binds tighter
    /// than the caller, fold it into the left-hand tree.
    #[verifier::rlimit(100)]
    fn parse_infix_loop(&mut self, left: Expression, precedence: usize, fuel: u64) -> (r: Result<
        Expression,
        ParseError,
    >)
        requires
            old(self).inv(),
        ensures
            final(self).inv(),
            final(self).toks() == old(self).toks(),
            match spec_parse_infix_loop(
                old(self).toks(),
                expr_view(left),
                old(self).pos(),
                precedence as int,
                fuel as nat,
            ) {
                Ok((ge, last)) => r matches Ok(e) && expr_view(e) == ge && final(self).pos()
                    == last,
                Err(k) => r matches Err(e) && e.spec_kind() == k,
            },
        decreases fuel, 0int,
    {
        if fuel == 0 {
            return Err(self.parse_error("parser budget exhausted", Some(BoltErrorType::INTERNAL)));
        }
        let pt = self.peek_token_type();
        if pt == TokenType::SEMICOLON || !(precedence < self.peek_precedence()) {
            return Ok(left);
        }
        if pt == TokenType::PLUS || pt == TokenType::MINUS || pt == TokenType::ASTERISK || pt
            == TokenType::SLASH || pt == TokenType::LT || pt == TokenType::GT || pt
            == TokenType::EQ || pt == TokenType::NOTEQ || pt == TokenType::LTEQ || pt
            == TokenType::GTEQ {
            self.next_token();
            let folded = self.parse_infix_expression(left, fuel - 1)?;
            self.parse_infix_loop(folded, precedence, fuel - 1)
        } else if pt == TokenType::LPAREN {
            self.next_token();
            let folded = self.parse_call_expression(left, fuel - 1)?;
            self.parse_infix_loop(folded, precedence, fuel - 1)
        } else {
            // A token in the precedence table with no infix rule (`=`): the
            // expression ends before it.
            Ok(left)
        }
    }

    /// One binary step: the cursor stands on the operator; parse the right
    /// operand at the operator's own precedence (left associativity).
    #[verifier::rlimit(100)]
    fn parse_infix_expression(&mut self, left: Expression, fuel: u64) -> (r: Result<
        Expression,
        ParseError,
    >)
        requires
            old(self).inv(),
            is_binary_token(tt(old(self).toks(), old(self).pos())),
        ensures
            final(self).inv(),
            final(self).toks() == old(self).toks(),
            match spec_parse_expression(
                old(self).toks(),
                old(self).pos() + 1,
                spec_token_precedence(tt(old(self).toks(), old(self).pos())) as int,
                fuel as nat,
            ) {
                Ok((gr, last)) => r matches Ok(e) && expr_view(e) == (GExpr::Binary {
                    tok: tk(old(self).toks(), old(self).pos()),
                    op: crate::model::parsing::binop_of(tt(old(self).toks(), old(self).pos())),
                    left: Box::new(expr_view(left)),
                    right: Box::new(gr),
                }) && final(self).pos() == last,
                Err(k) => r matches Err(e) && e.spec_kind() == k,
            },
        decreases fuel, 1int,
    {
        let token = self.get_current_token();
        let operator = binop_of_token(token.token_type);
        let op_precedence = self.current_precedence();
        self.next_token();
        let right = self.parse_expression(op_precedence, fuel)?;
        Ok(
            Expression::Binary(
                BinaryExpression {
                    token,
                    operator,
                    left: Box::new(left),
                    right: Box::new(right),
                },
            ),
        )
    }

    /// A call: the cursor stands on the opening `(`; gather the arguments.
    #[verifier::rlimit(100)]
    fn parse_call_expression(&mut self, left: Expression, fuel: u64) -> (r: Result<
        Expression,
        ParseError,
    >)
        requires
            old(self).inv(),
        ensures
            final(self).inv(),
            final(self).toks() == old(self).toks(),
            match spec_parse_call_args(
                old(self).toks(),
                old(self).pos(),
                Seq::empty(),
                fuel as nat,
            ) {
                Ok((gargs, last)) => r matches Ok(e) && expr_view(e) == (GExpr::Call {
                    tok: tk(old(self).toks(), old(self).pos()),
                    callee: Box::new(expr_view(left)),
                    args: gargs,
                }) && final(self).pos() == last,
                Err(k) => r matches Err(e) && e.spec_kind() == k,
            },
        decreases fuel, 1int,
    {
        let token = self.get_current_token();
        proof {
            assert(exprs_view(Seq::<Expression>::empty()) =~= Seq::<GExpr>::empty());
        }
        let parameters = self.parse_call_arguments(Vec::new(), fuel)?;
        Ok(Expression::Call(CallExpression { token, funtion: Box::new(left), parameters }))
    }

    /// Call arguments up to the closing `)`; commas only separate, and a
    /// bare `)` ends the list.
    #[verifier::rlimit(100)]
    fn parse_call_arguments(&mut self, acc: Vec<Expression>, fuel: u64) -> (r: Result<
        Vec<Expression>,
        ParseError,
    >)
        requires
            old(self).inv(),
        ensures
            final(self).inv(),
            final(self).toks() == old(self).toks(),
            match spec_parse_call_args(
                old(self).toks(),
                old(self).pos(),
                exprs_view(acc@),
                fuel as nat,
            ) {
                Ok((gargs, last)) => r matches Ok(es) && exprs_view(es@) == gargs && final(self).pos() == last,
                Err(k) => r matches Err(e) && e.spec_kind() == k,
            },
        decreases fuel, 0int,
    {
        if fuel == 0 {
            return Err(self.parse_error("parser budget exhausted", Some(BoltErrorType::INTERNAL)));
        }
        let ghost ts0 = self.toks();
        let ghost pos0 = self.pos();
        let ghost gout = spec_parse_call_args(ts0, pos0, exprs_view(acc@), fuel as nat);
        let pt = self.peek_token_type();
        if pt == TokenType::RPAREN {
            self.next_token();
            return Ok(acc);
        }
        if pt == TokenType::COMMA {
            self.next_token();
            return self.parse_call_arguments(acc, fuel - 1);
        }
        self.next_token();
        proof {
            assert(self.pos() == if pos0 < ts0.len() { pos0 + 1 } else { pos0 });
            assert(tt(ts0, pos0 + 1) == pt);
        }
        let arg_result = self.parse_expression(precedence_value(Precedences::LOWEST), fuel - 1);
        proof {
            let ge = spec_parse_expression(
                ts0,
                pos0 + 1,
                spec_precedence_value(Precedences::LOWEST) as int,
                (fuel - 1) as nat,
            );
            if pos0 < ts0.len() {
                assert(arg_result matches Ok(a) ==> ge matches Ok(p) && expr_view(a) == p.0
                    && self.pos() == p.1);
            }
            assert(gout == (match ge {
                Ok((a, last)) => spec_parse_call_args(
                    ts0,
                    last,
                    exprs_view(acc@).push(a),
                    (fuel - 1) as nat,
                ),
                Err(k) => Err::<(Seq<GExpr>, int), BoltErrorType>(k),
            }));
        }
        let arg = arg_result?;
        let ghost accv = acc@;
        let mut acc2 = acc;
        acc2.push(arg);
        proof {
            lemma_exprs_view_push(accv, acc2@.last());
            assert(acc2@ == accv.push(acc2@.last()));
        }
        self.parse_call_arguments(acc2, fuel - 1)
    }

    /// `if` `(` condition `)` block, with an optional `else` block.
    #[verifier::rlimit(100)]
    #[verifier::spinoff_prover]
    fn parse_if_expression(&mut self, fuel: u64) -> (r: Result<Expression, ParseError>)
        requires
            old(self).inv(),
            tt(old(self).toks(), old(self).pos()) == TokenType::IF,
        ensures
            final(self).inv(),
            final(self).toks() == old(self).toks(),
            match spec_parse_if(old(self).toks(), old(self).pos(), fuel as nat) {
                Ok((ge, last)) => r matches Ok(e) && expr_view(e) == ge && final(self).pos()
                    == last,
                Err(k) => r matches Err(e) && e.spec_kind() == k,
            },
        decreases fuel, 0int,
    {
        if fuel == 0 {
            return Err(self.parse_error("parser budget exhausted", Some(BoltErrorType::INTERNAL)));
        }
        let token = self.get_current_token();
        if !self.expect_peek_token_with_type(TokenType::LPAREN) {
            return Err(self.parse_error("expected ( after if", None));
        }
        self.next_token();
        let condition = self.parse_expression(
            precedence_value(Precedences::LOWEST),
            fuel - 1,
        )?;
        if !self.expect_peek_token_with_type(TokenType::RPAREN) {
            return Err(self.parse_error("expected ) after the if condition", None));
        }
        if !self.expect_peek_token_with_type(TokenType::LBRACE) {
            return Err(self.parse_error("expected { to open the if branch", None));
        }
        let consequence = self.parse_block_statement(fuel - 1)?;
        if self.check_peek_token_match(TokenType::ELSE) {
            self.next_token();
            if !self.expect_peek_token_with_type(TokenType::LBRACE) {
                return Err(self.parse_error("expected { to open the else branch", None));
            }
            let alternate = self.parse_block_statement(fuel - 1)?;
            Ok(
                Expression::If(
                    IfExpression {
                        token,
                        condition: Box::new(condition),
                        consequence,
                        alternate: Some(alternate),
                    },
                ),
            )
        } else {
            Ok(
                Expression::If(
                    IfExpression {
                        token,
                        condition: Box::new(condition),
                        consequence,
                        alternate: None,
                    },
                ),
            )
        }
    }

    /// `fn` `(` parameters `)` block.
    #[verifier::rlimit(100)]
    fn parse_function_literal(&mut self, fuel: u64) -> (r: Result<Expression, ParseError>)
        requires
            old(self).inv(),
            tt(old(self).toks(), old(self).pos()) == TokenType::FUNCTION,
        ensures
            final(self).inv(),
            final(self).toks() == old(self).toks(),
            match spec_parse_function(old(self).toks(), old(self).pos(), fuel as nat) {
                Ok((ge, last)) => r matches Ok(e) && expr_view(e) == ge && final(self).pos()
                    == last,
                Err(k) => r matches Err(e) && e.spec_kind() == k,
            },
        decreases fuel, 0int,
    {
        if fuel == 0 {
            return Err(self.parse_error("parser budget exhausted", Some(BoltErrorType::INTERNAL)));
        }
        let token = self.get_current_token();
        if !self.expect_peek_token_with_type(TokenType::LPAREN) {
            return Err(self.parse_error("expected ( after fn", None));
        }
        proof {
            assert(idents_view(Seq::<Identifier>::empty()) =~= Seq::<GIdent>::empty());
        }
        let parameters = self.parse_function_parameters(Vec::new(), fuel - 1)?;
        if !self.expect_peek_token_with_type(TokenType::LBRACE) {
            return Err(self.parse_error("expected { to open the function body", None));
        }
        let body = self.parse_block_statement(fuel - 1)?;
        Ok(
            Expression::Function(
                FunctionLiteral {
                    token,
                    parameters: std::rc::Rc::new(parameters),
                    body: std::rc::Rc::new(body),
                },
            ),
        )
    }

    /// Parameter names up to the closing `)`.
    #[verifier::rlimit(100)]
    fn parse_function_parameters(&mut self, acc: Vec<Identifier>, fuel: u64) -> (r: Result<
        Vec<Identifier>,
        ParseError,
    >)
        requires
            old(self).inv(),
        ensures
            final(self).inv(),
            final(self).toks() == old(self).toks(),
            match spec_parse_params(
                old(self).toks(),
                old(self).pos(),
                idents_view(acc@),
                fuel as nat,
            ) {
                Ok((gps, last)) => r matches Ok(ps) && idents_view(ps@) == gps && final(self).pos() == last,
                Err(k) => r matches Err(e) && e.spec_kind() == k,
            },
        decreases fuel, 0int,
    {
        if fuel == 0 {
            return Err(self.parse_error("parser budget exhausted", Some(BoltErrorType::INTERNAL)));
        }
        let pt = self.peek_token_type();
        if pt == TokenType::RPAREN {
            self.next_token();
            return Ok(acc);
        }
        if pt == TokenType::COMMA {
            self.next_token();
            return self.parse_function_parameters(acc, fuel - 1);
        }
        if pt == TokenType::IDENTIFIER {
            self.next_token();
            let token = self.get_current_token();
            let ident = Identifier { value: token.literal.clone(), token };
            let ghost accv = acc@;
            let mut acc2 = acc;
            acc2.push(ident);
            proof {
                assert(acc2@ == accv.push(acc2@.last()));
                assert(acc2@.drop_last() =~= accv);
                assert(idents_view(acc2@) =~= idents_view(accv).push(
                    crate::model::syntax::ident_view(acc2@.last()),
                ));
            }
            return self.parse_function_parameters(acc2, fuel - 1);
        }
        if pt == TokenType::EOF {
            return Err(self.parse_error("EOF", Some(BoltErrorType::EOF)));
        }
        Err(self.parse_error("expected a parameter name", None))
    }

    /// A block: statements until `}` or end of input, stray semicolons
    /// skipped.  Entered on `{`; leaves the cursor on the terminator.
    #[verifier::rlimit(100)]
    fn parse_block_statement(&mut self, fuel: u64) -> (r: Result<BlockStatement, ParseError>)
        requires
            old(self).inv(),
        ensures
            final(self).inv(),
            final(self).toks() == old(self).toks(),
            match spec_parse_block(old(self).toks(), old(self).pos(), fuel as nat) {
                Ok((gb, last)) => r matches Ok(b) && crate::model::syntax::block_view(b) == gb
                    && final(self).pos() == last,
                Err(k) => r matches Err(e) && e.spec_kind() == k,
            },
        decreases fuel, 1int,
    {
        let tok0 = self.get_peek_token();
        proof {
            assert(stmts_view(Seq::<Statement>::empty()) =~= Seq::<GStmt>::empty());
        }
        self.parse_block_statements(tok0, Vec::new(), fuel)
    }

    #[verifier::rlimit(100)]
    fn parse_block_statements(&mut self, tok0: Token, acc: Vec<Statement>, fuel: u64) -> (r: Result<
        BlockStatement,
        ParseError,
    >)
        requires
            old(self).inv(),
        ensures
            final(self).inv(),
            final(self).toks() == old(self).toks(),
            match crate::model::parsing::spec_parse_block_stmts(
                old(self).toks(),
                old(self).pos(),
                tok0@,
                stmts_view(acc@),
                fuel as nat,
            ) {
                Ok((gb, last)) => r matches Ok(b) && crate::model::syntax::block_view(b) == gb
                    && final(self).pos() == last,
                Err(k) => r matches Err(e) && e.spec_kind() == k,
            },
        decreases fuel, 0int,
    {
        if fuel == 0 {
            return Err(self.parse_error("parser budget exhausted", Some(BoltErrorType::INTERNAL)));
        }
        let pt = self.peek_token_type();
        if pt == TokenType::SEMICOLON {
            self.next_token();
            return self.parse_block_statements(tok0, acc, fuel - 1);
        }
        if pt == TokenType::RBRACE || pt == TokenType::EOF {
            self.next_token();
            return Ok(BlockStatement { token: tok0, statements: acc });
        }
        self.next_token();
        let stmt = self.parse_statement(fuel - 1)?;
        let ghost accv = acc@;
        let mut acc2 = acc;
        acc2.push(stmt);
        proof {
            lemma_stmts_view_push(accv, acc2@.last());
            assert(acc2@ == accv.push(acc2@.last()));
        }
        self.parse_block_statements(tok0, acc2, fuel - 1)
    }

    /// The binding power of the current token in infix position.
    fn current_precedence(&self) -> (p: PrecedenceValueExec)
        requires
            self.inv(),
        ensures
            p == spec_token_precedence(tt(self.toks(), self.pos())),
    {
        token_precedence(self.current_token())
    }

    /// The binding power of the peek token in infix position.
    fn peek_precedence(&self) -> (p: PrecedenceValueExec)
        requires
            self.inv(),
        ensures
            p == spec_token_precedence(tt(self.toks(), self.pos() + 1)),
    {
        token_precedence(self.peek_token_type())
    }
}

type PrecedenceValueExec = usize;

/// The numeric value of a precedence level.
pub fn precedence_value(p: Precedences) -> (v: usize)
    ensures
        v == spec_precedence_value(p),
{
    match p {
        Precedences::LOWEST => 0,
        Precedences::EQUALS => 1,
        Precedences::LESSGREATER => 2,
        Precedences::SUM => 3,
        Precedences::PRODUCT => 4,
        Precedences::PREFIX => 5,
        Precedences::CALL => 6,
    }
}

/// The binding power a token carries in infix position.
pub fn token_precedence(t: TokenType) -> (v: usize)
    ensures
        v == spec_token_precedence(t),
{
    match t {
        TokenType::ASSIGN => 1,
        TokenType::EQ => 1,
        TokenType::NOTEQ => 1,
        TokenType::LT => 2,
        TokenType::GT => 2,
        TokenType::LTEQ => 2,
        TokenType::GTEQ => 2,
        TokenType::PLUS => 3,
        TokenType::MINUS => 3,
        TokenType::SLASH => 4,
        TokenType::ASTERISK => 4,
        TokenType::LPAREN => 6,
        _ => 0,
    }
}

/// The binary operator denoted by an infix token.
fn binop_of_token(t: TokenType) -> (op: BinOp)
    ensures
        op == crate::model::parsing::binop_of(t),
{
    match t {
        TokenType::PLUS => BinOp::Plus,
        TokenType::MINUS => BinOp::Minus,
        TokenType::ASTERISK => BinOp::Asterisk,
        TokenType::SLASH => BinOp::Slash,
        TokenType::LT => BinOp::Lt,
        TokenType::GT => BinOp::Gt,
        TokenType::EQ => BinOp::Eq,
        TokenType::NOTEQ => BinOp::NotEq,
        TokenType::LTEQ => BinOp::LtEq,
        TokenType::GTEQ => BinOp::GtEq,
        _ => BinOp::Plus,
    }
}

} // verus!
