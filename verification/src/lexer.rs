//! The scanner: a single pass over the source characters with one-character
//! lookahead, proved to produce exactly the token sequence of
//! [`crate::model::lexing::spec_tokenise`].

use crate::chars::{
    chars_to_string, is_digit, is_digit_char, is_letter, is_letter_char, is_whitespace,
    is_whitespace_char, str_chars,
};
use crate::model::lexing::{
    char_at, comment_end, ident_end, lemma_comment_end_bounds, lemma_newline_count_bound,
    lemma_next_token_advances, lemma_skip_whitespace_bounds, line_at, newline_count, number_end,
    scan_token, skip_whitespace_end, spec_next_token, spec_tokenise, string_end,
};
use crate::token::{lookup_indentifier, GToken, Token, TokenType};
use vstd::prelude::*;
use vstd::string::StringExecFns;

verus! {

/// The token views of a token vector.
pub open spec fn tokens_view(ts: Seq<Token>) -> Seq<GToken> {
    ts.map_values(|t: Token| t@)
}

pub struct Lexer {
    input: Vec<char>,
    /// Index of the character under examination; the input length when the
    /// cursor is past the end.
    pub position: usize,
    /// Index of the next character to read, capped at the input length.
    pub read_position: usize,
    curr_line: usize,
    ch: char,
}

impl Lexer {
    /// The cursor discipline: `position` stays inside the input (or just past
    /// it), `read_position` trails one character behind the future, `ch`
    /// mirrors the character under the cursor, and `curr_line` counts the
    /// newlines loaded so far.
    pub closed spec fn wf(&self) -> bool {
        &&& self.position <= self.input@.len()
        &&& self.read_position as int == if self.position + 1 <= self.input@.len() {
            self.position + 1
        } else {
            self.input@.len() as int
        }
        &&& self.ch == char_at(self.input@, self.position as int)
        &&& self.curr_line as nat == line_at(self.input@, self.position as int)
    }

    /// The scanned source, as a character sequence.
    pub closed spec fn src(&self) -> Seq<char> {
        self.input@
    }

    pub closed spec fn pos(&self) -> int {
        self.position as int
    }

    pub fn new(source: &str) -> (lx: Lexer)
        ensures
            lx.wf(),
            lx.src() == source@,
            lx.pos() == 0,
    {
        let input = str_chars(source);
        let len = input.len();
        let ch = if len > 0 {
            input[0]
        } else {
            '\0'
        };
        let curr_line: usize = if ch == '\n' {
            1
        } else {
            0
        };
        let read_position: usize = if len > 0 {
            1
        } else {
            0
        };
        proof {
            assert(newline_count(input@, 0) == 0);
        }
        Lexer { input, position: 0, read_position, curr_line, ch }
    }

    /// Advance the cursor by one character, saturating at the end of input.
    pub fn read_char(&mut self)
        requires
            old(self).wf(),
        ensures
            final(self).wf(),
            final(self).src() == old(self).src(),
            final(self).pos() == if old(self).pos() + 1 <= old(self).src().len() {
                old(self).pos() + 1
            } else {
                old(self).src().len() as int
            },
    {
        let len = self.input.len();
        if self.read_position >= len {
            self.ch = '\0';
            self.position = len;
            self.read_position = len;
        } else {
            self.ch = self.input[self.read_position];
            self.position = self.read_position;
            self.read_position = self.read_position + 1;
            if self.ch == '\n' {
                proof {
                    lemma_newline_count_bound(self.input@, self.position + 1);
                }
                self.curr_line = self.curr_line + 1;
            }
        }
    }

    fn peek_char(&self) -> (c: char)
        requires
            self.wf(),
        ensures
            c == char_at(self.src(), self.pos() + 1),
    {
        if self.read_position >= self.input.len() {
            '\0'
        } else {
            self.input[self.read_position]
        }
    }

    fn is_at_end(&self) -> (r: bool)
        requires
            self.wf(),
        ensures
            r == (self.pos() == self.src().len()),
    {
        self.position == self.input.len()
    }

    fn create_new_token(&self, t_type: TokenType, literal: String, line: usize) -> (t: Token)
        ensures
            t.token_type == t_type,
            t.literal == literal,
            t.line == line,
    {
        Token { token_type: t_type, literal, line }
    }

    fn skip_whitespace(&mut self)
        requires
            old(self).wf(),
        ensures
            final(self).wf(),
            final(self).src() == old(self).src(),
            final(self).pos() == skip_whitespace_end(old(self).src(), old(self).pos()),
    {
        loop
            invariant
                self.wf(),
                self.src() == old(self).src(),
                skip_whitespace_end(self.src(), self.pos()) == skip_whitespace_end(
                    self.src(),
                    old(self).pos(),
                ),
            ensures
                self.wf(),
                self.src() == old(self).src(),
                self.pos() == skip_whitespace_end(self.src(), old(self).pos()),
            decreases self.src().len() - self.pos(),
        {
            if is_whitespace(self.ch) {
                self.read_char();
            } else {
                break ;
            }
        }
    }

    /// Scan the maximal identifier run starting at the cursor.
    fn lookup_identifier(&mut self) -> (lit: String)
        requires
            old(self).wf(),
        ensures
            final(self).wf(),
            final(self).src() == old(self).src(),
            final(self).pos() == ident_end(old(self).src(), old(self).pos()),
            lit@ == old(self).src().subrange(old(self).pos(), final(self).pos()),
    {
        let ghost s = self.input@;
        let ghost start = self.position as int;
        let mut lit_chars: Vec<char> = Vec::new();
        loop
            invariant
                self.wf(),
                self.src() == s,
                0 <= start <= self.pos(),
                ident_end(s, self.pos()) == ident_end(s, start),
                lit_chars@ == s.subrange(start, self.pos()),
            ensures
                self.wf(),
                self.src() == s,
                self.pos() == ident_end(s, start),
                lit_chars@ == s.subrange(start, self.pos()),
            decreases s.len() - self.pos(),
        {
            if is_letter(self.ch) {
                let ghost pb = self.pos();
                proof {
                    assert(self.ch == char_at(s, pb));
                    assert(is_letter_char(char_at(s, pb)));
                    assert(pb < s.len());
                    assert(self.ch == s[pb]);
                }
                lit_chars.push(self.ch);
                self.read_char();
                proof {
                    assert(self.pos() == pb + 1);
                    assert(lit_chars@ =~= s.subrange(start, self.pos()));
                }
            } else {
                break ;
            }
        }
        chars_to_string(&lit_chars)
    }

    /// Scan the maximal numeric-literal run (digits and `.`) at the cursor.
    fn read_number(&mut self) -> (lit: String)
        requires
            old(self).wf(),
        ensures
            final(self).wf(),
            final(self).src() == old(self).src(),
            final(self).pos() == number_end(old(self).src(), old(self).pos()),
            lit@ == old(self).src().subrange(old(self).pos(), final(self).pos()),
    {
        let ghost s = self.input@;
        let ghost start = self.position as int;
        let mut lit_chars: Vec<char> = Vec::new();
        loop
            invariant
                self.wf(),
                self.src() == s,
                0 <= start <= self.pos(),
                number_end(s, self.pos()) == number_end(s, start),
                lit_chars@ == s.subrange(start, self.pos()),
            ensures
                self.wf(),
                self.src() == s,
                self.pos() == number_end(s, start),
                lit_chars@ == s.subrange(start, self.pos()),
            decreases s.len() - self.pos(),
        {
            if is_digit(self.ch) || self.ch == '.' {
                let ghost pb = self.pos();
                proof {
                    assert(self.ch == char_at(s, pb));
                    assert(is_digit_char(char_at(s, pb)) || char_at(s, pb) == '.');
                    assert(pb < s.len());
                    assert(self.ch == s[pb]);
                }
                lit_chars.push(self.ch);
                self.read_char();
                proof {
                    assert(self.pos() == pb + 1);
                    assert(lit_chars@ =~= s.subrange(start, self.pos()));
                }
            } else {
                break ;
            }
        }
        chars_to_string(&lit_chars)
    }

    /// Scan a string literal: the cursor stands on the opening quote; after
    /// the call it stands past the closing quote (or at the end of input if
    /// the literal is unterminated).
    fn read_string(&mut self) -> (lit: String)
        requires
            old(self).wf(),
            char_at(old(self).src(), old(self).pos()) == '"',
        ensures
            final(self).wf(),
            final(self).src() == old(self).src(),
            lit@ == old(self).src().subrange(
                old(self).pos() + 1,
                string_end(old(self).src(), old(self).pos() + 1),
            ),
            final(self).pos() == ({
                let e = string_end(old(self).src(), old(self).pos() + 1);
                if e < old(self).src().len() {
                    e + 1
                } else {
                    old(self).src().len() as int
                }
            }),
    {
        let ghost s = self.input@;
        let ghost start = self.position as int + 1;
        self.read_char();
        let mut lit_chars: Vec<char> = Vec::new();
        loop
            invariant
                self.wf(),
                self.src() == s,
                0 <= start <= self.pos(),
                string_end(s, self.pos()) == string_end(s, start),
                lit_chars@ == s.subrange(start, self.pos()),
            ensures
                self.wf(),
                self.src() == s,
                self.pos() == string_end(s, start),
                lit_chars@ == s.subrange(start, self.pos()),
            decreases s.len() - self.pos(),
        {
            if self.position < self.input.len() && self.ch != '"' {
                let ghost pb = self.pos();
                proof {
                    assert(pb < s.len());
                    assert(self.ch == s[pb]);
                }
                lit_chars.push(self.ch);
                self.read_char();
                proof {
                    assert(self.pos() == pb + 1);
                    assert(lit_chars@ =~= s.subrange(start, self.pos()));
                }
            } else {
                break ;
            }
        }
        if self.position < self.input.len() {
            self.read_char();
        }
        chars_to_string(&lit_chars)
    }

    /// Produce the next token: skip whitespace and comments, then dispatch on
    /// the current character.
    pub fn next_token(&mut self) -> (tok: Token)
        requires
            old(self).wf(),
        ensures
            final(self).wf(),
            final(self).src() == old(self).src(),
            ({
                let (t, p2) = spec_next_token(old(self).src(), old(self).pos());
                tok@ == t && final(self).pos() == p2
            }),
    {
        let ghost s = self.input@;
        let ghost pos0 = self.position as int;
        loop
            invariant
                self.wf(),
                self.src() == s,
                spec_next_token(s, self.pos()) == spec_next_token(s, pos0),
            ensures
                self.wf(),
                self.src() == s,
                spec_next_token(s, self.pos()) == spec_next_token(s, pos0),
                !is_whitespace_char(char_at(s, self.pos())),
                !(char_at(s, self.pos()) == '/' && char_at(s, self.pos() + 1) == '/'),
            decreases s.len() - self.pos(),
        {
            if is_whitespace(self.ch) {
                proof {
                    lemma_skip_whitespace_bounds(s, self.pos());
                }
                self.read_char();
            } else if self.ch == '/' && self.peek_char() == '/' {
                // A line comment: consume characters up to the newline (or
                // the end of input) and scan on from there.
                let ghost p = self.position as int;
                proof {
                    lemma_comment_end_bounds(s, p);
                    lemma_comment_end_bounds(s, p + 1);
                    lemma_skip_whitespace_bounds(s, p);
                }
                while self.ch != '\n' && self.position < self.input.len()
                    invariant
                        self.wf(),
                        self.src() == s,
                        p <= self.pos(),
                        comment_end(s, self.pos()) == comment_end(s, p),
                    decreases s.len() - self.pos(),
                {
                    self.read_char();
                }
            } else {
                break ;
            }
        }
        let ghost p = self.position as int;
        proof {
            lemma_skip_whitespace_bounds(s, p);
            assert(skip_whitespace_end(s, p) == p);
            assert(spec_next_token(s, pos0) == scan_token(s, p));
        }
        let line = self.curr_line;
        if self.position >= self.input.len() {
            return self.create_new_token(TokenType::EOF, String::from_str("\0"), line);
        }
        let c = self.ch;
        if c == '=' {
            if self.peek_char() == '=' {
                self.read_char();
                self.read_char();
                self.create_new_token(TokenType::EQ, String::from_str("=="), line)
            } else {
                self.read_char();
                self.create_new_token(TokenType::ASSIGN, String::from_str("="), line)
            }
        } else if c == '+' {
            self.read_char();
            self.create_new_token(TokenType::PLUS, String::from_str("+"), line)
        } else if c == '-' {
            self.read_char();
            self.create_new_token(TokenType::MINUS, String::from_str("-"), line)
        } else if c == ';' {
            self.read_char();
            self.create_new_token(TokenType::SEMICOLON, String::from_str(";"), line)
        } else if c == '(' {
            self.read_char();
            self.create_new_token(TokenType::LPAREN, String::from_str("("), line)
        } else if c == ')' {
            self.read_char();
            self.create_new_token(TokenType::RPAREN, String::from_str(")"), line)
        } else if c == '{' {
            self.read_char();
            self.create_new_token(TokenType::LBRACE, String::from_str("{"), line)
        } else if c == '}' {
            self.read_char();
            self.create_new_token(TokenType::RBRACE, String::from_str("}"), line)
        } else if c == ',' {
            self.read_char();
            self.create_new_token(TokenType::COMMA, String::from_str(","), line)
        } else if c == '!' {
            if self.peek_char() == '=' {
                self.read_char();
                self.read_char();
                self.create_new_token(TokenType::NOTEQ, String::from_str("!="), line)
            } else {
                self.read_char();
                self.create_new_token(TokenType::BANG, String::from_str("!"), line)
            }
        } else if c == '*' {
            self.read_char();
            self.create_new_token(TokenType::ASTERISK, String::from_str("*"), line)
        } else if c == '<' {
            if self.peek_char() == '=' {
                self.read_char();
                self.read_char();
                self.create_new_token(TokenType::LTEQ, String::from_str("<="), line)
            } else {
                self.read_char();
                self.create_new_token(TokenType::LT, String::from_str("<"), line)
            }
        } else if c == '>' {
            if self.peek_char() == '=' {
                self.read_char();
                self.read_char();
                self.create_new_token(TokenType::GTEQ, String::from_str(">="), line)
            } else {
                self.read_char();
                self.create_new_token(TokenType::GT, String::from_str(">"), line)
            }
        } else if c == '/' {
            self.read_char();
            self.create_new_token(TokenType::SLASH, String::from_str("/"), line)
        } else if c == '"' {
            let literal = self.read_string();
            self.create_new_token(TokenType::STRING, literal, line)
        } else if is_letter(c) {
            let literal = self.lookup_identifier();
            let token_type = lookup_indentifier(literal.as_str());
            self.create_new_token(token_type, literal, line)
        } else if is_digit(c) {
            let literal = self.read_number();
            self.create_new_token(TokenType::INT, literal, line)
        } else {
            self.read_char();
            self.create_new_token(TokenType::ILLIGAL, String::from_str("\0"), line)
        }
    }

    /// Scan the whole input: every token up to and including the end-of-input
    /// token.
    pub fn get_tokens(&mut self) -> (tokens: Vec<Token>)
        requires
            old(self).wf(),
        ensures
            final(self).wf(),
            tokens_view(tokens@) == spec_tokenise(old(self).src(), old(self).pos()),
    {
        let ghost s = self.input@;
        let ghost pos0 = self.position as int;
        let mut tokens: Vec<Token> = Vec::new();
        loop
            invariant_except_break
                spec_tokenise(s, pos0) == tokens_view(tokens@) + spec_tokenise(s, self.pos()),
            invariant
                self.wf(),
                self.src() == s,
            ensures
                self.wf(),
                tokens_view(tokens@) == spec_tokenise(s, pos0),
            decreases s.len() - self.pos(),
        {
            let ghost pos_before = self.position as int;
            let token = self.next_token();
            proof {
                lemma_next_token_advances(s, pos_before);
            }
            let token_type = token.token_type;
            let ghost gtok = token@;
            tokens.push(token);
            proof {
                assert(tokens_view(tokens@) =~= tokens_view(tokens@.drop_last()) + seq![gtok]);
            }
            if token_type == TokenType::EOF {
                proof {
                    assert(spec_tokenise(s, pos_before) =~= seq![gtok]);
                    assert(tokens_view(tokens@) =~= spec_tokenise(s, pos0));
                }
                break ;
            }
            proof {
                assert(spec_tokenise(s, pos_before) =~= seq![gtok] + spec_tokenise(s, self.pos()));
                assert(spec_tokenise(s, pos0) =~= tokens_view(tokens@) + spec_tokenise(
                    s,
                    self.pos(),
                ));
            }
        }
        tokens
    }
}

} // verus!
