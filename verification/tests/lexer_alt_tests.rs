use bolt::lexer::Lexer;
use bolt::token::{Token, TokenType};

fn tok(token_type: TokenType, literal: &str, line: usize) -> Token {
    Token { token_type, literal: String::from(literal), line }
}

#[test]
fn lexer_next_token() {
    let mut lexer = Lexer::new(
        "let five = (5);
        let ten = 10;
        let add = fn(x, y) {
        x + y;
        };
        let final_result = add(five, ten); 
        !-/*5;
        5 < 10 > 5;
        if (5 < 10) {
            return true;
        } else {
            return false;
        }
        10 == 10;
        10 != 9;
        //comment
        12;",
    );
    let test_tokens = vec![
        tok(TokenType::LET, "let", 0), tok(TokenType::IDENTIFIER, "five", 0), tok(TokenType::ASSIGN, "=", 0),
        tok(TokenType::LPAREN, "(", 0), tok(TokenType::INT, "5", 0), tok(TokenType::RPAREN, ")", 0), tok(TokenType::SEMICOLON, ";", 0),
        tok(TokenType::LET, "let", 1), tok(TokenType::IDENTIFIER, "ten", 1), tok(TokenType::ASSIGN, "=", 1),
        tok(TokenType::INT, "10", 1), tok(TokenType::SEMICOLON, ";", 1),
        tok(TokenType::LET, "let", 2), tok(TokenType::IDENTIFIER, "add", 2), tok(TokenType::ASSIGN, "=", 2),
        tok(TokenType::FUNCTION, "fn", 2), tok(TokenType::LPAREN, "(", 2), tok(TokenType::IDENTIFIER, "x", 2),
        tok(TokenType::COMMA, ",", 2), tok(TokenType::IDENTIFIER, "y", 2), tok(TokenType::RPAREN, ")", 2), tok(TokenType::LBRACE, "{", 2),
        tok(TokenType::IDENTIFIER, "x", 3), tok(TokenType::PLUS, "+", 3), tok(TokenType::IDENTIFIER, "y", 3), tok(TokenType::SEMICOLON, ";", 3),
        tok(TokenType::RBRACE, "}", 4), tok(TokenType::SEMICOLON, ";", 4),
        tok(TokenType::LET, "let", 5), tok(TokenType::IDENTIFIER, "final_result", 5), tok(TokenType::ASSIGN, "=", 5),
        tok(TokenType::IDENTIFIER, "add", 5), tok(TokenType::LPAREN, "(", 5), tok(TokenType::IDENTIFIER, "five", 5),
        tok(TokenType::COMMA, ",", 5), tok(TokenType::IDENTIFIER, "ten", 5), tok(TokenType::RPAREN, ")", 5), tok(TokenType::SEMICOLON, ";", 5),
        tok(TokenType::BANG, "!", 6), tok(TokenType::MINUS, "-", 6), tok(TokenType::SLASH, "/", 6), tok(TokenType::ASTERISK, "*", 6),
        tok(TokenType::INT, "5", 6), tok(TokenType::SEMICOLON, ";", 6),
        tok(TokenType::INT, "5", 7), tok(TokenType::LT, "<", 7), tok(TokenType::INT, "10", 7), tok(TokenType::GT, ">", 7),
        tok(TokenType::INT, "5", 7), tok(TokenType::SEMICOLON, ";", 7),
        tok(TokenType::IF, "if", 8), tok(TokenType::LPAREN, "(", 8), tok(TokenType::INT, "5", 8), tok(TokenType::LT, "<", 8),
        tok(TokenType::INT, "10", 8), tok(TokenType::RPAREN, ")", 8), tok(TokenType::LBRACE, "{", 8),
        tok(TokenType::RETURN, "return", 9), tok(TokenType::TRUE, "true", 9), tok(TokenType::SEMICOLON, ";", 9),
        tok(TokenType::RBRACE, "}", 10), tok(TokenType::ELSE, "else", 10), tok(TokenType::LBRACE, "{", 10),
        tok(TokenType::RETURN, "return", 11), tok(TokenType::FALSE, "false", 11), tok(TokenType::SEMICOLON, ";", 11),
        tok(TokenType::RBRACE, "}", 12),
        tok(TokenType::INT, "10", 13), tok(TokenType::EQ, "==", 13), tok(TokenType::INT, "10", 13), tok(TokenType::SEMICOLON, ";", 13),
        tok(TokenType::INT, "10", 14), tok(TokenType::NOTEQ, "!=", 14), tok(TokenType::INT, "9", 14), tok(TokenType::SEMICOLON, ";", 14),
        tok(TokenType::INT, "12", 16), tok(TokenType::SEMICOLON, ";", 16),
    ];
    let mut tokens: Vec<Token> = Vec::new();
    loop {
        let token = lexer.next_token();
        if token.token_type == TokenType::EOF {
            break;
        }
        tokens.push(token);
    }
    assert_eq!(tokens, test_tokens);
}
