use bolt::ast::{
    BinOp, Boolean, Expression, Identifier, LetStatement, PrefixExpression, PrefixOp, Statement,
};
use bolt::error::{BoltError, BoltErrorType};
use bolt::parser::Parser;
use bolt::token::{Token, TokenType};

fn tok(token_type: TokenType, literal: &str, line: usize) -> Token {
    Token { token_type, literal: String::from(literal), line }
}

fn parse_one(source: &str) -> Statement {
    let mut parser = Parser::new(source);
    let program = parser.parse_program().expect("the source should parse");
    assert!(program.stmts.len() >= 1);
    program.stmts.into_iter().next().unwrap()
}

fn first_expression(source: &str) -> Expression {
    match parse_one(source) {
        Statement::Expression(e) => e.value,
        other => panic!("expected an expression statement, got {:?}", other),
    }
}

#[test]
fn test_prefix_bang_expression() {
    let stmt = parse_one("!true;");
    let expected = Statement::Expression(bolt::ast::ExpressionStatement {
        token: tok(TokenType::BANG, "!", 0),
        value: Expression::Prefix(PrefixExpression {
            token: tok(TokenType::BANG, "!", 0),
            operator: PrefixOp::Bang,
            right: Box::new(Expression::Boolean(Boolean {
                token: tok(TokenType::TRUE, "true", 0),
                value: true,
            })),
        }),
    });
    assert_eq!(stmt, expected);
}

#[test]
fn test_boolean_statement() {
    let stmt_a = parse_one("let a = true;");
    let expected_a = Statement::Let(LetStatement {
        token: tok(TokenType::LET, "let", 0),
        identifier: Identifier { token: tok(TokenType::IDENTIFIER, "a", 0), value: String::from("a") },
        value: Expression::Boolean(Boolean { token: tok(TokenType::TRUE, "true", 0), value: true }),
    });
    assert_eq!(stmt_a, expected_a);

    let stmt_b = parse_one("let b = false");
    let expected_b = Statement::Let(LetStatement {
        token: tok(TokenType::LET, "let", 0),
        identifier: Identifier { token: tok(TokenType::IDENTIFIER, "b", 0), value: String::from("b") },
        value: Expression::Boolean(Boolean { token: tok(TokenType::FALSE, "false", 0), value: false }),
    });
    assert_eq!(stmt_b, expected_b);
}

#[test]
fn test_function_parameter_parsing() {
    match first_expression("fn(){}") {
        Expression::Function(f) => {
            assert_eq!(f.token, tok(TokenType::FUNCTION, "fn", 0));
            assert!(f.parameters.is_empty());
            assert_eq!(f.body.token, tok(TokenType::RBRACE, "}", 0));
            assert!(f.body.statements.is_empty());
        },
        other => panic!("expected a function literal, got {:?}", other),
    }
    match first_expression("fn(x, y){return x + y;}") {
        Expression::Function(f) => {
            let names: Vec<&str> = f.parameters.iter().map(|p| p.value.as_str()).collect();
            assert_eq!(names, vec!["x", "y"]);
            assert_eq!(f.body.token, tok(TokenType::RETURN, "return", 0));
            assert_eq!(f.body.statements.len(), 1);
            match &f.body.statements[0] {
                Statement::Return(r) => match &r.value {
                    Expression::Binary(b) => {
                        assert_eq!(b.operator, BinOp::Plus);
                        assert!(matches!(&*b.left, Expression::Identifier(i) if i.value == "x"));
                        assert!(matches!(&*b.right, Expression::Identifier(i) if i.value == "y"));
                    },
                    other => panic!("expected a binary expression, got {:?}", other),
                },
                other => panic!("expected a return statement, got {:?}", other),
            }
        },
        other => panic!("expected a function literal, got {:?}", other),
    }
}

// Precedence: binary operators associate left and bind per the table.
#[test]
fn test_operator_precedence_parsing() {
    // -a * b parses as (-a) * b
    match first_expression("-a * b") {
        Expression::Binary(b) => {
            assert_eq!(b.operator, BinOp::Asterisk);
            assert!(matches!(&*b.left, Expression::Prefix(p)
                if p.operator == PrefixOp::Minus
                    && matches!(&*p.right, Expression::Identifier(i) if i.value == "a")));
            assert!(matches!(&*b.right, Expression::Identifier(i) if i.value == "b"));
        },
        other => panic!("unexpected tree {:?}", other),
    }
    // !-a parses as !(-a)
    match first_expression("!-a;") {
        Expression::Prefix(p) => {
            assert_eq!(p.operator, PrefixOp::Bang);
            assert!(matches!(&*p.right, Expression::Prefix(q) if q.operator == PrefixOp::Minus));
        },
        other => panic!("unexpected tree {:?}", other),
    }
    // a + b + c parses as (a + b) + c
    match first_expression("a  + b + c") {
        Expression::Binary(b) => {
            assert_eq!(b.operator, BinOp::Plus);
            assert!(matches!(&*b.left, Expression::Binary(l) if l.operator == BinOp::Plus));
            assert!(matches!(&*b.right, Expression::Identifier(i) if i.value == "c"));
        },
        other => panic!("unexpected tree {:?}", other),
    }
    // a + b * c parses as a + (b * c)
    match first_expression("a + b * c") {
        Expression::Binary(b) => {
            assert_eq!(b.operator, BinOp::Plus);
            assert!(matches!(&*b.left, Expression::Identifier(i) if i.value == "a"));
            assert!(matches!(&*b.right, Expression::Binary(r) if r.operator == BinOp::Asterisk));
        },
        other => panic!("unexpected tree {:?}", other),
    }
    // 5 < 4 == 3 > 4 parses as (5 < 4) == (3 > 4)
    match first_expression("5 < 4 == 3 > 4") {
        Expression::Binary(b) => {
            assert_eq!(b.operator, BinOp::Eq);
            assert!(matches!(&*b.left, Expression::Binary(l) if l.operator == BinOp::Lt));
            assert!(matches!(&*b.right, Expression::Binary(r) if r.operator == BinOp::Gt));
        },
        other => panic!("unexpected tree {:?}", other),
    }
}

// Grouping: parentheses override precedence.
#[test]
fn test_grouped_expressions() {
    // 1 + (2 + 3): the grouped sum is the right child
    match first_expression("1 + (2 + 3)") {
        Expression::Binary(b) => {
            assert_eq!(b.operator, BinOp::Plus);
            assert!(matches!(&*b.left, Expression::Integer(i) if i.value == 1));
            assert!(matches!(&*b.right, Expression::Binary(r)
                if r.operator == BinOp::Plus
                    && matches!(&*r.left, Expression::Integer(i) if i.value == 2)
                    && matches!(&*r.right, Expression::Integer(i) if i.value == 3)));
        },
        other => panic!("unexpected tree {:?}", other),
    }
    // (5 + 5) * 2: the grouped sum is the left child
    match first_expression("(5 + 5) * 2") {
        Expression::Binary(b) => {
            assert_eq!(b.operator, BinOp::Asterisk);
            assert!(matches!(&*b.left, Expression::Binary(l) if l.operator == BinOp::Plus));
            assert!(matches!(&*b.right, Expression::Integer(i) if i.value == 2));
        },
        other => panic!("unexpected tree {:?}", other),
    }
    // -(5 + 5)
    match first_expression("-(5 + 5)") {
        Expression::Prefix(p) => {
            assert_eq!(p.operator, PrefixOp::Minus);
            assert!(matches!(&*p.right, Expression::Binary(r) if r.operator == BinOp::Plus));
        },
        other => panic!("unexpected tree {:?}", other),
    }
}

#[test]
fn parse_error_reports_kind() {
    let mut parser = Parser::new("let 5 = 3;");
    match parser.parse_program() {
        Err(e) => assert_eq!(e.get_type(), BoltErrorType::PARSE),
        Ok(p) => panic!("should not parse, got {:?}", p),
    }
}
