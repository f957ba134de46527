//! The abstract syntax tree: two closed sums, one for statements and one for
//! expressions.  Every node carries the token it originated from, for
//! diagnostics.  The tree is immutable after parse; the evaluator and the IR
//! emitter only read it.

use crate::token::Token;
use std::rc::Rc;
use vstd::prelude::*;

verus! {

/// Unary operators, bound tighter than any binary operator.
#[derive(Debug, PartialEq, Eq, Clone, Copy, Structural)]
pub enum PrefixOp {
    /// `!`
    Bang,
    /// `-`
    Minus,
}

/// Binary operators of the precedence table.
#[derive(Debug, PartialEq, Eq, Clone, Copy, Structural)]
pub enum BinOp {
    Plus,
    Minus,
    Asterisk,
    Slash,
    Lt,
    Gt,
    Eq,
    NotEq,
    LtEq,
    GtEq,
}

#[derive(Debug, PartialEq)]
pub struct Identifier {
    pub token: Token,
    pub value: String,
}

#[derive(Debug, PartialEq)]
pub struct IntegerLiteral {
    pub token: Token,
    pub value: i64,
}

#[derive(Debug, PartialEq)]
pub struct NullLiteral {}

#[derive(Debug, PartialEq)]
pub struct Boolean {
    pub token: Token,
    pub value: bool,
}

#[derive(Debug, PartialEq)]
pub struct PrefixExpression {
    pub token: Token,
    pub operator: PrefixOp,
    pub right: Box<Expression>,
}

#[derive(Debug, PartialEq)]
pub struct BinaryExpression {
    pub token: Token,
    pub operator: BinOp,
    pub left: Box<Expression>,
    pub right: Box<Expression>,
}

#[derive(Debug, PartialEq)]
pub struct IfExpression {
    pub token: Token,
    pub condition: Box<Expression>,
    pub consequence: BlockStatement,
    pub alternate: Option<BlockStatement>,
}

/// Parameter list and body are shared handles: a closure value captures them
/// without copying the tree.
#[derive(Debug, PartialEq)]
pub struct FunctionLiteral {
    pub token: Token,
    pub parameters: Rc<Vec<Identifier>>,
    pub body: Rc<BlockStatement>,
}

#[derive(Debug, PartialEq)]
pub struct CallExpression {
    pub token: Token,
    pub funtion: Box<Expression>,
    pub parameters: Vec<Expression>,
}

#[derive(Debug, PartialEq)]
pub enum Expression {
    Integer(IntegerLiteral),
    Null(NullLiteral),
    Identifier(Identifier),
    Boolean(Boolean),
    Prefix(PrefixExpression),
    Binary(BinaryExpression),
    If(IfExpression),
    Function(FunctionLiteral),
    Call(CallExpression),
}

#[derive(Debug, PartialEq)]
pub struct LetStatement {
    pub token: Token,
    pub identifier: Identifier,
    pub value: Expression,
}

#[derive(Debug, PartialEq)]
pub struct ReturnStatement {
    pub token: Token,
    pub value: Expression,
}

#[derive(Debug, PartialEq)]
pub struct BlockStatement {
    pub token: Token,
    pub statements: Vec<Statement>,
}

#[derive(Debug, PartialEq)]
pub struct ExpressionStatement {
    pub token: Token,
    pub value: Expression,
}

#[derive(Debug, PartialEq)]
pub enum Statement {
    Let(LetStatement),
    Return(ReturnStatement),
    Block(BlockStatement),
    Expression(ExpressionStatement),
}

#[derive(Debug, PartialEq)]
pub struct Program {
    pub stmts: Vec<Statement>,
}

} // verus!
