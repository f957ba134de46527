//! The mathematical image of the syntax tree.
//!
//! `GExpr`, `GStmt` and `GBlock` mirror the executable tree over `Seq`, `int`
//! and token images, and the `*_view` functions map each executable node to
//! its image.  The parser's specification produces these values; the
//! executable parser is proved to build a tree whose view is exactly the
//! specified one, tokens included.

use crate::ast::{
    BinOp, BlockStatement, Expression, Identifier, PrefixOp, Program, Statement,
};
use crate::token::GToken;
use vstd::prelude::*;

verus! {

pub struct GIdent {
    pub tok: GToken,
    pub name: Seq<char>,
}

pub struct GBlock {
    pub tok: GToken,
    pub stmts: Seq<GStmt>,
}

pub enum GExpr {
    Int { tok: GToken, n: int },
    Null,
    Ident { tok: GToken, name: Seq<char> },
    Bool { tok: GToken, b: bool },
    Prefix { tok: GToken, op: PrefixOp, right: Box<GExpr> },
    Binary { tok: GToken, op: BinOp, left: Box<GExpr>, right: Box<GExpr> },
    If { tok: GToken, cond: Box<GExpr>, cons: GBlock, alt: Option<GBlock> },
    FnLit { tok: GToken, params: Seq<GIdent>, body: GBlock },
    Call { tok: GToken, callee: Box<GExpr>, args: Seq<GExpr> },
}

pub enum GStmt {
    Let { tok: GToken, ident: GIdent, value: GExpr },
    Return { tok: GToken, value: GExpr },
    Block { block: GBlock },
    Expr { tok: GToken, value: GExpr },
}

pub open spec fn ident_view(i: Identifier) -> GIdent {
    GIdent { tok: i.token@, name: i.value@ }
}

pub open spec fn idents_view(is: Seq<Identifier>) -> Seq<GIdent> {
    is.map_values(|i: Identifier| ident_view(i))
}

pub open spec fn expr_view(e: Expression) -> GExpr
    decreases e,
{
    match e {
        Expression::Integer(i) => GExpr::Int { tok: i.token@, n: i.value as int },
        Expression::Null(_) => GExpr::Null,
        Expression::Identifier(i) => GExpr::Ident { tok: i.token@, name: i.value@ },
        Expression::Boolean(b) => GExpr::Bool { tok: b.token@, b: b.value },
        Expression::Prefix(p) => GExpr::Prefix {
            tok: p.token@,
            op: p.operator,
            right: Box::new(expr_view(*p.right)),
        },
        Expression::Binary(b) => GExpr::Binary {
            tok: b.token@,
            op: b.operator,
            left: Box::new(expr_view(*b.left)),
            right: Box::new(expr_view(*b.right)),
        },
        Expression::If(i) => GExpr::If {
            tok: i.token@,
            cond: Box::new(expr_view(*i.condition)),
            cons: block_view(i.consequence),
            alt: match i.alternate {
                Some(b) => Some(block_view(b)),
                None => None,
            },
        },
        Expression::Function(f) => GExpr::FnLit {
            tok: f.token@,
            params: idents_view(f.parameters@),
            body: block_view(*f.body),
        },
        Expression::Call(c) => GExpr::Call {
            tok: c.token@,
            callee: Box::new(expr_view(*c.funtion)),
            args: exprs_view(c.parameters@),
        },
    }
}

pub open spec fn exprs_view(es: Seq<Expression>) -> Seq<GExpr>
    decreases es,
{
    if es.len() == 0 {
        Seq::empty()
    } else {
        exprs_view(es.drop_last()).push(expr_view(es.last()))
    }
}

pub open spec fn stmt_view(s: Statement) -> GStmt
    decreases s,
{
    match s {
        Statement::Let(l) => GStmt::Let {
            tok: l.token@,
            ident: ident_view(l.identifier),
            value: expr_view(l.value),
        },
        Statement::Return(r) => GStmt::Return { tok: r.token@, value: expr_view(r.value) },
        Statement::Block(b) => GStmt::Block { block: block_view(b) },
        Statement::Expression(e) => GStmt::Expr { tok: e.token@, value: expr_view(e.value) },
    }
}

pub open spec fn stmts_view(ss: Seq<Statement>) -> Seq<GStmt>
    decreases ss,
{
    if ss.len() == 0 {
        Seq::empty()
    } else {
        stmts_view(ss.drop_last()).push(stmt_view(ss.last()))
    }
}

pub open spec fn block_view(b: BlockStatement) -> GBlock
    decreases b,
{
    GBlock { tok: b.token@, stmts: stmts_view(b.statements@) }
}

pub open spec fn program_view(p: Program) -> Seq<GStmt> {
    stmts_view(p.stmts@)
}

/// Pushing one element extends the viewed sequence by that element's view.
pub proof fn lemma_exprs_view_push(es: Seq<Expression>, e: Expression)
    ensures
        exprs_view(es.push(e)) == exprs_view(es).push(expr_view(e)),
{
    assert(es.push(e).drop_last() =~= es);
    assert(es.push(e).last() == e);
}

pub proof fn lemma_stmts_view_push(ss: Seq<Statement>, s: Statement)
    ensures
        stmts_view(ss.push(s)) == stmts_view(ss).push(stmt_view(s)),
{
    assert(ss.push(s).drop_last() =~= ss);
    assert(ss.push(s).last() == s);
}

/// The viewed sequence has the same length, element by element.
pub proof fn lemma_stmts_view_len(ss: Seq<Statement>)
    ensures
        stmts_view(ss).len() == ss.len(),
        forall|i: int| 0 <= i < ss.len() ==> #[trigger] stmts_view(ss)[i] == stmt_view(ss[i]),
    decreases ss,
{
    if ss.len() > 0 {
        lemma_stmts_view_len(ss.drop_last());
    }
}

pub proof fn lemma_exprs_view_len(es: Seq<Expression>)
    ensures
        exprs_view(es).len() == es.len(),
        forall|i: int| 0 <= i < es.len() ==> #[trigger] exprs_view(es)[i] == expr_view(es[i]),
    decreases es,
{
    if es.len() > 0 {
        lemma_exprs_view_len(es.drop_last());
    }
}

} // verus!
