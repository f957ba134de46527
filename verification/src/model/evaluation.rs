//! The evaluator's specification: a tree walk over the syntax images,
//! threading the environment through every step.
//!
//! Every function returns the outcome *and* the environment as it stands
//! afterwards — bindings made before a failure stick, exactly as in the
//! executable walker.  A fuel parameter bounds the recursion (the language
//! can express non-termination through self-application); the executable
//! evaluator threads the same fuel.

use crate::ast::{BinOp, PrefixOp};
use crate::environment::{spec_lookup, GFrame};
use crate::error::BoltErrorType;
use crate::model::lexing::spec_tokenise;
use crate::model::parsing::{spec_parse_program, PARSER_FUEL};
use crate::model::syntax::{GBlock, GExpr, GIdent, GStmt};
use crate::model::values::{gval_truthy, GVal};
use vstd::prelude::*;

verus! {

/// The step budget of the evaluator.  Only a program that runs for this many
/// steps — far beyond any real machine — would see it exhausted.
pub const EVAL_FUEL: u64 = 0xffff_ffff_ffff_ffff;

/// What one evaluation step leaves behind: a value or an error kind, and the
/// environment afterwards.
pub struct EvalOut {
    pub res: Result<GVal, BoltErrorType>,
    pub env: Seq<GFrame>,
}

/// Unary operators: `!` accepts booleans and null (null is falsy), `-`
/// accepts numbers and fails on the one unrepresentable negation.
pub open spec fn spec_eval_prefix(op: PrefixOp, v: GVal) -> Result<GVal, BoltErrorType> {
    match op {
        PrefixOp::Bang => match v {
            GVal::Bool { b } => Ok(GVal::Bool { b: !b }),
            GVal::Null => Ok(GVal::Bool { b: true }),
            _ => Err(BoltErrorType::EVAL),
        },
        PrefixOp::Minus => match v {
            GVal::Int { n } => if n == i64::MIN {
                Err(BoltErrorType::EVAL)
            } else {
                Ok(GVal::Int { n: (-(n as int)) as i64 })
            },
            _ => Err(BoltErrorType::EVAL),
        },
    }
}

/// Binary operators.  Two numbers take the four arithmetic operators
/// (checked: overflow and division by zero are errors) and the six
/// comparisons; two booleans take only the comparisons; mixed operands are
/// errors.
pub open spec fn spec_eval_binary(op: BinOp, l: GVal, r: GVal) -> Result<GVal, BoltErrorType> {
    match (l, r) {
        (GVal::Int { n: a }, GVal::Int { n: b }) => match op {
            BinOp::Plus => match a.checked_add(b) {
                Some(v) => Ok(GVal::Int { n: v }),
                None => Err(BoltErrorType::EVAL),
            },
            BinOp::Minus => match a.checked_sub(b) {
                Some(v) => Ok(GVal::Int { n: v }),
                None => Err(BoltErrorType::EVAL),
            },
            BinOp::Asterisk => match a.checked_mul(b) {
                Some(v) => Ok(GVal::Int { n: v }),
                None => Err(BoltErrorType::EVAL),
            },
            BinOp::Slash => match a.checked_div(b) {
                Some(v) => Ok(GVal::Int { n: v }),
                None => Err(BoltErrorType::EVAL),
            },
            BinOp::Lt => Ok(GVal::Bool { b: a < b }),
            BinOp::Gt => Ok(GVal::Bool { b: a > b }),
            BinOp::Eq => Ok(GVal::Bool { b: a == b }),
            BinOp::NotEq => Ok(GVal::Bool { b: a != b }),
            BinOp::LtEq => Ok(GVal::Bool { b: a <= b }),
            BinOp::GtEq => Ok(GVal::Bool { b: a >= b }),
        },
        (GVal::Bool { b: a }, GVal::Bool { b }) => match op {
            BinOp::Lt => Ok(GVal::Bool { b: !a && b }),
            BinOp::Gt => Ok(GVal::Bool { b: a && !b }),
            BinOp::Eq => Ok(GVal::Bool { b: a == b }),
            BinOp::NotEq => Ok(GVal::Bool { b: a != b }),
            BinOp::LtEq => Ok(GVal::Bool { b: !a || b }),
            BinOp::GtEq => Ok(GVal::Bool { b: a || !b }),
            _ => Err(BoltErrorType::EVAL),
        },
        _ => Err(BoltErrorType::EVAL),
    }
}

/// Positional parameter binding, later names shadowing earlier ones.
pub open spec fn bind_params(params: Seq<GIdent>, vals: Seq<GVal>) -> Map<Seq<char>, GVal>
    decreases params,
{
    if params.len() == 0 || vals.len() == 0 {
        Map::empty()
    } else {
        bind_params(params.drop_last(), vals.drop_last()).insert(
            params.last().name,
            vals.last(),
        )
    }
}

pub open spec fn spec_eval_expression(e: GExpr, env: Seq<GFrame>, frame: int, fuel: nat) -> EvalOut
    decreases fuel, 0int,
{
    if fuel == 0 {
        EvalOut { res: Err(BoltErrorType::INTERNAL), env }
    } else {
        match e {
            GExpr::Int { tok: _, n } => EvalOut { res: Ok(GVal::Int { n: n as i64 }), env },
            GExpr::Bool { tok: _, b } => EvalOut { res: Ok(GVal::Bool { b }), env },
            GExpr::Null => EvalOut { res: Ok(GVal::Null), env },
            GExpr::Ident { tok: _, name } => match spec_lookup(env, frame, name) {
                Some(v) => EvalOut { res: Ok(v), env },
                None => EvalOut { res: Err(BoltErrorType::EVAL), env },
            },
            GExpr::Prefix { tok: _, op, right } => {
                let r = spec_eval_expression(*right, env, frame, (fuel - 1) as nat);
                match r.res {
                    Ok(v) => EvalOut { res: spec_eval_prefix(op, v), env: r.env },
                    Err(k) => r,
                }
            },
            GExpr::Binary { tok: _, op, left, right } => {
                let l = spec_eval_expression(*left, env, frame, (fuel - 1) as nat);
                match l.res {
                    Ok(lv) => {
                        let r = spec_eval_expression(*right, l.env, frame, (fuel - 1) as nat);
                        match r.res {
                            Ok(rv) => EvalOut { res: spec_eval_binary(op, lv, rv), env: r.env },
                            Err(_) => r,
                        }
                    },
                    Err(_) => l,
                }
            },
            GExpr::If { tok: _, cond, cons, alt } => {
                let c = spec_eval_expression(*cond, env, frame, (fuel - 1) as nat);
                match c.res {
                    Ok(cv) => if gval_truthy(cv) {
                        spec_eval_block(cons.stmts, c.env, frame, (fuel - 1) as nat)
                    } else {
                        match alt {
                            Some(b) => spec_eval_block(b.stmts, c.env, frame, (fuel - 1) as nat),
                            None => EvalOut { res: Ok(GVal::Null), env: c.env },
                        }
                    },
                    Err(_) => c,
                }
            },
            GExpr::FnLit { tok: _, params, body } => EvalOut {
                res: Ok(GVal::Closure { params, body, env: frame }),
                env,
            },
            GExpr::Call { tok: _, callee, args } => {
                let f = spec_eval_expression(*callee, env, frame, (fuel - 1) as nat);
                match f.res {
                    Ok(fv) => {
                        let a = spec_eval_fn_args(fv, args, f.env, frame, (fuel - 1) as nat);
                        match a.0 {
                            Ok(vals) => spec_apply_function(fv, vals, a.1, (fuel - 1) as nat),
                            Err(k) => EvalOut { res: Err(k), env: a.1 },
                        }
                    },
                    Err(_) => f,
                }
            },
        }
    }
}

/// Check that the callee is a function of the right arity, then evaluate the
/// arguments left to right in the caller's frame.
pub open spec fn spec_eval_fn_args(
    f: GVal,
    args: Seq<GExpr>,
    env: Seq<GFrame>,
    frame: int,
    fuel: nat,
) -> (Result<Seq<GVal>, BoltErrorType>, Seq<GFrame>)
    decreases fuel, 1int,
{
    if fuel == 0 {
        (Err(BoltErrorType::INTERNAL), env)
    } else {
        match f {
            GVal::Closure { params, .. } => if params.len() != args.len() {
                (Err(BoltErrorType::EVAL), env)
            } else {
                spec_eval_args(args, env, frame, (fuel - 1) as nat)
            },
            _ => (Err(BoltErrorType::EVAL), env),
        }
    }
}

pub open spec fn spec_eval_args(args: Seq<GExpr>, env: Seq<GFrame>, frame: int, fuel: nat) -> (
    Result<Seq<GVal>, BoltErrorType>,
    Seq<GFrame>,
)
    decreases fuel, 0int,
{
    if fuel == 0 {
        (Err(BoltErrorType::INTERNAL), env)
    } else if args.len() == 0 {
        (Ok(Seq::empty()), env)
    } else {
        let r0 = spec_eval_expression(args[0], env, frame, (fuel - 1) as nat);
        match r0.res {
            Ok(v0) => {
                let rest = spec_eval_args(
                    args.subrange(1, args.len() as int),
                    r0.env,
                    frame,
                    (fuel - 1) as nat,
                );
                match rest.0 {
                    Ok(vs) => (Ok(seq![v0] + vs), rest.1),
                    Err(k) => (Err(k), rest.1),
                }
            },
            Err(k) => (Err(k), r0.env),
        }
    }
}

/// Apply a closure: a fresh frame over the captured one, parameters bound
/// positionally, the body run as a block, and one `Return` sentinel
/// unwrapped.
pub open spec fn spec_apply_function(f: GVal, vals: Seq<GVal>, env: Seq<GFrame>, fuel: nat) -> EvalOut
    decreases fuel, 1int,
{
    if fuel == 0 {
        EvalOut { res: Err(BoltErrorType::INTERNAL), env }
    } else {
        match f {
            GVal::Closure { params, body, env: captured } => if params.len() != vals.len() {
                EvalOut { res: Err(BoltErrorType::EVAL), env }
            } else if !(0 <= captured < env.len()) {
                EvalOut { res: Err(BoltErrorType::INTERNAL), env }
            } else {
                let env2 = env.push(
                    GFrame { bindings: bind_params(params, vals), outer: Some(captured) },
                );
                let r = spec_eval_block(body.stmts, env2, env.len() as int, (fuel - 1) as nat);
                match r.res {
                    Ok(v) => match v {
                        GVal::Ret { v: inner } => EvalOut { res: Ok(*inner), env: r.env },
                        _ => r,
                    },
                    Err(_) => r,
                }
            },
            _ => EvalOut { res: Err(BoltErrorType::EVAL), env },
        }
    }
}

pub open spec fn spec_eval_statement(s: GStmt, env: Seq<GFrame>, frame: int, fuel: nat) -> EvalOut
    decreases fuel, 0int,
{
    if fuel == 0 {
        EvalOut { res: Err(BoltErrorType::INTERNAL), env }
    } else {
        match s {
            GStmt::Expr { tok: _, value } => spec_eval_expression(
                value,
                env,
                frame,
                (fuel - 1) as nat,
            ),
            GStmt::Block { block } => spec_eval_block(block.stmts, env, frame, (fuel - 1) as nat),
            GStmt::Return { tok: _, value } => {
                let r = spec_eval_expression(value, env, frame, (fuel - 1) as nat);
                match r.res {
                    Ok(v) => EvalOut { res: Ok(GVal::Ret { v: Box::new(v) }), env: r.env },
                    Err(_) => r,
                }
            },
            GStmt::Let { tok: _, ident, value } => {
                let r = spec_eval_expression(value, env, frame, (fuel - 1) as nat);
                match r.res {
                    Ok(v) => if 0 <= frame < r.env.len() {
                        EvalOut {
                            res: Ok(v),
                            env: r.env.update(
                                frame,
                                GFrame {
                                    bindings: r.env[frame].bindings.insert(ident.name, v),
                                    outer: r.env[frame].outer,
                                },
                            ),
                        }
                    } else {
                        EvalOut { res: Err(BoltErrorType::INTERNAL), env: r.env }
                    },
                    Err(_) => r,
                }
            },
        }
    }
}

/// Statements in order; a `Return` sentinel short-circuits and propagates
/// unchanged.  The block's value is its last statement's value; an empty
/// block is an error, as the surface design has it.
pub open spec fn spec_eval_block(stmts: Seq<GStmt>, env: Seq<GFrame>, frame: int, fuel: nat) -> EvalOut
    decreases fuel, 1int,
{
    if fuel == 0 {
        EvalOut { res: Err(BoltErrorType::INTERNAL), env }
    } else if stmts.len() == 0 {
        EvalOut { res: Err(BoltErrorType::EVAL), env }
    } else {
        let r0 = spec_eval_statement(stmts[0], env, frame, (fuel - 1) as nat);
        match r0.res {
            Ok(v) => if v is Ret {
                r0
            } else if stmts.len() == 1 {
                r0
            } else {
                spec_eval_block(
                    stmts.subrange(1, stmts.len() as int),
                    r0.env,
                    frame,
                    (fuel - 1) as nat,
                )
            },
            Err(_) => r0,
        }
    }
}

/// Top-level execution: each statement evaluated in the global frame with a
/// fresh step budget; the last statement's value is the program's, and a
/// `Return` sentinel at this level is kept as it is.
pub open spec fn spec_run_program(
    stmts: Seq<GStmt>,
    i: int,
    last: Option<GVal>,
    env: Seq<GFrame>,
) -> (Result<Option<GVal>, BoltErrorType>, Seq<GFrame>)
    decreases stmts.len() - i,
{
    if i < 0 || i >= stmts.len() {
        (Ok(last), env)
    } else {
        let r = spec_eval_statement(stmts[i], env, 0, EVAL_FUEL as nat);
        match r.res {
            Ok(v) => spec_run_program(stmts, i + 1, Some(v), r.env),
            Err(k) => (Err(k), r.env),
        }
    }
}

/// The whole pipeline: scan, parse, evaluate.  A parse failure leaves the
/// environment untouched; an evaluation failure keeps the bindings made
/// before it.
pub open spec fn spec_interpret(src: Seq<char>, env: Seq<GFrame>) -> (
    Result<Option<GVal>, BoltErrorType>,
    Seq<GFrame>,
) {
    match spec_parse_program(spec_tokenise(src, 0), PARSER_FUEL as nat) {
        Ok(stmts) => spec_run_program(stmts, 0, None, env),
        Err(k) => (Err(k), env),
    }
}

/// Return propagation, first half: a statement that evaluates to the
/// `Return` sentinel short-circuits its block, which hands the sentinel on
/// unchanged — nested blocks never swallow a return.
pub proof fn lemma_block_propagates_return(
    stmts: Seq<GStmt>,
    env: Seq<GFrame>,
    frame: int,
    fuel: nat,
)
    requires
        fuel >= 1,
        stmts.len() > 0,
    ensures
        ({
            let r0 = spec_eval_statement(stmts[0], env, frame, (fuel - 1) as nat);
            (r0.res matches Ok(v) && v is Ret) ==> spec_eval_block(stmts, env, frame, fuel) == r0
        }),
{
}

/// A function literal captures the frame it is evaluated in, by handle: the
/// closure's environment index is the current frame itself.
pub proof fn lemma_fnlit_captures_current_frame(
    tok: crate::token::GToken,
    params: Seq<GIdent>,
    body: GBlock,
    env: Seq<GFrame>,
    frame: int,
    fuel: nat,
)
    requires
        fuel >= 1,
    ensures
        spec_eval_expression(GExpr::FnLit { tok, params, body }, env, frame, fuel) == (EvalOut {
            res: Ok::<GVal, BoltErrorType>(GVal::Closure { params, body, env: frame }),
            env,
        }),
{
}

} // verus!
