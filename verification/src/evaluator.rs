//! The tree-walking evaluator, proved equal to
//! [`crate::model::evaluation::spec_eval_expression`] and its companions:
//! every function returns exactly the value (and leaves exactly the
//! environment) that the model prescribes.

use crate::ast::{
    BlockStatement, Expression, Identifier, IfExpression, LetStatement, ReturnStatement, Statement,
};
use crate::environment::{new_enclosed_environment, Environment};
use crate::error::{BoltError, BoltErrorType, EvaluatorError};
use crate::model::evaluation::{
    bind_params, spec_apply_function, spec_eval_args, spec_eval_binary, spec_eval_block,
    spec_eval_expression, spec_eval_fn_args, spec_eval_prefix, spec_eval_statement,
    spec_interpret, spec_run_program, EvalOut, EVAL_FUEL,
};
use crate::model::syntax::{
    block_view, expr_view, exprs_view, ident_view, idents_view, lemma_exprs_view_len,
    lemma_stmts_view_len, program_view, stmt_view, stmts_view, GExpr, GStmt,
};
use crate::model::values::{gval_truthy, lemma_truthy_view, obj_view, GVal};
use crate::object::{is_truthy, BooleanObj, Function, Null, Object, Return};
use crate::parser::Parser;
use crate::shared::rc_clone;
use crate::ast::{BinOp, PrefixOp};
use std::rc::Rc;
use vstd::prelude::*;
use vstd::string::StringExecFns;

verus! {

/// The images of a vector of values.
pub open spec fn objs_view(s: Seq<Rc<Object>>) -> Seq<GVal> {
    s.map_values(|o: Rc<Object>| obj_view(*o))
}

/// The image of an optional value.
pub open spec fn opt_view(r: Option<Rc<Object>>) -> Option<GVal> {
    match r {
        Some(v) => Some(obj_view(*v)),
        None => None,
    }
}

/// Whether an executable outcome carries exactly the modelled outcome.
pub open spec fn res_matches(
    r: Result<Rc<Object>, EvaluatorError>,
    res: Result<GVal, BoltErrorType>,
) -> bool {
    match r {
        Ok(v) => res == Ok::<GVal, BoltErrorType>(obj_view(*v)),
        Err(e) => res is Err && (res matches Err(k) && e.spec_kind() == k),
    }
}

fn eval_error(message: &str, kind: Option<BoltErrorType>) -> (e: EvaluatorError)
    ensures
        e.spec_kind() == (match kind {
            Some(k) => k,
            None => BoltErrorType::EVAL,
        }),
{
    EvaluatorError::new(String::from_str(message), kind, None)
}

/// Unary operator application.
pub fn evaluate_prefix_expression(operator: PrefixOp, right: Rc<Object>) -> (r: Result<
    Rc<Object>,
    EvaluatorError,
>)
    ensures
        res_matches(r, spec_eval_prefix(operator, obj_view(*right))),
{
    match operator {
        PrefixOp::Bang => match &*right {
            Object::Boolean(b) => Ok(Rc::new(Object::Boolean(BooleanObj { value: !b.value }))),
            Object::Null(_) => Ok(Rc::new(Object::Boolean(BooleanObj { value: true }))),
            _ => Err(eval_error("prefix ! applies only to booleans and null", None)),
        },
        PrefixOp::Minus => match &*right {
            Object::Integer(n) => {
                if *n == i64::MIN {
                    Err(eval_error("negation does not fit the numeric type", None))
                } else {
                    Ok(Rc::new(Object::Integer(-*n)))
                }
            },
            _ => Err(eval_error("prefix - applies only to numbers", None)),
        },
    }
}

/// Binary operator application on two already-evaluated operands.
pub fn evaluate_binary_expression(operator: BinOp, left: Rc<Object>, right: Rc<Object>) -> (r:
    Result<Rc<Object>, EvaluatorError>)
    ensures
        res_matches(r, spec_eval_binary(operator, obj_view(*left), obj_view(*right))),
{
    match (&*left, &*right) {
        (Object::Integer(a), Object::Integer(b)) => match operator {
            BinOp::Plus => match a.checked_add(*b) {
                Some(v) => Ok(Rc::new(Object::Integer(v))),
                None => Err(eval_error("addition does not fit the numeric type", None)),
            },
            BinOp::Minus => match a.checked_sub(*b) {
                Some(v) => Ok(Rc::new(Object::Integer(v))),
                None => Err(eval_error("subtraction does not fit the numeric type", None)),
            },
            BinOp::Asterisk => match a.checked_mul(*b) {
                Some(v) => Ok(Rc::new(Object::Integer(v))),
                None => Err(eval_error("multiplication does not fit the numeric type", None)),
            },
            BinOp::Slash => match a.checked_div(*b) {
                Some(v) => Ok(Rc::new(Object::Integer(v))),
                None => Err(eval_error("division by zero or out of range", None)),
            },
            BinOp::Lt => Ok(Rc::new(Object::Boolean(BooleanObj { value: *a < *b }))),
            BinOp::Gt => Ok(Rc::new(Object::Boolean(BooleanObj { value: *a > *b }))),
            BinOp::Eq => Ok(Rc::new(Object::Boolean(BooleanObj { value: *a == *b }))),
            BinOp::NotEq => Ok(Rc::new(Object::Boolean(BooleanObj { value: *a != *b }))),
            BinOp::LtEq => Ok(Rc::new(Object::Boolean(BooleanObj { value: *a <= *b }))),
            BinOp::GtEq => Ok(Rc::new(Object::Boolean(BooleanObj { value: *a >= *b }))),
        },
        (Object::Boolean(x), Object::Boolean(y)) => match operator {
            BinOp::Lt => Ok(Rc::new(Object::Boolean(BooleanObj { value: !x.value && y.value }))),
            BinOp::Gt => Ok(Rc::new(Object::Boolean(BooleanObj { value: x.value && !y.value }))),
            BinOp::Eq => Ok(Rc::new(Object::Boolean(BooleanObj { value: x.value == y.value }))),
            BinOp::NotEq => Ok(
                Rc::new(Object::Boolean(BooleanObj { value: x.value != y.value })),
            ),
            BinOp::LtEq => Ok(Rc::new(Object::Boolean(BooleanObj { value: !x.value || y.value }))),
            BinOp::GtEq => Ok(Rc::new(Object::Boolean(BooleanObj { value: x.value || !y.value }))),
            _ => Err(eval_error("booleans take only the comparison operators", None)),
        },
        _ => Err(eval_error("binary operands must both be numbers or both booleans", None)),
    }
}

/// Resolve a name in the environment chain.
pub fn evaluate_identifier(identifier: &Identifier, environment: &Environment, frame: usize) -> (r:
    Result<Rc<Object>, EvaluatorError>)
    requires
        environment.wf(),
    ensures
        match crate::environment::spec_lookup(environment@, frame as int, identifier.value@) {
            Some(v) => r matches Ok(o) && obj_view(*o) == v,
            None => r matches Err(e) && e.spec_kind() == BoltErrorType::EVAL,
        },
{
    match environment.get(frame, &identifier.value) {
        Some(value) => Ok(value),
        None => Err(eval_error("name is not bound in the environment", None)),
    }
}

pub fn evaluate_expression(
    expression: &Expression,
    env: &mut Environment,
    frame: usize,
    fuel: u64,
) -> (r: Result<Rc<Object>, EvaluatorError>)
    requires
        old(env).wf(),
        frame < old(env)@.len(),
    ensures
        final(env).wf(),
        old(env)@.len() <= final(env)@.len(),
        ({
            let out = spec_eval_expression(
                expr_view(*expression),
                old(env)@,
                frame as int,
                fuel as nat,
            );
            final(env)@ == out.env && res_matches(r, out.res)
        }),
    decreases fuel, 2int,
{
    if fuel == 0 {
        return Err(eval_error("evaluation budget exhausted", Some(BoltErrorType::INTERNAL)));
    }
    match expression {
        Expression::Integer(i) => Ok(Rc::new(Object::Integer(i.value))),
        Expression::Null(_) => Ok(Rc::new(Object::Null(Null {}))),
        Expression::Boolean(b) => Ok(Rc::new(Object::Boolean(BooleanObj { value: b.value }))),
        Expression::Identifier(ident) => evaluate_identifier(ident, env, frame),
        Expression::Prefix(p) => {
            let right = evaluate_expression(&p.right, env, frame, fuel - 1)?;
            evaluate_prefix_expression(p.operator, right)
        },
        Expression::Binary(b) => {
            let left = evaluate_expression(&b.left, env, frame, fuel - 1)?;
            let right = evaluate_expression(&b.right, env, frame, fuel - 1)?;
            evaluate_binary_expression(b.operator, left, right)
        },
        Expression::If(if_expression) => evaluate_condition_expression(
            if_expression,
            env,
            frame,
            fuel,
        ),
        Expression::Function(f) => Ok(
            Rc::new(
                Object::Function(
                    Function {
                        parameters: rc_clone(&f.parameters),
                        body: rc_clone(&f.body),
                        env: frame,
                    },
                ),
            ),
        ),
        Expression::Call(c) => {
            let function = evaluate_expression(&c.funtion, env, frame, fuel - 1)?;
            let args = eval_arg_expression(&c.parameters, &function, env, frame, fuel - 1)?;
            apply_function(function, args, env, fuel - 1)
        },
    }
}

pub fn evaluate_statement(statement: &Statement, env: &mut Environment, frame: usize, fuel: u64) -> (r:
    Result<Rc<Object>, EvaluatorError>)
    requires
        old(env).wf(),
        frame < old(env)@.len(),
    ensures
        final(env).wf(),
        old(env)@.len() <= final(env)@.len(),
        ({
            let out = spec_eval_statement(
                stmt_view(*statement),
                old(env)@,
                frame as int,
                fuel as nat,
            );
            final(env)@ == out.env && res_matches(r, out.res)
        }),
    decreases fuel, 2int,
{
    if fuel == 0 {
        return Err(eval_error("evaluation budget exhausted", Some(BoltErrorType::INTERNAL)));
    }
    match statement {
        Statement::Expression(e) => evaluate_expression(&e.value, env, frame, fuel - 1),
        Statement::Block(b) => evaluate_block_statement_ref(b, env, frame, fuel - 1),
        Statement::Return(rs) => evaluate_return_statement(rs, env, frame, fuel),
        Statement::Let(ls) => evaluate_let_statement(ls, env, frame, fuel),
    }
}

/// Evaluate the returned expression and wrap it in the unwind sentinel.
pub fn evaluate_return_statement(
    return_statement: &ReturnStatement,
    env: &mut Environment,
    frame: usize,
    fuel: u64,
) -> (r: Result<Rc<Object>, EvaluatorError>)
    requires
        old(env).wf(),
        frame < old(env)@.len(),
    ensures
        final(env).wf(),
        old(env)@.len() <= final(env)@.len(),
        ({
            let out = spec_eval_statement(
                stmt_view(Statement::Return(*return_statement)),
                old(env)@,
                frame as int,
                fuel as nat,
            );
            final(env)@ == out.env && res_matches(r, out.res)
        }),
    decreases fuel, 1int,
{
    if fuel == 0 {
        return Err(eval_error("evaluation budget exhausted", Some(BoltErrorType::INTERNAL)));
    }
    let value = evaluate_expression(&return_statement.value, env, frame, fuel - 1)?;
    Ok(Rc::new(Object::Return(Return { value })))
}

/// Evaluate the bound expression and bind the name in the current frame;
/// the bound value is the statement's value.
pub fn evaluate_let_statement(
    let_statement: &LetStatement,
    env: &mut Environment,
    frame: usize,
    fuel: u64,
) -> (r: Result<Rc<Object>, EvaluatorError>)
    requires
        old(env).wf(),
        frame < old(env)@.len(),
    ensures
        final(env).wf(),
        old(env)@.len() <= final(env)@.len(),
        ({
            let out = spec_eval_statement(
                stmt_view(Statement::Let(*let_statement)),
                old(env)@,
                frame as int,
                fuel as nat,
            );
            final(env)@ == out.env && res_matches(r, out.res)
        }),
    decreases fuel, 1int,
{
    if fuel == 0 {
        return Err(eval_error("evaluation budget exhausted", Some(BoltErrorType::INTERNAL)));
    }
    let value = evaluate_expression(&let_statement.value, env, frame, fuel - 1)?;
    let ident = let_statement.identifier.value.clone();
    match env.set(frame, ident, rc_clone(&value)) {
        Some(_) => Ok(value),
        None => {
            proof {
                assert(false);
            }
            Err(eval_error("binding could not be stored", None))
        },
    }
}

/// Evaluate the condition, apply the truthiness rule, and run the chosen
/// branch; a false condition with no alternative yields null.
pub fn evaluate_condition_expression(
    if_expression: &IfExpression,
    env: &mut Environment,
    frame: usize,
    fuel: u64,
) -> (r: Result<Rc<Object>, EvaluatorError>)
    requires
        old(env).wf(),
        frame < old(env)@.len(),
    ensures
        final(env).wf(),
        old(env)@.len() <= final(env)@.len(),
        ({
            let out = spec_eval_expression(
                expr_view(Expression::If(*if_expression)),
                old(env)@,
                frame as int,
                fuel as nat,
            );
            final(env)@ == out.env && res_matches(r, out.res)
        }),
    decreases fuel, 1int,
{
    if fuel == 0 {
        return Err(eval_error("evaluation budget exhausted", Some(BoltErrorType::INTERNAL)));
    }
    let condition = evaluate_expression(&if_expression.condition, env, frame, fuel - 1)?;
    proof {
        let c = *condition;
        lemma_truthy_view(c);
    }
    let truthy = is_truthy(condition);
    if truthy {
        evaluate_block_statement_ref(&if_expression.consequence, env, frame, fuel - 1)
    } else {
        match &if_expression.alternate {
            Some(alternate) => evaluate_block_statement_ref(alternate, env, frame, fuel - 1),
            None => Ok(Rc::new(Object::Null(Null {}))),
        }
    }
}

/// Statements in order; a `Return` sentinel short-circuits and propagates
/// unchanged.
pub fn evaluate_block_statements(
    statements: &Vec<Statement>,
    env: &mut Environment,
    frame: usize,
    fuel: u64,
) -> (r: Result<Rc<Object>, EvaluatorError>)
    requires
        old(env).wf(),
        frame < old(env)@.len(),
    ensures
        final(env).wf(),
        old(env)@.len() <= final(env)@.len(),
        ({
            let out = spec_eval_block(
                stmts_view(statements@),
                old(env)@,
                frame as int,
                fuel as nat,
            );
            final(env)@ == out.env && res_matches(r, out.res)
        }),
    decreases fuel, 1int,
{
    proof {
        lemma_stmts_view_len(statements@);
        assert(stmts_view(statements@).subrange(0, statements@.len() as int) =~= stmts_view(
            statements@,
        ));
    }
    if fuel == 0 {
        return Err(eval_error("evaluation budget exhausted", Some(BoltErrorType::INTERNAL)));
    }
    if statements.len() == 0 {
        return Err(eval_error("a block must hold at least one statement", None));
    }
    evaluate_block_from(statements, 0, env, frame, fuel)
}

/// The tail of a block from statement `i` on, mirroring the model's
/// recursion over the remaining statements.
fn evaluate_block_from(
    statements: &Vec<Statement>,
    i: usize,
    env: &mut Environment,
    frame: usize,
    fuel: u64,
) -> (r: Result<Rc<Object>, EvaluatorError>)
    requires
        old(env).wf(),
        frame < old(env)@.len(),
        i < statements@.len(),
        fuel >= 1,
    ensures
        final(env).wf(),
        old(env)@.len() <= final(env)@.len(),
        ({
            let out = spec_eval_block(
                stmts_view(statements@).subrange(i as int, statements@.len() as int),
                old(env)@,
                frame as int,
                fuel as nat,
            );
            final(env)@ == out.env && res_matches(r, out.res)
        }),
    decreases fuel, 0int,
{
    proof {
        lemma_stmts_view_len(statements@);
    }
    let ghost gstmts = stmts_view(statements@).subrange(i as int, statements@.len() as int);
    let result = evaluate_statement(&statements[i], env, frame, fuel - 1)?;
    let is_return = match &*result {
        Object::Return(_) => true,
        _ => false,
    };
    if is_return {
        return Ok(result);
    }
    let n = statements.len();
    if i + 1 == n {
        return Ok(result);
    }
    proof {
        assert(gstmts.subrange(1, gstmts.len() as int) =~= stmts_view(statements@).subrange(
            i as int + 1,
            statements@.len() as int,
        ));
    }
    evaluate_block_from(statements, i + 1, env, frame, fuel - 1)
}

/// A block behind a shared handle (a function body).
pub fn evaluate_block_statement(
    block_statement: &Rc<BlockStatement>,
    env: &mut Environment,
    frame: usize,
    fuel: u64,
) -> (r: Result<Rc<Object>, EvaluatorError>)
    requires
        old(env).wf(),
        frame < old(env)@.len(),
    ensures
        final(env).wf(),
        old(env)@.len() <= final(env)@.len(),
        ({
            let out = spec_eval_block(
                block_view(**block_statement).stmts,
                old(env)@,
                frame as int,
                fuel as nat,
            );
            final(env)@ == out.env && res_matches(r, out.res)
        }),
    decreases fuel, 2int,
{
    evaluate_block_statements(&block_statement.statements, env, frame, fuel)
}

/// A block held directly in the tree.
pub fn evaluate_block_statement_ref(
    block_statement: &BlockStatement,
    env: &mut Environment,
    frame: usize,
    fuel: u64,
) -> (r: Result<Rc<Object>, EvaluatorError>)
    requires
        old(env).wf(),
        frame < old(env)@.len(),
    ensures
        final(env).wf(),
        old(env)@.len() <= final(env)@.len(),
        ({
            let out = spec_eval_block(
                block_view(*block_statement).stmts,
                old(env)@,
                frame as int,
                fuel as nat,
            );
            final(env)@ == out.env && res_matches(r, out.res)
        }),
    decreases fuel, 2int,
{
    evaluate_block_statements(&block_statement.statements, env, frame, fuel)
}

/// Check the callee and arity, then evaluate the arguments left to right in
/// the caller's frame.
pub fn eval_arg_expression(
    args: &Vec<Expression>,
    function: &Rc<Object>,
    env: &mut Environment,
    frame: usize,
    fuel: u64,
) -> (r: Result<Vec<Rc<Object>>, EvaluatorError>)
    requires
        old(env).wf(),
        frame < old(env)@.len(),
    ensures
        final(env).wf(),
        old(env)@.len() <= final(env)@.len(),
        ({
            let out = spec_eval_fn_args(
                obj_view(**function),
                exprs_view(args@),
                old(env)@,
                frame as int,
                fuel as nat,
            );
            final(env)@ == out.1 && (match r {
                Ok(vs) => out.0 == Ok::<Seq<GVal>, BoltErrorType>(objs_view(vs@)),
                Err(e) => out.0 is Err && (out.0 matches Err(k) && e.spec_kind() == k),
            })
        }),
    decreases fuel, 1int,
{
    proof {
        lemma_exprs_view_len(args@);
    }
    if fuel == 0 {
        return Err(eval_error("evaluation budget exhausted", Some(BoltErrorType::INTERNAL)));
    }
    match &**function {
        Object::Function(f) => {
            let params: &Vec<Identifier> = &f.parameters;
            if params.len() != args.len() {
                return Err(eval_error("argument count does not match the parameter list", None));
            }
            proof {
                assert(exprs_view(args@).subrange(0, args@.len() as int) =~= exprs_view(args@));
            }
            eval_args_from(args, 0, env, frame, fuel - 1)
        },
        _ => Err(eval_error("only a function value can be called", None)),
    }
}

/// The arguments from index `i` on, mirroring the model's recursion.
fn eval_args_from(
    args: &Vec<Expression>,
    i: usize,
    env: &mut Environment,
    frame: usize,
    fuel: u64,
) -> (r: Result<Vec<Rc<Object>>, EvaluatorError>)
    requires
        old(env).wf(),
        frame < old(env)@.len(),
        i <= args@.len(),
    ensures
        final(env).wf(),
        old(env)@.len() <= final(env)@.len(),
        ({
            let out = spec_eval_args(
                exprs_view(args@).subrange(i as int, args@.len() as int),
                old(env)@,
                frame as int,
                fuel as nat,
            );
            final(env)@ == out.1 && (match r {
                Ok(vs) => out.0 == Ok::<Seq<GVal>, BoltErrorType>(objs_view(vs@)),
                Err(e) => out.0 is Err && (out.0 matches Err(k) && e.spec_kind() == k),
            })
        }),
    decreases fuel, 0int,
{
    proof {
        lemma_exprs_view_len(args@);
    }
    if fuel == 0 {
        return Err(eval_error("evaluation budget exhausted", Some(BoltErrorType::INTERNAL)));
    }
    if i == args.len() {
        let out: Vec<Rc<Object>> = Vec::new();
        proof {
            assert(objs_view(out@) =~= Seq::<GVal>::empty());
        }
        return Ok(out);
    }
    let ghost gargs = exprs_view(args@).subrange(i as int, args@.len() as int);
    let v0 = evaluate_expression(&args[i], env, frame, fuel - 1)?;
    proof {
        assert(gargs.subrange(1, gargs.len() as int) =~= exprs_view(args@).subrange(
            i as int + 1,
            args@.len() as int,
        ));
    }
    let rest = eval_args_from(args, i + 1, env, frame, fuel - 1)?;
    let ghost restv = rest@;
    let mut out = rest;
    out.insert(0, v0);
    proof {
        assert(objs_view(out@) =~= seq![obj_view(*v0)] + objs_view(restv));
    }
    Ok(out)
}

/// A fresh frame over the function's captured scope, with the arguments
/// bound positionally to the parameter names.
pub fn extend_funtion_env(function: &Function, args: Vec<Rc<Object>>, env: &mut Environment) -> (idx:
    usize)
    requires
        old(env).wf(),
        function.env < old(env)@.len(),
        function.parameters@.len() == args@.len(),
    ensures
        final(env).wf(),
        idx == old(env)@.len(),
        final(env)@ == old(env)@.push(
            crate::environment::GFrame {
                bindings: bind_params(idents_view(function.parameters@), objs_view(args@)),
                outer: Some(function.env as int),
            },
        ),
{
    let idx = new_enclosed_environment(env, function.env);
    let params: &Vec<Identifier> = &function.parameters;
    let ghost gparams = idents_view(function.parameters@);
    let ghost gvals = objs_view(args@);
    let n = params.len();
    let mut i: usize = 0;
    while i < n
        invariant
            env.wf(),
            idx < env@.len(),
            i <= n,
            n == params@.len(),
            n == args@.len(),
            gparams == idents_view(params@),
            gvals == objs_view(args@),
            gparams.len() == n,
            gvals.len() == n,
            env@ == old(env)@.push(
                crate::environment::GFrame {
                    bindings: bind_params(
                        gparams.subrange(0, i as int),
                        gvals.subrange(0, i as int),
                    ),
                    outer: Some(function.env as int),
                },
            ),
            idx == old(env)@.len(),
        decreases n - i,
    {
        let key = params[i].value.clone();
        let value = rc_clone(&args[i]);
        env.set(idx, key, value);
        proof {
            assert(gparams.subrange(0, i as int + 1).drop_last() =~= gparams.subrange(
                0,
                i as int,
            ));
            assert(gvals.subrange(0, i as int + 1).drop_last() =~= gvals.subrange(0, i as int));
            assert(gparams.subrange(0, i as int + 1).last() == ident_view(params@[i as int]));
            assert(gvals.subrange(0, i as int + 1).last() == obj_view(*args@[i as int]));
            assert(env@ =~= old(env)@.push(
                crate::environment::GFrame {
                    bindings: bind_params(
                        gparams.subrange(0, i as int + 1),
                        gvals.subrange(0, i as int + 1),
                    ),
                    outer: Some(function.env as int),
                },
            ));
        }
        i = i + 1;
    }
    proof {
        assert(gparams.subrange(0, n as int) =~= gparams);
        assert(gvals.subrange(0, n as int) =~= gvals);
    }
    idx
}

/// Call a function value: bind the arguments in a frame enclosing the
/// captured scope, run the body, and unwrap one `Return` sentinel.
pub fn apply_function(
    function: Rc<Object>,
    args: Vec<Rc<Object>>,
    env: &mut Environment,
    fuel: u64,
) -> (r: Result<Rc<Object>, EvaluatorError>)
    requires
        old(env).wf(),
    ensures
        final(env).wf(),
        old(env)@.len() <= final(env)@.len(),
        ({
            let out = spec_apply_function(
                obj_view(*function),
                objs_view(args@),
                old(env)@,
                fuel as nat,
            );
            final(env)@ == out.env && res_matches(r, out.res)
        }),
    decreases fuel, 1int,
{
    if fuel == 0 {
        return Err(eval_error("evaluation budget exhausted", Some(BoltErrorType::INTERNAL)));
    }
    match &*function {
        Object::Function(f) => {
            let params_len = {
                let params: &Vec<Identifier> = &f.parameters;
                params.len()
            };
            if params_len != args.len() {
                return Err(eval_error("argument count does not match the parameter list", None));
            }
            let frame_count = env.frame_count();
            if f.env >= frame_count {
                // Unreachable from the public pipeline: closures only capture
                // frames that exist.
                return Err(
                    eval_error("closure captured a missing frame", Some(BoltErrorType::INTERNAL)),
                );
            }
            let idx = extend_funtion_env(f, args, env);
            let evaluated = evaluate_block_statement(&f.body, env, idx, fuel - 1)?;
            let inner = match &*evaluated {
                Object::Return(ret) => Some(rc_clone(&ret.value)),
                _ => None,
            };
            match inner {
                Some(v) => Ok(v),
                None => Ok(evaluated),
            }
        },
        _ => Err(eval_error("only a function value can be called", None)),
    }
}

/// The front end and walker in one place: parse the source once, then
/// evaluate the statements in order against the held environment.
pub struct Evaluator {
    pub source: String,
    pub environment: Environment,
}

impl Evaluator {
    pub open spec fn wf(&self) -> bool {
        &&& self.environment.wf()
        &&& self.environment@.len() >= 1
    }

    /// A fresh evaluator over the given source; an environment may be handed
    /// in so that a session keeps its bindings from line to line.
    pub fn new(source: &str, environment: Option<Environment>) -> (ev: Evaluator)
        requires
            match environment {
                Some(e) => e.wf() && e@.len() >= 1,
                None => true,
            },
        ensures
            ev.wf(),
            ev.source@ == source@,
            match environment {
                Some(e) => ev.environment@ == e@,
                None => ev.environment@.len() == 1 && ev.environment@[0].bindings == Map::<
                    Seq<char>,
                    GVal,
                >::empty() && ev.environment@[0].outer is None,
            },
    {
        let environment = match environment {
            Some(e) => e,
            None => Environment::new(),
        };
        Evaluator { source: String::from_str(source), environment }
    }

    /// Interpret the held source: the last statement's value, `None` for an
    /// empty program, or the first error.
    pub fn eval(&mut self) -> (r: Option<Result<Rc<Object>, EvaluatorError>>)
        requires
            old(self).wf(),
        ensures
            final(self).wf(),
            final(self).source == old(self).source,
            ({
                let out = spec_interpret(old(self).source@, old(self).environment@);
                final(self).environment@ == out.1 && (match r {
                    Some(Ok(v)) => out.0 == Ok::<Option<GVal>, BoltErrorType>(
                        Some(obj_view(*v)),
                    ),
                    Some(Err(e)) => out.0 is Err && (out.0 matches Err(k) && e.spec_kind() == k),
                    None => out.0 == Ok::<Option<GVal>, BoltErrorType>(None),
                })
            }),
    {
        self.eval_interpretted()
    }

    #[verifier::rlimit(100)]
    fn eval_interpretted(&mut self) -> (r: Option<Result<Rc<Object>, EvaluatorError>>)
        requires
            old(self).wf(),
        ensures
            final(self).wf(),
            final(self).source == old(self).source,
            ({
                let out = spec_interpret(old(self).source@, old(self).environment@);
                final(self).environment@ == out.1 && (match r {
                    Some(Ok(v)) => out.0 == Ok::<Option<GVal>, BoltErrorType>(
                        Some(obj_view(*v)),
                    ),
                    Some(Err(e)) => out.0 is Err && (out.0 matches Err(k) && e.spec_kind() == k),
                    None => out.0 == Ok::<Option<GVal>, BoltErrorType>(None),
                })
            }),
    {
        let mut parser = Parser::new(self.source.as_str());
        match parser.parse_program() {
            Ok(program) => {
                let ghost gstmts = program_view(program);
                proof {
                    lemma_stmts_view_len(program.stmts@);
                }
                let n = program.stmts.len();
                let mut i: usize = 0;
                let mut result: Option<Rc<Object>> = None;
                loop
                    invariant
                        self.wf(),
                        self.source == old(self).source,
                        i <= n,
                        n == program.stmts@.len(),
                        gstmts == program_view(program),
                        gstmts.len() == n,
                        spec_interpret(old(self).source@, old(self).environment@)
                            == spec_run_program(gstmts, 0, None, old(self).environment@),
                        spec_run_program(gstmts, 0, None, old(self).environment@)
                            == spec_run_program(
                            gstmts,
                            i as int,
                            opt_view(result),
                            self.environment@,
                        ),
                    ensures
                        self.wf(),
                        self.source == old(self).source,
                        spec_run_program(gstmts, 0, None, old(self).environment@) == (
                            Ok::<Option<GVal>, BoltErrorType>(opt_view(result)),
                            self.environment@,
                        ),
                    decreases n - i,
                {
                    if i >= n {
                        break ;
                    }
                    proof {
                        lemma_stmts_view_len(program.stmts@);
                        assert(gstmts[i as int] == stmt_view(program.stmts@[i as int]));
                    }
                    let stmt_result = evaluate_statement(
                        &program.stmts[i],
                        &mut self.environment,
                        0,
                        EVAL_FUEL,
                    );
                    match stmt_result {
                        Ok(v) => {
                            result = Some(v);
                        },
                        Err(e) => {
                            return Some(Err(e));
                        },
                    }
                    i = i + 1;
                }
                match result {
                    Some(v) => Some(Ok(v)),
                    None => None,
                }
            },
            Err(e) => Some(
                Err(EvaluatorError::new(e.get_message(), Some(e.get_type()), None)),
            ),
        }
    }
}

} // verus!
