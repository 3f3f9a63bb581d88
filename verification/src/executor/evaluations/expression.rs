use vstd::prelude::*;
use crate::executor::evaluations::command::{evaluate_command, request_display, request_float};
use crate::executor::evaluations::if_statement::evaluate_if;
use crate::executor::evaluations::mathop::evaluate_math;
use crate::executor::evaluations::variables::{
    evaluate_variable_assignment,
    evaluate_variable_declaration,
};
use crate::executor::evaluations::while_statement::evaluate_while;
use crate::executor::evaluations::word::evaluate_word;
use crate::executor::executor::ExecutorError;
use crate::executor::host::{Halt, Request, Session};
use crate::executor::primitives::{Decimal, FloatPrimitive, StringPrimitive};
use crate::executor::scope::Scope;
use crate::executor::semantics::{
    block,
    eval,
    execute,
    option_result,
    reduce,
    scoped,
    state_of,
    statement,
    text_result,
    value_result,
};
use crate::executor::utils::expr_is_value;
use crate::parser::ast::{lemma_body_view, nodes_view, AstNode, Expr};

verus! {

/// Executes a statement for what it shows: the written value of an
/// expression, or the output of a command.
pub fn execute_expression(scope: &mut Scope, session: &mut Session, node: &AstNode) -> (r: Result<
    String,
    Halt,
>)
    ensures
        final(session).host() == old(session).host(),
        (text_result(r), state_of(*final(scope), *final(session))) == execute(
            old(session).host(),
            state_of(*old(scope), *old(session)),
            node@,
        ),
    decreases *node, old(session).limit + 4,
{
    match node {
        AstNode::Expr(expr) => {
            let value = match evaluate_till_primitive(scope, session, expr) {
                Ok(v) => v,
                Err(halt) => {
                    return Err(halt);
                },
            };
            match &value {
                Expr::NoValue => Ok(String::new()),
                Expr::Int(i) => Ok(i.display()),
                Expr::String(s) => Ok(s.display()),
                Expr::Bool(b) => Ok(b.display()),
                Expr::Float(f) => match &f.value {
                    Decimal::Bits(bits) => request_display(session, *bits),
                    Decimal::Written(_) => Err(Halt::Error(ExecutorError::NotAValue)),
                },
                _ => Err(Halt::Error(ExecutorError::NotAValue)),
            }
        },
        AstNode::Cmd(cmd) => evaluate_command(session, &cmd.name, &cmd.args),
    }
}

/// Evaluates an expression to a value: a value is itself, anything else
/// is evaluated one level.
pub fn evaluate_till_primitive(scope: &mut Scope, session: &mut Session, expr: &Expr) -> (r: Result<
    Expr,
    Halt,
>)
    ensures
        final(session).host() == old(session).host(),
        (value_result(r), state_of(*final(scope), *final(session))) == reduce(
            old(session).host(),
            state_of(*old(scope), *old(session)),
            expr@,
        ),
    decreases *expr, old(session).limit + 2,
{
    if expr_is_value(expr) {
        Ok(expr.duplicate())
    } else {
        evaluate_expression(scope, session, expr)
    }
}

/// Evaluates an expression one level.
pub fn evaluate_expression(scope: &mut Scope, session: &mut Session, expr: &Expr) -> (r: Result<
    Expr,
    Halt,
>)
    ensures
        final(session).host() == old(session).host(),
        (value_result(r), state_of(*final(scope), *final(session))) == eval(
            old(session).host(),
            state_of(*old(scope), *old(session)),
            expr@,
        ),
    decreases *expr, old(session).limit + 1,
{
    match expr {
        Expr::NoValue => Err(Halt::Error(ExecutorError::NotAValue)),
        Expr::Int(_) => Ok(expr.duplicate()),
        Expr::String(_) => Ok(expr.duplicate()),
        Expr::Bool(_) => Ok(expr.duplicate()),
        Expr::Float(f) => match &f.value {
            Decimal::Bits(_) => Ok(expr.duplicate()),
            Decimal::Written(text) => match request_float(
                session,
                Request::Literal { text: text.clone() },
            ) {
                Ok(bits) => Ok(FloatPrimitive::from_value_to_expr(bits)),
                Err(halt) => Err(halt),
            },
        },
        Expr::Operation { stack } => evaluate_math(scope, session, stack),
        Expr::If { conditions } => {
            proof {
                lemma_body_view(*expr);
            }
            match evaluate_if(scope, session, conditions) {
                Ok(Some(e)) => Ok(e),
                Ok(None) => Ok(Expr::NoValue),
                Err(halt) => Err(halt),
            }
        },
        Expr::While { condition, body } => evaluate_while(scope, session, expr),
        Expr::VariableDeclaration { name, value } => evaluate_variable_declaration(
            scope,
            session,
            name,
            value,
        ),
        Expr::VariableAssigment { name, value } => evaluate_variable_assignment(
            scope,
            session,
            name,
            value,
        ),
        Expr::Word(w) => evaluate_word(scope, session, w),
    }
}

/// Executes a statement for its value: that of an expression, or the
/// output of a command as a text.
pub fn evaluate_statement(scope: &mut Scope, session: &mut Session, node: &AstNode) -> (r: Result<
    Expr,
    Halt,
>)
    ensures
        final(session).host() == old(session).host(),
        (value_result(r), state_of(*final(scope), *final(session))) == statement(
            old(session).host(),
            state_of(*old(scope), *old(session)),
            node@,
        ),
    decreases *node, old(session).limit + 3,
{
    match node {
        AstNode::Expr(expr) => evaluate_till_primitive(scope, session, expr),
        AstNode::Cmd(cmd) => match evaluate_command(session, &cmd.name, &cmd.args) {
            Ok(s) => Ok(StringPrimitive::from_value_to_expr(s)),
            Err(halt) => Err(halt),
        },
    }
}

/// Executes the statements of a body in order, in the current scope, and
/// gives the value of the last one.
pub fn evaluate_block(scope: &mut Scope, session: &mut Session, body: &Vec<AstNode>) -> (r: Result<
    Option<Expr>,
    Halt,
>)
    ensures
        final(session).host() == old(session).host(),
        (option_result(r), state_of(*final(scope), *final(session))) == block(
            old(session).host(),
            state_of(*old(scope), *old(session)),
            nodes_view(body@),
            0,
            None,
        ),
    decreases *body, 0nat,
{
    let ghost h = session.host();
    let ghost st0 = state_of(*scope, *session);
    let ghost nodes = nodes_view(body@);
    let mut last: Option<Expr> = None;
    let mut k: usize = 0;
    while k < body.len()
        invariant
            0 <= k <= body.len(),
            nodes == nodes_view(body@),
            h == old(session).host(),
            session.host() == h,
            st0 == state_of(*old(scope), *old(session)),
            block(h, st0, nodes, 0, None) == block(
                h,
                state_of(*scope, *session),
                nodes,
                k as int,
                option_result(Ok(last))->Ok_0,
            ),
        decreases body.len() - k,
    {
        proof {
            assert(nodes[k as int] == body@[k as int]@);
        }
        match evaluate_statement(scope, session, &body[k]) {
            Ok(v) => {
                last = Some(v);
            },
            Err(halt) => {
                return Err(halt);
            },
        }
        k += 1;
    }
    Ok(last)
}

/// Executes a body in a scope of its own that shadows the current one,
/// and drops that scope afterwards.
pub fn evaluate_body(scope: &mut Scope, session: &mut Session, body: &Vec<AstNode>) -> (r: Result<
    Option<Expr>,
    Halt,
>)
    ensures
        final(session).host() == old(session).host(),
        (option_result(r), state_of(*final(scope), *final(session))) == scoped(
            old(session).host(),
            state_of(*old(scope), *old(session)),
            nodes_view(body@),
        ),
    decreases *body, 1nat,
{
    scope.enter();
    let r = evaluate_block(scope, session, body);
    scope.leave();
    r
}

} // verus!
