use vstd::prelude::*;
use crate::executor::evaluations::expression::evaluate_till_primitive;
use crate::executor::host::{Halt, Session};
use crate::executor::scope::{Scope, Variable};
use crate::executor::semantics::{eval, state_of, value_result};
use crate::parser::ast::{Expr, ExprView};

verus! {

/// Evaluates `let name = value;`: binds the value of `value` to `name` in
/// the current scope.
pub fn evaluate_variable_declaration(
    scope: &mut Scope,
    session: &mut Session,
    name: &String,
    value: &Expr,
) -> (r: Result<Expr, Halt>)
    ensures
        final(session).host() == old(session).host(),
        (value_result(r), state_of(*final(scope), *final(session))) == eval(
            old(session).host(),
            state_of(*old(scope), *old(session)),
            ExprView::VariableDeclaration { name: name@, value: Box::new(value@) },
        ),
    decreases *value, old(session).limit + 3,
{
    let evaluated = match evaluate_till_primitive(scope, session, value) {
        Ok(v) => v,
        Err(halt) => {
            return Err(halt);
        },
    };
    match scope.push(Variable { name: name.clone(), value: evaluated }) {
        Ok(()) => Ok(Expr::NoValue),
        Err(e) => Err(Halt::Error(e)),
    }
}

/// Evaluates `name = value;`: gives the variable `name` the value of `value`.
pub fn evaluate_variable_assignment(
    scope: &mut Scope,
    session: &mut Session,
    name: &String,
    value: &Expr,
) -> (r: Result<Expr, Halt>)
    ensures
        final(session).host() == old(session).host(),
        (value_result(r), state_of(*final(scope), *final(session))) == eval(
            old(session).host(),
            state_of(*old(scope), *old(session)),
            ExprView::VariableAssigment { name: name@, value: Box::new(value@) },
        ),
    decreases *value, old(session).limit + 3,
{
    let evaluated = match evaluate_till_primitive(scope, session, value) {
        Ok(v) => v,
        Err(halt) => {
            return Err(halt);
        },
    };
    match scope.overwrite(name.clone(), evaluated) {
        Ok(()) => Ok(Expr::NoValue),
        Err(e) => Err(Halt::Error(e)),
    }
}

} // verus!
