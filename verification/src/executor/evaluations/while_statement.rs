use vstd::prelude::*;
use crate::executor::evaluations::expression::{evaluate_body, evaluate_till_primitive};
use crate::executor::executor::ExecutorError;
use crate::executor::host::{Halt, Session};
use crate::executor::scope::Scope;
use crate::executor::semantics::{repeat, state_of, value_result};
use crate::executor::utils::expr_is_truthy;
use crate::parser::ast::{lemma_body_view, Expr};

verus! {

/// Evaluates the loop `expr`: while its condition holds, its body is
/// executed in a fresh scope. No loop takes more iterations than the
/// session allows.
pub fn evaluate_while(scope: &mut Scope, session: &mut Session, expr: &Expr) -> (r: Result<
    Expr,
    Halt,
>)
    ensures
        final(session).host() == old(session).host(),
        (value_result(r), state_of(*final(scope), *final(session))) == repeat(
            old(session).host(),
            state_of(*old(scope), *old(session)),
            expr@,
            old(session).limit as nat,
        ),
    decreases *expr, old(session).limit,
{
    let ghost h = session.host();
    let ghost st0 = state_of(*scope, *session);
    match expr {
        Expr::While { condition, body } => {
            proof {
                lemma_body_view(*expr);
            }
            let mut remaining: u64 = session.limit;
            loop
                invariant
                    h == old(session).host(),
                    session.host() == h,
                    st0 == state_of(*old(scope), *old(session)),
                    remaining <= h.limit,
                    *expr == (Expr::While { condition: *condition, body: *body }),
                    decreases_to!(*expr => **condition),
                    decreases_to!(*expr => *body),
                    expr@ == (crate::parser::ast::ExprView::While {
                        condition: Box::new(condition@),
                        body: crate::parser::ast::nodes_view(body@),
                    }),
                    repeat(h, st0, expr@, h.limit) == repeat(
                        h,
                        state_of(*scope, *session),
                        expr@,
                        remaining as nat,
                    ),
                decreases remaining,
            {
                let value = match evaluate_till_primitive(scope, session, condition) {
                    Ok(v) => v,
                    Err(halt) => {
                        return Err(halt);
                    },
                };
                if !expr_is_truthy(&value) {
                    return Ok(Expr::NoValue);
                }
                if remaining == 0 {
                    return Err(Halt::Error(ExecutorError::LoopLimit));
                }
                match evaluate_body(scope, session, body) {
                    Ok(_) => {},
                    Err(halt) => {
                        return Err(halt);
                    },
                }
                remaining -= 1;
            }
        },
        _ => Err(Halt::Error(ExecutorError::NotAValue)),
    }
}

} // verus!
