use vstd::prelude::*;
use crate::executor::evaluations::expression::{evaluate_body, evaluate_till_primitive};
use crate::executor::host::{Halt, Session};
use crate::executor::scope::Scope;
use crate::executor::semantics::{branches, option_result, state_of};
use crate::executor::utils::expr_is_truthy;
use crate::parser::ast::{lemma_branch_view, Expr, IfCondition};
use crate::parser::parsers::cascade::branches_view;

verus! {

/// Evaluates a conditional: runs the first branch whose condition holds.
/// The result is the value of that branch's last statement where the
/// branch returns it, and nothing otherwise.
pub fn evaluate_if(scope: &mut Scope, session: &mut Session, conditions: &Vec<IfCondition>) -> (r:
    Result<Option<Expr>, Halt>)
    ensures
        final(session).host() == old(session).host(),
        (option_result(r), state_of(*final(scope), *final(session))) == branches(
            old(session).host(),
            state_of(*old(scope), *old(session)),
            branches_view(conditions@),
            0,
        ),
    decreases *conditions, 0nat,
{
    let ghost h = session.host();
    let ghost st0 = state_of(*scope, *session);
    let ghost cs = branches_view(conditions@);
    let mut i: usize = 0;
    while i < conditions.len()
        invariant
            0 <= i <= conditions.len(),
            cs == branches_view(conditions@),
            h == old(session).host(),
            session.host() == h,
            st0 == state_of(*old(scope), *old(session)),
            branches(h, st0, cs, 0) == branches(h, state_of(*scope, *session), cs, i as int),
        decreases conditions.len() - i,
    {
        let cond = &conditions[i];
        proof {
            lemma_branch_view(*cond);
            assert(cs[i as int] == cond@);
        }
        let value = match evaluate_till_primitive(scope, session, &cond.condition) {
            Ok(v) => v,
            Err(halt) => {
                return Err(halt);
            },
        };
        if expr_is_truthy(&value) {
            return match evaluate_body(scope, session, &cond.body) {
                Ok(last) => Ok(
                    if cond.implicit_return {
                        last
                    } else {
                        None
                    },
                ),
                Err(halt) => Err(halt),
            };
        }
        i += 1;
    }
    Ok(None)
}

} // verus!
