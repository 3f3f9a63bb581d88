use vstd::prelude::*;
use crate::executor::evaluations::command::request_float;
use crate::executor::executor::ExecutorError;
use crate::executor::host::{Halt, Number, Request, Session};
use crate::executor::primitives::{BoolPrimitive, FloatPrimitive, IntPrimitive, StringPrimitive};
use crate::executor::scope::Scope;
use crate::executor::semantics::{apply, math, operate, value_result, values_view, State};
use crate::executor::utils::{number_of, parse_operator_token};
use crate::lexer::token::{Operator as Sign, Token, TokenKind};
use crate::parser::ast::{Expr, ExprView, Operator};
use crate::parser::parsers::math::tokens_view;

verus! {

/// The result of checked integer arithmetic as a value.
pub fn int_result(checked: Option<i64>) -> (r: Result<Expr, Halt>)
    ensures
        value_result(r) == match checked {
            Some(i) => Ok::<ExprView, crate::executor::host::HaltView>(ExprView::Int(i)),
            None => Err(crate::executor::host::HaltView::Error(ExecutorError::Overflow)),
        },
{
    match checked {
        Some(i) => Ok(IntPrimitive::from_value_to_expr(i)),
        None => Err(Halt::Error(ExecutorError::Overflow)),
    }
}

/// One operation of arithmetic on two numbers.
pub fn apply_operator(session: &mut Session, op: Operator, left: Number, right: Number) -> (r:
    Result<Expr, Halt>)
    ensures
        final(session).host() == old(session).host(),
        (value_result(r), final(session).cursor as nat) == apply(
            old(session).host(),
            old(session).cursor as nat,
            op,
            left,
            right,
        ),
{
    match (left, right) {
        (Number::Int(a), Number::Int(b)) => match op {
            Operator::Add => {
                return int_result(a.checked_add(b));
            },
            Operator::Subtract => {
                return int_result(a.checked_sub(b));
            },
            Operator::Multiply => {
                return int_result(a.checked_mul(b));
            },
            Operator::Divide => {},
        },
        _ => {},
    }
    match request_float(session, Request::Arithmetic { op, left, right }) {
        Ok(bits) => Ok(FloatPrimitive::from_value_to_expr(bits)),
        Err(halt) => Err(halt),
    }
}

/// Applies the operator `sign` to the two values on top of `values`.
pub fn apply_sign(session: &mut Session, sign: Sign, values: &mut Vec<Expr>) -> (r: Result<(), Halt>)
    ensures
        final(session).host() == old(session).host(),
        (match r {
            Ok(()) => Ok(values_view(final(values)@)),
            Err(halt) => Err(halt@),
        }, final(session).cursor as nat) == operate(
            old(session).host(),
            old(session).cursor as nat,
            sign,
            values_view(old(values)@),
        ),
{
    let ghost before = values_view(values@);
    if values.len() < 2 {
        return Err(Halt::Error(ExecutorError::Malformed));
    }
    let right = values.pop().unwrap();
    let left = values.pop().unwrap();
    proof {
        assert(values_view(values@) == before.take(before.len() - 2));
        assert(left@ == before[before.len() - 2]);
        assert(right@ == before[before.len() - 1]);
    }
    let l = match number_of(&left) {
        Some(n) => n,
        None => {
            return Err(Halt::Error(ExecutorError::NotNumeric));
        },
    };
    let r = match number_of(&right) {
        Some(n) => n,
        None => {
            return Err(Halt::Error(ExecutorError::NotNumeric));
        },
    };
    let op = match parse_operator_token(&TokenKind::Operator(sign)) {
        Ok(op) => op,
        Err(e) => {
            return Err(Halt::Error(e));
        },
    };
    match apply_operator(session, op, l, r) {
        Ok(v) => {
            let ghost below = values_view(values@);
            proof {
                assert(values_view(values@.push(v)) == below.push(v@));
            }
            values.push(v);
            Ok(())
        },
        Err(halt) => Err(halt),
    }
}

/// Evaluates arithmetic given as tokens in postfix order.
pub fn evaluate_math(scope: &Scope, session: &mut Session, expr: &Vec<Token>) -> (r: Result<
    Expr,
    Halt,
>)
    ensures
        final(session).host() == old(session).host(),
        (value_result(r), State { chain: scope@, cursor: final(session).cursor as nat }) == math(
            old(session).host(),
            State { chain: scope@, cursor: old(session).cursor as nat },
            tokens_view(expr@),
            0,
            Seq::empty(),
        ),
{
    let ghost h = session.host();
    let ghost st0 = State { chain: scope@, cursor: session.cursor as nat };
    let ghost ts = tokens_view(expr@);
    let mut stack: Vec<Expr> = Vec::new();
    let mut i: usize = 0;
    proof {
        assert(values_view(stack@) == Seq::<ExprView>::empty());
    }
    while i < expr.len()
        invariant
            0 <= i <= expr.len(),
            ts == tokens_view(expr@),
            session.host() == h,
            h == old(session).host(),
            st0 == (State { chain: scope@, cursor: old(session).cursor as nat }),
            math(h, st0, ts, 0, Seq::empty()) == math(
                h,
                State { chain: scope@, cursor: session.cursor as nat },
                ts,
                i as int,
                values_view(stack@),
            ),
        decreases expr.len() - i,
    {
        let token = &expr[i];
        let ghost values = values_view(stack@);
        proof {
            assert(ts[i as int] == token@);
        }
        match &token.kind {
            TokenKind::Word(w) => match scope.lookup(w.clone()) {
                Some(var) => {
                    proof {
                        assert(values_view(stack@.push(var.value)) == values.push(var.value@));
                    }
                    stack.push(var.value);
                },
                None => {
                    return Err(Halt::Error(ExecutorError::NotFound));
                },
            },
            TokenKind::String(s) => {
                let v = StringPrimitive::from_value_to_expr(s.clone());
                proof {
                    assert(values_view(stack@.push(v)) == values.push(v@));
                }
                stack.push(v);
            },
            TokenKind::Int(n) => {
                let v = IntPrimitive::from_value_to_expr(*n);
                proof {
                    assert(values_view(stack@.push(v)) == values.push(v@));
                }
                stack.push(v);
            },
            TokenKind::Float(text) => {
                match request_float(session, Request::Literal { text: text.clone() }) {
                    Ok(bits) => {
                        let v = FloatPrimitive::from_value_to_expr(bits);
                        proof {
                            assert(values_view(stack@.push(v)) == values.push(v@));
                        }
                        stack.push(v);
                    },
                    Err(halt) => {
                        return Err(halt);
                    },
                }
            },
            TokenKind::Bool(b) => {
                let v = BoolPrimitive::from_value_to_expr(*b);
                proof {
                    assert(values_view(stack@.push(v)) == values.push(v@));
                }
                stack.push(v);
            },
            TokenKind::Operator(sign) => {
                match apply_sign(session, *sign, &mut stack) {
                    Ok(()) => {},
                    Err(halt) => {
                        return Err(halt);
                    },
                }
            },
            _ => {},
        }
        i += 1;
    }
    if stack.len() != 1 {
        Err(Halt::Error(ExecutorError::Malformed))
    } else {
        let v = stack.pop().unwrap();
        Ok(v)
    }
}

} // verus!
