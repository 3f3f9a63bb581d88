use vstd::prelude::*;
use crate::executor::executor::ExecutorError;
use crate::executor::host::Number;
use crate::executor::primitives::Decimal;
use crate::executor::semantics::{arithmetic_operator, is_value, numeric, truthy};
use crate::lexer::token::{Operator as Sign, TokenKind, TokenKindView};
use crate::parser::ast::{Expr, Operator};

verus! {

/// Tells whether a condition holds.
pub fn expr_is_truthy(expr: &Expr) -> (r: bool)
    ensures
        r == truthy(expr@),
{
    match expr {
        Expr::Int(i) => i.value != 0,
        Expr::Bool(b) => b.value,
        Expr::Float(f) => f.is_nonzero(),
        Expr::String(s) => s.value.as_str().unicode_len() != 0,
        _ => false,
    }
}

/// Tells whether an expression is a value.
pub fn expr_is_value(expr: &Expr) -> (r: bool)
    ensures
        r == is_value(expr@),
{
    match expr {
        Expr::NoValue => true,
        Expr::Int(_) => true,
        Expr::String(_) => true,
        Expr::Bool(_) => true,
        Expr::Float(f) => matches!(f.value, Decimal::Bits(_)),
        _ => false,
    }
}

/// The number that a value is, if it is one.
pub fn number_of(expr: &Expr) -> (r: Option<Number>)
    ensures
        r == numeric(expr@),
{
    match expr {
        Expr::Int(i) => Some(Number::Int(i.value)),
        Expr::Float(f) => match &f.value {
            Decimal::Bits(bits) => Some(Number::Float(*bits)),
            Decimal::Written(_) => None,
        },
        _ => None,
    }
}

/// The operator of arithmetic that a token stands for.
pub fn parse_operator_token(token: &TokenKind) -> (r: Result<Operator, ExecutorError>)
    ensures
        match r {
            Ok(op) => token@ is Operator && arithmetic_operator(token@->Operator_0) == Some(op),
            Err(e) => e == ExecutorError::Operator && (token@ matches TokenKindView::Operator(sign)
                ==> arithmetic_operator(sign) is None),
        },
{
    match token {
        TokenKind::Operator(Sign::Plus) => Ok(Operator::Add),
        TokenKind::Operator(Sign::Minus) => Ok(Operator::Subtract),
        TokenKind::Operator(Sign::Divide) => Ok(Operator::Divide),
        TokenKind::Operator(Sign::Multiply) => Ok(Operator::Multiply),
        _ => Err(ExecutorError::Operator),
    }
}

} // verus!
