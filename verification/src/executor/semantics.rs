use vstd::prelude::*;
use crate::executor::executor::ExecutorError;
use crate::executor::host::{asked, AnswerView, Halt, HaltView, Host, Number, RequestView, Session};
use crate::executor::scope::Scope;
use crate::parser::ast::Expr;
use crate::executor::primitives::bool::bool_text;
use crate::executor::primitives::float::bits_are_zero;
use crate::executor::primitives::integer::decimal_text;
use crate::executor::primitives::DecimalView;
use crate::executor::scope::{declared, entered, left, lookup, overwritten, Frame};
use crate::lexer::token::{Operator as Sign, TokenKindView, TokenView};
use crate::parser::ast::{AstNodeView, ExprView, IfConditionView, Operator};

verus! {

/// What an evaluation works on: the chain of scopes, current scope first,
/// and the number of the host's answers that are used.
pub struct State {
    pub chain: Seq<Frame>,
    pub cursor: nat,
}

/// What a step of evaluation gives: a result or the reason why there is
/// none, and the state after it.
pub type Step<T> = (Result<T, HaltView>, State);

/// The state that a scope and a session are in.
pub open spec fn state_of(scope: Scope, session: Session) -> State {
    State { chain: scope@, cursor: session.cursor as nat }
}

/// The value of a result that holds an expression.
pub open spec fn value_result(r: Result<Expr, Halt>) -> Result<ExprView, HaltView> {
    match r {
        Ok(e) => Ok(e@),
        Err(halt) => Err(halt@),
    }
}

/// The value of a result that may hold an expression.
pub open spec fn option_result(r: Result<Option<Expr>, Halt>) -> Result<Option<ExprView>, HaltView> {
    match r {
        Ok(Some(e)) => Ok(Some(e@)),
        Ok(None) => Ok(None),
        Err(halt) => Err(halt@),
    }
}

/// The value of a result that holds a text.
pub open spec fn text_result(r: Result<String, Halt>) -> Result<Seq<char>, HaltView> {
    match r {
        Ok(s) => Ok(s@),
        Err(halt) => Err(halt@),
    }
}

/// The values of a list of expressions.
pub open spec fn values_view(values: Seq<Expr>) -> Seq<ExprView> {
    values.map_values(|e: Expr| e@)
}

/// Whether an expression is a value: the absence of a value, an integer, a
/// text, a truth value, or a float that the host has converted.
pub open spec fn is_value(e: ExprView) -> bool {
    match e {
        ExprView::NoValue => true,
        ExprView::Int(_) => true,
        ExprView::String(_) => true,
        ExprView::Bool(_) => true,
        ExprView::Float(DecimalView::Bits(_)) => true,
        _ => false,
    }
}

/// Whether a condition holds: an integer or a float other than zero, the
/// truth value `true`, a text that is not empty. Nothing else does.
pub open spec fn truthy(e: ExprView) -> bool {
    match e {
        ExprView::Int(i) => i != 0,
        ExprView::Bool(b) => b,
        ExprView::Float(DecimalView::Bits(bits)) => !bits_are_zero(bits),
        ExprView::String(s) => s.len() > 0,
        _ => false,
    }
}

/// The operator of arithmetic that a sign stands for.
pub open spec fn arithmetic_operator(sign: Sign) -> Option<Operator> {
    match sign {
        Sign::Plus => Some(Operator::Add),
        Sign::Minus => Some(Operator::Subtract),
        Sign::Multiply => Some(Operator::Multiply),
        Sign::Divide => Some(Operator::Divide),
        _ => None,
    }
}

/// The number that a value is, if it is one.
pub open spec fn numeric(e: ExprView) -> Option<Number> {
    match e {
        ExprView::Int(i) => Some(Number::Int(i)),
        ExprView::Float(DecimalView::Bits(bits)) => Some(Number::Float(bits)),
        _ => None,
    }
}

/// The state with another number of answers used.
pub open spec fn at(st: State, cursor: nat) -> State {
    State { chain: st.chain, cursor }
}

/// What asking the host gives: a result or the reason why there is none,
/// and the number of answers used after it.
pub type Asked<T> = (Result<T, HaltView>, nat);

/// Has the host run a command; its output is the result.
pub open spec fn ran(h: Host, cursor: nat, name: Seq<char>, args: Seq<Seq<char>>) -> Asked<
    Seq<char>,
> {
    let (answer, next) = asked(h, cursor, RequestView::Run { name, args });
    (
        match answer {
            Ok(AnswerView::Text(s)) => Ok(s),
            Ok(AnswerView::Failure) => Err(HaltView::Error(ExecutorError::Command)),
            Ok(AnswerView::Number(_)) => Err(HaltView::Error(ExecutorError::Host)),
            Err(halt) => Err(halt),
        },
        next,
    )
}

/// What a request for a float gives: the bits that the host answered.
pub open spec fn float_from(h: Host, cursor: nat, request: RequestView) -> Asked<u64> {
    let (answer, next) = asked(h, cursor, request);
    (
        match answer {
            Ok(AnswerView::Number(bits)) => Ok(bits),
            Ok(_) => Err(HaltView::Error(ExecutorError::Host)),
            Err(halt) => Err(halt),
        },
        next,
    )
}

/// Has the host write a float; the text is the result.
pub open spec fn shown(h: Host, cursor: nat, bits: u64) -> Asked<Seq<char>> {
    let (answer, next) = asked(h, cursor, RequestView::Display { bits });
    (
        match answer {
            Ok(AnswerView::Text(s)) => Ok(s),
            Ok(_) => Err(HaltView::Error(ExecutorError::Host)),
            Err(halt) => Err(halt),
        },
        next,
    )
}

/// A float as a value, where there is one.
pub open spec fn as_float(step: Asked<u64>) -> Asked<ExprView> {
    (
        match step.0 {
            Ok(bits) => Ok(ExprView::Float(DecimalView::Bits(bits))),
            Err(halt) => Err(halt),
        },
        step.1,
    )
}

/// An integer result, where it fits in 64 bits.
pub open spec fn as_int(i: int) -> Result<ExprView, HaltView> {
    if i64::MIN <= i <= i64::MAX {
        Ok(ExprView::Int(i as i64))
    } else {
        Err(HaltView::Error(ExecutorError::Overflow))
    }
}

/// One operation of arithmetic. Two integers give their integer sum,
/// difference or product. Division, and any operation with a float in it,
/// gives a float, which the host computes.
pub open spec fn apply(h: Host, cursor: nat, op: Operator, left: Number, right: Number) -> Asked<
    ExprView,
> {
    match (left, right) {
        (Number::Int(a), Number::Int(b)) => match op {
            Operator::Add => (as_int(a + b), cursor),
            Operator::Subtract => (as_int(a - b), cursor),
            Operator::Multiply => (as_int(a * b), cursor),
            Operator::Divide => as_float(
                float_from(h, cursor, RequestView::Arithmetic { op, left, right }),
            ),
        },
        _ => as_float(float_from(h, cursor, RequestView::Arithmetic { op, left, right })),
    }
}

/// Applies the operator `sign` to the two values on top of the stack of
/// values: the upper one is the right operand.
pub open spec fn operate(h: Host, cursor: nat, sign: Sign, values: Seq<ExprView>) -> Asked<
    Seq<ExprView>,
> {
    if values.len() < 2 {
        (Err(HaltView::Error(ExecutorError::Malformed)), cursor)
    } else {
        let below = values.take(values.len() - 2);
        match (numeric(values[values.len() - 2]), numeric(values[values.len() - 1])) {
            (Some(l), Some(r)) => match arithmetic_operator(sign) {
                None => (Err(HaltView::Error(ExecutorError::Operator)), cursor),
                Some(op) => {
                    let (result, next) = apply(h, cursor, op, l, r);
                    (
                        match result {
                            Ok(v) => Ok(below.push(v)),
                            Err(halt) => Err(halt),
                        },
                        next,
                    )
                },
            },
            _ => (Err(HaltView::Error(ExecutorError::NotNumeric)), cursor),
        }
    }
}

/// A text as a value, where there is one.
pub open spec fn as_text(step: Asked<Seq<char>>) -> Asked<ExprView> {
    (
        match step.0 {
            Ok(s) => Ok(ExprView::String(s)),
            Err(halt) => Err(halt),
        },
        step.1,
    )
}

/// The result of asking the host, in the state that it leaves.
pub open spec fn then<T>(st: State, step: Asked<T>) -> Step<T> {
    (step.0, at(st, step.1))
}

/// Evaluates arithmetic in postfix order from token `i` on, with the
/// values computed so far. A word is read from the scopes; a literal is
/// its value; an operator works on the two values on top; any other token
/// is passed over. At the end exactly one value must be left.
pub open spec fn math(h: Host, st: State, stack: Seq<TokenView>, i: int, values: Seq<ExprView>) -> Step<
    ExprView,
>
    decreases stack.len() - i,
{
    if i < 0 || i >= stack.len() {
        (
            if values.len() == 1 {
                Ok(values[0])
            } else {
                Err(HaltView::Error(ExecutorError::Malformed))
            },
            st,
        )
    } else {
        match stack[i].kind {
            TokenKindView::Word(w) => match lookup(st.chain, w) {
                Some(v) => math(h, st, stack, i + 1, values.push(v)),
                None => (Err(HaltView::Error(ExecutorError::NotFound)), st),
            },
            TokenKindView::String(s) => math(h, st, stack, i + 1, values.push(ExprView::String(s))),
            TokenKindView::Int(n) => math(h, st, stack, i + 1, values.push(ExprView::Int(n))),
            TokenKindView::Bool(b) => math(h, st, stack, i + 1, values.push(ExprView::Bool(b))),
            TokenKindView::Float(text) => {
                let (bits, cursor) = float_from(h, st.cursor, RequestView::Literal { text });
                match bits {
                    Ok(b) => math(
                        h,
                        at(st, cursor),
                        stack,
                        i + 1,
                        values.push(ExprView::Float(DecimalView::Bits(b))),
                    ),
                    Err(halt) => (Err(halt), at(st, cursor)),
                }
            },
            TokenKindView::Operator(sign) => {
                let (result, cursor) = operate(h, st.cursor, sign, values);
                match result {
                    Ok(next) => math(h, at(st, cursor), stack, i + 1, next),
                    Err(halt) => (Err(halt), at(st, cursor)),
                }
            },
            _ => math(h, st, stack, i + 1, values),
        }
    }
}

/// What a word is worth: the value of the variable of that name; where
/// no scope has one, the output of the command of that name, run without
/// arguments, as a text.
pub open spec fn word_value(h: Host, st: State, name: Seq<char>) -> Step<ExprView> {
    match lookup(st.chain, name) {
        Some(v) => (Ok(v), st),
        None => then(st, as_text(ran(h, st.cursor, name, Seq::empty()))),
    }
}

/// Binds `name` to `value` in the current scope.
pub open spec fn declare(st: State, name: Seq<char>, value: ExprView) -> Step<ExprView> {
    match declared(st.chain, name, value) {
        Some(chain) => (Ok(ExprView::NoValue), State { chain, cursor: st.cursor }),
        None => (Err(HaltView::Error(ExecutorError::Duplicate)), st),
    }
}

/// Gives the variable `name` the value `value`.
pub open spec fn assign(st: State, name: Seq<char>, value: ExprView) -> Step<ExprView> {
    match overwritten(st.chain, name, value) {
        Some(chain) => (Ok(ExprView::NoValue), State { chain, cursor: st.cursor }),
        None => (Err(HaltView::Error(ExecutorError::NotFound)), st),
    }
}

/// Evaluates an expression one level: a value is itself, a literal float is
/// converted, a word is looked up, arithmetic is computed, a declaration or
/// an assignment binds the value of its right-hand side and has no value,
/// a conditional runs the first branch whose condition holds, a loop runs
/// while its condition holds.
pub open spec fn eval(h: Host, st: State, e: ExprView) -> Step<ExprView>
    decreases e, h.limit + 1,
{
    match e {
        ExprView::NoValue => (Err(HaltView::Error(ExecutorError::NotAValue)), st),
        ExprView::Int(_) => (Ok(e), st),
        ExprView::String(_) => (Ok(e), st),
        ExprView::Bool(_) => (Ok(e), st),
        ExprView::Float(DecimalView::Bits(_)) => (Ok(e), st),
        ExprView::Float(DecimalView::Written(text)) => then(
            st,
            as_float(float_from(h, st.cursor, RequestView::Literal { text })),
        ),
        ExprView::Word(name) => word_value(h, st, name),
        ExprView::Operation { stack } => math(h, st, stack, 0, Seq::empty()),
        ExprView::VariableDeclaration { name, value } => {
            let (v, after) = reduce(h, st, *value);
            match v {
                Ok(v) => declare(after, name, v),
                Err(halt) => (Err(halt), after),
            }
        },
        ExprView::VariableAssigment { name, value } => {
            let (v, after) = reduce(h, st, *value);
            match v {
                Ok(v) => assign(after, name, v),
                Err(halt) => (Err(halt), after),
            }
        },
        ExprView::If { conditions } => {
            let (v, after) = branches(h, st, conditions, 0);
            (
                match v {
                    Ok(Some(v)) => Ok(v),
                    Ok(None) => Ok(ExprView::NoValue),
                    Err(halt) => Err(halt),
                },
                after,
            )
        },
        ExprView::While { condition, body } => repeat(h, st, e, h.limit),
    }
}

/// Evaluates an expression to a value: a value is itself, anything else is
/// evaluated one level.
pub open spec fn reduce(h: Host, st: State, e: ExprView) -> Step<ExprView>
    decreases e, h.limit + 2,
{
    if is_value(e) {
        (Ok(e), st)
    } else {
        eval(h, st, e)
    }
}

/// Executes a statement for its value: that of an expression, or the
/// output of a command as a text.
pub open spec fn statement(h: Host, st: State, node: AstNodeView) -> Step<ExprView>
    decreases node, h.limit + 3,
{
    match node {
        AstNodeView::Expr(e) => reduce(h, st, e),
        AstNodeView::Cmd(c) => then(st, as_text(ran(h, st.cursor, c.name, c.args))),
    }
}

/// Executes the statements of a body from the `k`-th on, in order, and
/// gives the value of the last one; `last` where none is left.
pub open spec fn block(
    h: Host,
    st: State,
    body: Seq<AstNodeView>,
    k: int,
    last: Option<ExprView>,
) -> Step<Option<ExprView>>
    decreases body, body.len() - k,
{
    if k < 0 || k >= body.len() {
        (Ok(last), st)
    } else {
        let (v, after) = statement(h, st, body[k]);
        match v {
            Ok(v) => block(h, after, body, k + 1, Some(v)),
            Err(halt) => (Err(halt), after),
        }
    }
}

/// Executes a body in a scope of its own that shadows the current one,
/// and drops that scope afterwards.
pub open spec fn scoped(h: Host, st: State, body: Seq<AstNodeView>) -> Step<Option<ExprView>>
    decreases body, body.len() + 1,
{
    let (v, after) = block(h, State { chain: entered(st.chain), cursor: st.cursor }, body, 0, None);
    (v, State { chain: left(after.chain), cursor: after.cursor })
}

/// Goes through the branches from the `i`-th on and runs the first one
/// whose condition holds. The result is the value of that branch's last
/// statement where the branch returns it, and nothing otherwise.
pub open spec fn branches(h: Host, st: State, conditions: Seq<IfConditionView>, i: int) -> Step<
    Option<ExprView>,
>
    decreases conditions, conditions.len() - i,
{
    if i < 0 || i >= conditions.len() {
        (Ok(None), st)
    } else {
        let (c, after) = reduce(h, st, conditions[i].condition);
        match c {
            Err(halt) => (Err(halt), after),
            Ok(c) => {
                if truthy(c) {
                    let (v, end) = scoped(h, after, conditions[i].body);
                    (
                        match v {
                            Ok(last) => Ok(
                                if conditions[i].implicit_return {
                                    last
                                } else {
                                    None
                                },
                            ),
                            Err(halt) => Err(halt),
                        },
                        end,
                    )
                } else {
                    branches(h, after, conditions, i + 1)
                }
            },
        }
    }
}

/// Runs the loop `e` with `remaining` iterations allowed: while the
/// condition holds, the body is executed in a fresh scope. The loop has
/// no value.
pub open spec fn repeat(h: Host, st: State, e: ExprView, remaining: nat) -> Step<ExprView>
    decreases e, remaining,
{
    match e {
        ExprView::While { condition, body } => {
            let (c, after) = reduce(h, st, *condition);
            match c {
                Err(halt) => (Err(halt), after),
                Ok(c) => {
                    if !truthy(c) {
                        (Ok(ExprView::NoValue), after)
                    } else if remaining == 0 {
                        (Err(HaltView::Error(ExecutorError::LoopLimit)), after)
                    } else {
                        let (v, end) = scoped(h, after, body);
                        match v {
                            Err(halt) => (Err(halt), end),
                            Ok(_) => repeat(h, end, e, (remaining - 1) as nat),
                        }
                    }
                },
            }
        },
        _ => (Err(HaltView::Error(ExecutorError::NotAValue)), st),
    }
}

/// How a value is written: nothing for the absence of a value, base ten
/// for an integer, the text itself, `true` or `false`, and for a float
/// what the host writes.
pub open spec fn display(h: Host, st: State, v: ExprView) -> Step<Seq<char>> {
    match v {
        ExprView::NoValue => (Ok(Seq::empty()), st),
        ExprView::Int(i) => (Ok(decimal_text(i as int)), st),
        ExprView::String(s) => (Ok(s), st),
        ExprView::Bool(b) => (Ok(bool_text(b)), st),
        ExprView::Float(DecimalView::Bits(bits)) => then(st, shown(h, st.cursor, bits)),
        _ => (Err(HaltView::Error(ExecutorError::NotAValue)), st),
    }
}

/// Executes a statement for what it shows: the written value of an
/// expression, or the output of a command.
pub open spec fn execute(h: Host, st: State, node: AstNodeView) -> Step<Seq<char>> {
    match node {
        AstNodeView::Expr(e) => {
            let (v, after) = reduce(h, st, e);
            match v {
                Ok(v) => display(h, after, v),
                Err(halt) => (Err(halt), after),
            }
        },
        AstNodeView::Cmd(c) => then(st, ran(h, st.cursor, c.name, c.args)),
    }
}

/// Executes the statements of a program from the `k`-th on; the result is
/// what the last one shows, and `last` where none is left.
pub open spec fn program(h: Host, st: State, nodes: Seq<AstNodeView>, k: int, last: Seq<char>) -> Step<
    Seq<char>,
>
    decreases nodes.len() - k,
{
    if k < 0 || k >= nodes.len() {
        (Ok(last), st)
    } else {
        let (shown, after) = execute(h, st, nodes[k]);
        match shown {
            Ok(text) => program(h, after, nodes, k + 1, text),
            Err(halt) => (Err(halt), after),
        }
    }
}

/// What a program shows when it is executed in a fresh scope with the
/// answers of `h`, read from the first one on: the output of its last
/// statement, or why it stopped; and the state at the end.
pub open spec fn outcome(h: Host, nodes: Seq<AstNodeView>) -> Step<Seq<char>> {
    program(h, State { chain: seq![Seq::empty()], cursor: 0 }, nodes, 0, Seq::empty())
}

} // verus!
