use vstd::prelude::*;
use crate::executor::host::{asked, HaltView, Host, Number, RequestView};
use crate::executor::primitives::DecimalView;
use crate::executor::scope::lookup;
use crate::executor::semantics::{
    apply,
    at,
    block,
    branches,
    eval,
    execute,
    float_from,
    math,
    operate,
    outcome,
    program,
    reduce,
    repeat,
    scoped,
    statement,
    truthy,
    State,
};
use crate::executor::scope::entered;
use crate::lexer::token::{Operator as Sign, TokenKindView, TokenView};
use crate::parser::ast::{AstNodeView, ExprView, IfConditionView, Operator};

verus! {

/// Whether `later` holds the answers of `earlier` and then some more,
/// with the same limit.
pub open spec fn extends(earlier: Host, later: Host) -> bool {
    &&& earlier.limit == later.limit
    &&& earlier.answers.len() <= later.answers.len()
    &&& forall|i: int| 0 <= i < earlier.answers.len() ==> earlier.answers[i] == later.answers[i]
}

/// Whether a result waits for no answer.
pub open spec fn settled<T>(r: Result<T, HaltView>) -> bool {
    !(r matches Err(HaltView::Pending(_)))
}

/// An answer that was there stays the same when more answers come.
pub proof fn lemma_asked_again(earlier: Host, later: Host, cursor: nat, request: RequestView)
    requires
        extends(earlier, later),
        settled(asked(earlier, cursor, request).0),
    ensures
        asked(later, cursor, request) == asked(earlier, cursor, request),
{
}

/// One operation of arithmetic that did not wait gives the same again.
pub proof fn lemma_apply_again(
    earlier: Host,
    later: Host,
    cursor: nat,
    op: Operator,
    left: Number,
    right: Number,
)
    requires
        extends(earlier, later),
        settled(apply(earlier, cursor, op, left, right).0),
    ensures
        apply(later, cursor, op, left, right) == apply(earlier, cursor, op, left, right),
{
}

/// An operator on the stack of values that did not wait gives the same again.
pub proof fn lemma_operate_again(
    earlier: Host,
    later: Host,
    cursor: nat,
    sign: Sign,
    values: Seq<ExprView>,
)
    requires
        extends(earlier, later),
        settled(operate(earlier, cursor, sign, values).0),
    ensures
        operate(later, cursor, sign, values) == operate(earlier, cursor, sign, values),
{
}

/// Arithmetic that did not wait gives the same again.
pub proof fn lemma_math_again(
    earlier: Host,
    later: Host,
    st: State,
    stack: Seq<TokenView>,
    i: int,
    values: Seq<ExprView>,
)
    requires
        extends(earlier, later),
        settled(math(earlier, st, stack, i, values).0),
    ensures
        math(later, st, stack, i, values) == math(earlier, st, stack, i, values),
    decreases stack.len() - i,
{
    if i < 0 || i >= stack.len() {
    } else {
        match stack[i].kind {
            TokenKindView::Word(w) => match lookup(st.chain, w) {
                Some(v) => lemma_math_again(earlier, later, st, stack, i + 1, values.push(v)),
                None => {},
            },
            TokenKindView::String(s) => lemma_math_again(
                earlier,
                later,
                st,
                stack,
                i + 1,
                values.push(ExprView::String(s)),
            ),
            TokenKindView::Int(n) => lemma_math_again(
                earlier,
                later,
                st,
                stack,
                i + 1,
                values.push(ExprView::Int(n)),
            ),
            TokenKindView::Bool(b) => lemma_math_again(
                earlier,
                later,
                st,
                stack,
                i + 1,
                values.push(ExprView::Bool(b)),
            ),
            TokenKindView::Float(text) => {
                let (bits, cursor) = float_from(earlier, st.cursor, RequestView::Literal { text });
                match bits {
                    Ok(b) => lemma_math_again(
                        earlier,
                        later,
                        at(st, cursor),
                        stack,
                        i + 1,
                        values.push(ExprView::Float(DecimalView::Bits(b))),
                    ),
                    Err(_) => {},
                }
            },
            TokenKindView::Operator(sign) => {
                let (result, cursor) = operate(earlier, st.cursor, sign, values);
                lemma_operate_again(earlier, later, st.cursor, sign, values);
                match result {
                    Ok(next) => lemma_math_again(earlier, later, at(st, cursor), stack, i + 1, next),
                    Err(_) => {},
                }
            },
            _ => lemma_math_again(earlier, later, st, stack, i + 1, values),
        }
    }
}

/// An evaluation that did not wait for an answer gives the same result
/// and the same state when it is run again with more answers.
pub proof fn lemma_eval_again(earlier: Host, later: Host, st: State, e: ExprView)
    requires
        extends(earlier, later),
        settled(eval(earlier, st, e).0),
    ensures
        eval(later, st, e) == eval(earlier, st, e),
    decreases e, earlier.limit + 1,
{
    match e {
        ExprView::Operation { stack } => {
            lemma_math_again(earlier, later, st, stack, 0, Seq::empty());
        },
        ExprView::VariableDeclaration { name, value } => {
            lemma_reduce_again(earlier, later, st, *value);
        },
        ExprView::VariableAssigment { name, value } => {
            lemma_reduce_again(earlier, later, st, *value);
        },
        ExprView::If { conditions } => {
            lemma_branches_again(earlier, later, st, conditions, 0);
        },
        ExprView::While { condition, body } => {
            lemma_repeat_again(earlier, later, st, e, earlier.limit);
        },
        _ => {},
    }
}

/// Evaluating to a value without waiting gives the same again.
pub proof fn lemma_reduce_again(earlier: Host, later: Host, st: State, e: ExprView)
    requires
        extends(earlier, later),
        settled(reduce(earlier, st, e).0),
    ensures
        reduce(later, st, e) == reduce(earlier, st, e),
    decreases e, earlier.limit + 2,
{
    if !crate::executor::semantics::is_value(e) {
        lemma_eval_again(earlier, later, st, e);
    }
}

/// A statement that did not wait gives the same again.
pub proof fn lemma_statement_again(earlier: Host, later: Host, st: State, node: AstNodeView)
    requires
        extends(earlier, later),
        settled(statement(earlier, st, node).0),
    ensures
        statement(later, st, node) == statement(earlier, st, node),
    decreases node, earlier.limit + 3,
{
    match node {
        AstNodeView::Expr(e) => lemma_reduce_again(earlier, later, st, e),
        AstNodeView::Cmd(_) => {},
    }
}

/// The statements of a body that did not wait give the same again.
pub proof fn lemma_block_again(
    earlier: Host,
    later: Host,
    st: State,
    body: Seq<AstNodeView>,
    k: int,
    last: Option<ExprView>,
)
    requires
        extends(earlier, later),
        settled(block(earlier, st, body, k, last).0),
    ensures
        block(later, st, body, k, last) == block(earlier, st, body, k, last),
    decreases body, body.len() - k,
{
    if k < 0 || k >= body.len() {
    } else {
        lemma_statement_again(earlier, later, st, body[k]);
        let (v, after) = statement(earlier, st, body[k]);
        match v {
            Ok(v) => lemma_block_again(earlier, later, after, body, k + 1, Some(v)),
            Err(_) => {},
        }
    }
}

/// A body in its own scope that did not wait gives the same again.
pub proof fn lemma_scoped_again(earlier: Host, later: Host, st: State, body: Seq<AstNodeView>)
    requires
        extends(earlier, later),
        settled(scoped(earlier, st, body).0),
    ensures
        scoped(later, st, body) == scoped(earlier, st, body),
    decreases body, body.len() + 1,
{
    lemma_block_again(
        earlier,
        later,
        State { chain: entered(st.chain), cursor: st.cursor },
        body,
        0,
        None,
    );
}

/// The branches of a conditional that did not wait give the same again.
pub proof fn lemma_branches_again(
    earlier: Host,
    later: Host,
    st: State,
    conditions: Seq<IfConditionView>,
    i: int,
)
    requires
        extends(earlier, later),
        settled(branches(earlier, st, conditions, i).0),
    ensures
        branches(later, st, conditions, i) == branches(earlier, st, conditions, i),
    decreases conditions, conditions.len() - i,
{
    if i < 0 || i >= conditions.len() {
    } else {
        lemma_reduce_again(earlier, later, st, conditions[i].condition);
        let (c, after) = reduce(earlier, st, conditions[i].condition);
        match c {
            Err(_) => {},
            Ok(c) => {
                if truthy(c) {
                    lemma_scoped_again(earlier, later, after, conditions[i].body);
                } else {
                    lemma_branches_again(earlier, later, after, conditions, i + 1);
                }
            },
        }
    }
}

/// A loop that did not wait gives the same again.
pub proof fn lemma_repeat_again(earlier: Host, later: Host, st: State, e: ExprView, remaining: nat)
    requires
        extends(earlier, later),
        settled(repeat(earlier, st, e, remaining).0),
    ensures
        repeat(later, st, e, remaining) == repeat(earlier, st, e, remaining),
    decreases e, remaining,
{
    match e {
        ExprView::While { condition, body } => {
            lemma_reduce_again(earlier, later, st, *condition);
            let (c, after) = reduce(earlier, st, *condition);
            match c {
                Err(_) => {},
                Ok(c) => {
                    if truthy(c) && remaining > 0 {
                        lemma_scoped_again(earlier, later, after, body);
                        let (v, end) = scoped(earlier, after, body);
                        match v {
                            Err(_) => {},
                            Ok(_) => lemma_repeat_again(
                                earlier,
                                later,
                                end,
                                e,
                                (remaining - 1) as nat,
                            ),
                        }
                    }
                },
            }
        },
        _ => {},
    }
}

/// A statement of a program that did not wait shows the same again.
pub proof fn lemma_execute_again(earlier: Host, later: Host, st: State, node: AstNodeView)
    requires
        extends(earlier, later),
        settled(execute(earlier, st, node).0),
    ensures
        execute(later, st, node) == execute(earlier, st, node),
{
    match node {
        AstNodeView::Expr(e) => lemma_reduce_again(earlier, later, st, e),
        AstNodeView::Cmd(_) => {},
    }
}

/// The statements of a program that did not wait show the same again.
pub proof fn lemma_program_again(
    earlier: Host,
    later: Host,
    st: State,
    nodes: Seq<AstNodeView>,
    k: int,
    last: Seq<char>,
)
    requires
        extends(earlier, later),
        settled(program(earlier, st, nodes, k, last).0),
    ensures
        program(later, st, nodes, k, last) == program(earlier, st, nodes, k, last),
    decreases nodes.len() - k,
{
    if k < 0 || k >= nodes.len() {
    } else {
        lemma_execute_again(earlier, later, st, nodes[k]);
        let (text, after) = execute(earlier, st, nodes[k]);
        match text {
            Ok(text) => lemma_program_again(earlier, later, after, nodes, k + 1, text),
            Err(_) => {},
        }
    }
}

/// Once a program has finished or failed with the answers that are there,
/// further answers change nothing: executing it again gives the same.
pub proof fn lemma_outcome_is_final(earlier: Host, later: Host, nodes: Seq<AstNodeView>)
    requires
        extends(earlier, later),
        settled(outcome(earlier, nodes).0),
    ensures
        outcome(later, nodes) == outcome(earlier, nodes),
{
    lemma_program_again(
        earlier,
        later,
        State { chain: seq![Seq::empty()], cursor: 0 },
        nodes,
        0,
        Seq::empty(),
    );
}

/// Asking uses at most one answer, and only a request that finds none waits.
pub proof fn lemma_asked_uses_answers(h: Host, cursor: nat, request: RequestView)
    requires
        cursor <= h.answers.len(),
    ensures
        cursor <= asked(h, cursor, request).1 <= h.answers.len(),
        !settled(asked(h, cursor, request).0) ==> asked(h, cursor, request).1 == h.answers.len(),
{
}

/// One operation of arithmetic waits only when every answer is used.
pub proof fn lemma_apply_uses_answers(
    h: Host,
    cursor: nat,
    op: Operator,
    left: Number,
    right: Number,
)
    requires
        cursor <= h.answers.len(),
    ensures
        cursor <= apply(h, cursor, op, left, right).1 <= h.answers.len(),
        !settled(apply(h, cursor, op, left, right).0) ==> apply(h, cursor, op, left, right).1 == h.answers.len(),
{
}

/// An operator on the stack of values waits only when every answer is used.
pub proof fn lemma_operate_uses_answers(
    h: Host,
    cursor: nat,
    sign: Sign,
    values: Seq<ExprView>,
)
    requires
        cursor <= h.answers.len(),
    ensures
        cursor <= operate(h, cursor, sign, values).1 <= h.answers.len(),
        !settled(operate(h, cursor, sign, values).0) ==> operate(h, cursor, sign, values).1 == h.answers.len(),
{
}

/// Arithmetic waits only when every answer is used.
pub proof fn lemma_math_uses_answers(
    h: Host,
    st: State,
    stack: Seq<TokenView>,
    i: int,
    values: Seq<ExprView>,
)
    requires
        st.cursor <= h.answers.len(),
    ensures
        st.cursor <= math(h, st, stack, i, values).1.cursor <= h.answers.len(),
        !settled(math(h, st, stack, i, values).0) ==> math(h, st, stack, i, values).1.cursor == h.answers.len(),
    decreases stack.len() - i,
{
    if i < 0 || i >= stack.len() {
    } else {
        match stack[i].kind {
            TokenKindView::Word(w) => match lookup(st.chain, w) {
                Some(v) => lemma_math_uses_answers(h, st, stack, i + 1, values.push(v)),
                None => {},
            },
            TokenKindView::String(s) => lemma_math_uses_answers(
                h,
                st,
                stack,
                i + 1,
                values.push(ExprView::String(s)),
            ),
            TokenKindView::Int(n) => lemma_math_uses_answers(
                h,
                st,
                stack,
                i + 1,
                values.push(ExprView::Int(n)),
            ),
            TokenKindView::Bool(b) => lemma_math_uses_answers(
                h,
                st,
                stack,
                i + 1,
                values.push(ExprView::Bool(b)),
            ),
            TokenKindView::Float(text) => {
                let (bits, cursor) = float_from(h, st.cursor, RequestView::Literal { text });
                match bits {
                    Ok(b) => lemma_math_uses_answers(
                        h,
                        at(st, cursor),
                        stack,
                        i + 1,
                        values.push(ExprView::Float(DecimalView::Bits(b))),
                    ),
                    Err(_) => {},
                }
            },
            TokenKindView::Operator(sign) => {
                let (result, cursor) = operate(h, st.cursor, sign, values);
                lemma_operate_uses_answers(h, st.cursor, sign, values);
                match result {
                    Ok(next) => lemma_math_uses_answers(h, at(st, cursor), stack, i + 1, next),
                    Err(_) => {},
                }
            },
            _ => lemma_math_uses_answers(h, st, stack, i + 1, values),
        }
    }
}

/// An evaluation never reads beyond the answers that are there, and it
/// waits for an answer only when it has used them all.
pub proof fn lemma_eval_uses_answers(h: Host, st: State, e: ExprView)
    requires
        st.cursor <= h.answers.len(),
    ensures
        st.cursor <= eval(h, st, e).1.cursor <= h.answers.len(),
        !settled(eval(h, st, e).0) ==> eval(h, st, e).1.cursor == h.answers.len(),
    decreases e, h.limit + 1,
{
    match e {
        ExprView::Operation { stack } => {
            lemma_math_uses_answers(h, st, stack, 0, Seq::empty());
        },
        ExprView::VariableDeclaration { name, value } => {
            lemma_reduce_uses_answers(h, st, *value);
        },
        ExprView::VariableAssigment { name, value } => {
            lemma_reduce_uses_answers(h, st, *value);
        },
        ExprView::If { conditions } => {
            lemma_branches_uses_answers(h, st, conditions, 0);
        },
        ExprView::While { condition, body } => {
            lemma_repeat_uses_answers(h, st, e, h.limit);
        },
        _ => {},
    }
}

/// Evaluating to a value waits only when every answer is used.
pub proof fn lemma_reduce_uses_answers(h: Host, st: State, e: ExprView)
    requires
        st.cursor <= h.answers.len(),
    ensures
        st.cursor <= reduce(h, st, e).1.cursor <= h.answers.len(),
        !settled(reduce(h, st, e).0) ==> reduce(h, st, e).1.cursor == h.answers.len(),
    decreases e, h.limit + 2,
{
    if !crate::executor::semantics::is_value(e) {
        lemma_eval_uses_answers(h, st, e);
    }
}

/// A statement waits only when every answer is used.
pub proof fn lemma_statement_uses_answers(h: Host, st: State, node: AstNodeView)
    requires
        st.cursor <= h.answers.len(),
    ensures
        st.cursor <= statement(h, st, node).1.cursor <= h.answers.len(),
        !settled(statement(h, st, node).0) ==> statement(h, st, node).1.cursor == h.answers.len(),
    decreases node, h.limit + 3,
{
    match node {
        AstNodeView::Expr(e) => lemma_reduce_uses_answers(h, st, e),
        AstNodeView::Cmd(_) => {},
    }
}

/// The statements of a body wait only when every answer is used.
pub proof fn lemma_block_uses_answers(
    h: Host,
    st: State,
    body: Seq<AstNodeView>,
    k: int,
    last: Option<ExprView>,
)
    requires
        st.cursor <= h.answers.len(),
    ensures
        st.cursor <= block(h, st, body, k, last).1.cursor <= h.answers.len(),
        !settled(block(h, st, body, k, last).0) ==> block(h, st, body, k, last).1.cursor == h.answers.len(),
    decreases body, body.len() - k,
{
    if k < 0 || k >= body.len() {
    } else {
        lemma_statement_uses_answers(h, st, body[k]);
        let (v, after) = statement(h, st, body[k]);
        match v {
            Ok(v) => lemma_block_uses_answers(h, after, body, k + 1, Some(v)),
            Err(_) => {},
        }
    }
}

/// A body in its own scope waits only when every answer is used.
pub proof fn lemma_scoped_uses_answers(h: Host, st: State, body: Seq<AstNodeView>)
    requires
        st.cursor <= h.answers.len(),
    ensures
        st.cursor <= scoped(h, st, body).1.cursor <= h.answers.len(),
        !settled(scoped(h, st, body).0) ==> scoped(h, st, body).1.cursor == h.answers.len(),
    decreases body, body.len() + 1,
{
    lemma_block_uses_answers(
        h,
        State { chain: entered(st.chain), cursor: st.cursor },
        body,
        0,
        None,
    );
}

/// The branches of a conditional wait only when every answer is used.
pub proof fn lemma_branches_uses_answers(
    h: Host,
    st: State,
    conditions: Seq<IfConditionView>,
    i: int,
)
    requires
        st.cursor <= h.answers.len(),
    ensures
        st.cursor <= branches(h, st, conditions, i).1.cursor <= h.answers.len(),
        !settled(branches(h, st, conditions, i).0) ==> branches(h, st, conditions, i).1.cursor == h.answers.len(),
    decreases conditions, conditions.len() - i,
{
    if i < 0 || i >= conditions.len() {
    } else {
        lemma_reduce_uses_answers(h, st, conditions[i].condition);
        let (c, after) = reduce(h, st, conditions[i].condition);
        match c {
            Err(_) => {},
            Ok(c) => {
                if truthy(c) {
                    lemma_scoped_uses_answers(h, after, conditions[i].body);
                } else {
                    lemma_branches_uses_answers(h, after, conditions, i + 1);
                }
            },
        }
    }
}

/// A loop waits only when every answer is used.
pub proof fn lemma_repeat_uses_answers(h: Host, st: State, e: ExprView, remaining: nat)
    requires
        st.cursor <= h.answers.len(),
    ensures
        st.cursor <= repeat(h, st, e, remaining).1.cursor <= h.answers.len(),
        !settled(repeat(h, st, e, remaining).0) ==> repeat(h, st, e, remaining).1.cursor == h.answers.len(),
    decreases e, remaining,
{
    match e {
        ExprView::While { condition, body } => {
            lemma_reduce_uses_answers(h, st, *condition);
            let (c, after) = reduce(h, st, *condition);
            match c {
                Err(_) => {},
                Ok(c) => {
                    if truthy(c) && remaining > 0 {
                        lemma_scoped_uses_answers(h, after, body);
                        let (v, end) = scoped(h, after, body);
                        match v {
                            Err(_) => {},
                            Ok(_) => lemma_repeat_uses_answers(
                                h,
                                end,
                                e,
                                (remaining - 1) as nat,
                            ),
                        }
                    }
                },
            }
        },
        _ => {},
    }
}

/// A statement of a program waits only when every answer is used.
pub proof fn lemma_execute_uses_answers(h: Host, st: State, node: AstNodeView)
    requires
        st.cursor <= h.answers.len(),
    ensures
        st.cursor <= execute(h, st, node).1.cursor <= h.answers.len(),
        !settled(execute(h, st, node).0) ==> execute(h, st, node).1.cursor == h.answers.len(),
{
    match node {
        AstNodeView::Expr(e) => lemma_reduce_uses_answers(h, st, e),
        AstNodeView::Cmd(_) => {},
    }
}

/// The statements of a program wait only when every answer is used.
pub proof fn lemma_program_uses_answers(
    h: Host,
    st: State,
    nodes: Seq<AstNodeView>,
    k: int,
    last: Seq<char>,
)
    requires
        st.cursor <= h.answers.len(),
    ensures
        st.cursor <= program(h, st, nodes, k, last).1.cursor <= h.answers.len(),
        !settled(program(h, st, nodes, k, last).0) ==> program(h, st, nodes, k, last).1.cursor == h.answers.len(),
    decreases nodes.len() - k,
{
    if k < 0 || k >= nodes.len() {
    } else {
        lemma_execute_uses_answers(h, st, nodes[k]);
        let (text, after) = execute(h, st, nodes[k]);
        match text {
            Ok(text) => lemma_program_uses_answers(h, after, nodes, k + 1, text),
            Err(_) => {},
        }
    }
}

/// A program that stops with a request has used every answer that was
/// there: the request is for the next one.
pub proof fn lemma_pending_outcome_used_every_answer(h: Host, nodes: Seq<AstNodeView>)
    ensures
        outcome(h, nodes).1.cursor <= h.answers.len(),
        !settled(outcome(h, nodes).0) ==> outcome(h, nodes).1.cursor == h.answers.len(),
{
    lemma_program_uses_answers(
        h,
        State { chain: seq![Seq::empty()], cursor: 0 },
        nodes,
        0,
        Seq::empty(),
    );
}

} // verus!
