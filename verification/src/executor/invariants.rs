use vstd::prelude::*;
use crate::executor::host::Host;
use crate::executor::scope::{
    binds,
    declared,
    entered,
    left,
    lemma_position_bounds,
    lookup,
    overwritten,
    position,
    Frame,
    VariableView,
};
use crate::executor::semantics::{
    at,
    block,
    branches,
    eval,
    float_from,
    is_value,
    math,
    operate,
    reduce,
    repeat,
    scoped,
    statement,
    State,
};
use crate::executor::host::RequestView;
use crate::executor::primitives::DecimalView;
use crate::lexer::token::{TokenKindView, TokenView};
use crate::parser::ast::{AstNodeView, ExprView, IfConditionView};

verus! {

/// Whether every variable of every scope holds a value.
pub open spec fn holds_values(chain: Seq<Frame>) -> bool {
    forall|i: int, j: int|
        0 <= i < chain.len() && 0 <= j < chain[i].len() ==> is_value(
            (#[trigger] chain[i][j]).value,
        )
}

/// Whether each expression of a list is a value.
pub open spec fn all_values(values: Seq<ExprView>) -> bool {
    forall|i: int| 0 <= i < values.len() ==> is_value(#[trigger] values[i])
}

/// Whether a step left scopes that hold values, as many as it found.
pub open spec fn keeps_scopes(before: State, after: State) -> bool {
    holds_values(after.chain) && after.chain.len() == before.chain.len()
}

/// What is read from scopes that hold values is a value.
pub proof fn lemma_lookup_gives_a_value(chain: Seq<Frame>, name: Seq<char>)
    requires
        holds_values(chain),
    ensures
        lookup(chain, name) matches Some(v) ==> is_value(v),
    decreases chain.len(),
{
    if chain.len() == 0 {
    } else if binds(chain[0], name) {
        lemma_position_bounds(chain[0], name);
        assert(is_value(chain[0][position(chain[0], name)].value));
    } else {
        let rest = chain.drop_first();
        assert forall|i: int, j: int| 0 <= i < rest.len() && 0 <= j < rest[i].len() implies is_value(
            (#[trigger] rest[i][j]).value,
        ) by {
            assert(rest[i] == chain[i + 1]);
            assert(is_value(chain[i + 1][j].value));
        }
        lemma_lookup_gives_a_value(rest, name);
    }
}

/// Declaring a value keeps the scopes holding values.
pub proof fn lemma_declaration_keeps_values(chain: Seq<Frame>, name: Seq<char>, value: ExprView)
    requires
        holds_values(chain),
        is_value(value),
    ensures
        declared(chain, name, value) matches Some(after) ==> holds_values(after) && after.len()
            == chain.len(),
{
    match declared(chain, name, value) {
        Some(after) => {
            assert forall|i: int, j: int|
                0 <= i < after.len() && 0 <= j < after[i].len() implies is_value(
                (#[trigger] after[i][j]).value,
            ) by {
                if i == 0 {
                    if j < chain[0].len() {
                        assert(after[0][j] == chain[0][j]);
                    }
                } else {
                    assert(after[i] == chain[i]);
                    assert(is_value(chain[i][j].value));
                }
            }
        },
        None => {},
    }
}

/// Assigning a value keeps the scopes holding values.
pub proof fn lemma_assignment_keeps_values(chain: Seq<Frame>, name: Seq<char>, value: ExprView)
    requires
        holds_values(chain),
        is_value(value),
    ensures
        overwritten(chain, name, value) matches Some(after) ==> holds_values(after) && after.len()
            == chain.len(),
    decreases chain.len(),
{
    if chain.len() == 0 {
    } else if binds(chain[0], name) {
        lemma_position_bounds(chain[0], name);
        let k = position(chain[0], name);
        let after = chain.update(0, chain[0].update(k, VariableView { name, value }));
        assert forall|i: int, j: int|
            0 <= i < after.len() && 0 <= j < after[i].len() implies is_value(
            (#[trigger] after[i][j]).value,
        ) by {
            if i == 0 {
                if j != k {
                    assert(after[0][j] == chain[0][j]);
                }
            } else {
                assert(after[i] == chain[i]);
                assert(is_value(chain[i][j].value));
            }
        }
    } else {
        let rest = chain.drop_first();
        assert forall|i: int, j: int| 0 <= i < rest.len() && 0 <= j < rest[i].len() implies is_value(
            (#[trigger] rest[i][j]).value,
        ) by {
            assert(rest[i] == chain[i + 1]);
            assert(is_value(chain[i + 1][j].value));
        }
        lemma_assignment_keeps_values(rest, name, value);
        match overwritten(rest, name, value) {
            Some(tail) => {
                let after = seq![chain[0]] + tail;
                assert forall|i: int, j: int|
                    0 <= i < after.len() && 0 <= j < after[i].len() implies is_value(
                    (#[trigger] after[i][j]).value,
                ) by {
                    if i == 0 {
                        assert(after[0] == chain[0]);
                        assert(is_value(chain[0][j].value));
                    } else {
                        assert(after[i] == tail[i - 1]);
                        assert(is_value(tail[i - 1][j].value));
                    }
                }
            },
            None => {},
        }
    }
}

/// Entering and leaving a scope keep the scopes holding values.
pub proof fn lemma_scope_of_a_body(chain: Seq<Frame>)
    requires
        holds_values(chain),
    ensures
        holds_values(entered(chain)),
        entered(chain).len() == chain.len() + 1,
        chain.len() > 1 ==> holds_values(left(chain)) && left(chain).len() == chain.len() - 1,
{
    let inside = entered(chain);
    assert forall|i: int, j: int|
        0 <= i < inside.len() && 0 <= j < inside[i].len() implies is_value(
        (#[trigger] inside[i][j]).value,
    ) by {
        if i > 0 {
            assert(inside[i] == chain[i - 1]);
            assert(is_value(chain[i - 1][j].value));
        }
    }
    if chain.len() > 1 {
        let outside = left(chain);
        assert forall|i: int, j: int|
            0 <= i < outside.len() && 0 <= j < outside[i].len() implies is_value(
            (#[trigger] outside[i][j]).value,
        ) by {
            assert(outside[i] == chain[i + 1]);
            assert(is_value(chain[i + 1][j].value));
        }
    }
}

/// An operation leaves values on the stack of values.
pub proof fn lemma_operation_gives_values(
    h: Host,
    cursor: nat,
    sign: crate::lexer::token::Operator,
    values: Seq<ExprView>,
)
    requires
        all_values(values),
    ensures
        operate(h, cursor, sign, values).0 matches Ok(next) ==> all_values(next),
{
    match operate(h, cursor, sign, values).0 {
        Ok(next) => {
            let below = values.take(values.len() - 2);
            assert forall|i: int| 0 <= i < next.len() implies is_value(#[trigger] next[i]) by {
                if i < below.len() {
                    assert(next[i] == values[i]);
                }
            }
        },
        Err(_) => {},
    }
}

/// Arithmetic in scopes that hold values gives a value.
pub proof fn lemma_arithmetic_gives_a_value(
    h: Host,
    st: State,
    stack: Seq<TokenView>,
    i: int,
    values: Seq<ExprView>,
)
    requires
        holds_values(st.chain),
        all_values(values),
    ensures
        math(h, st, stack, i, values).0 matches Ok(v) ==> is_value(v),
        math(h, st, stack, i, values).1.chain == st.chain,
    decreases stack.len() - i,
{
    if i < 0 || i >= stack.len() {
    } else {
        match stack[i].kind {
            TokenKindView::Word(w) => {
                lemma_lookup_gives_a_value(st.chain, w);
                match lookup(st.chain, w) {
                    Some(v) => lemma_arithmetic_gives_a_value(h, st, stack, i + 1, values.push(v)),
                    None => {},
                }
            },
            TokenKindView::String(s) => lemma_arithmetic_gives_a_value(
                h,
                st,
                stack,
                i + 1,
                values.push(ExprView::String(s)),
            ),
            TokenKindView::Int(n) => lemma_arithmetic_gives_a_value(
                h,
                st,
                stack,
                i + 1,
                values.push(ExprView::Int(n)),
            ),
            TokenKindView::Bool(b) => lemma_arithmetic_gives_a_value(
                h,
                st,
                stack,
                i + 1,
                values.push(ExprView::Bool(b)),
            ),
            TokenKindView::Float(text) => {
                let (bits, cursor) = float_from(h, st.cursor, RequestView::Literal { text });
                match bits {
                    Ok(b) => lemma_arithmetic_gives_a_value(
                        h,
                        at(st, cursor),
                        stack,
                        i + 1,
                        values.push(ExprView::Float(DecimalView::Bits(b))),
                    ),
                    Err(_) => {},
                }
            },
            TokenKindView::Operator(sign) => {
                lemma_operation_gives_values(h, st.cursor, sign, values);
                let (result, cursor) = operate(h, st.cursor, sign, values);
                match result {
                    Ok(next) => lemma_arithmetic_gives_a_value(h, at(st, cursor), stack, i + 1, next),
                    Err(_) => {},
                }
            },
            _ => lemma_arithmetic_gives_a_value(h, st, stack, i + 1, values),
        }
    }
}

/// Evaluating an expression one level in scopes that hold values gives a
/// value, and the scopes are as many as before and hold values still.
pub proof fn lemma_evaluation_gives_a_value(h: Host, st: State, e: ExprView)
    requires
        holds_values(st.chain),
        st.chain.len() >= 1,
    ensures
        eval(h, st, e).0 matches Ok(v) ==> is_value(v),
        keeps_scopes(st, eval(h, st, e).1),
    decreases e, h.limit + 1,
{
    match e {
        ExprView::Word(name) => {
            lemma_lookup_gives_a_value(st.chain, name);
        },
        ExprView::Operation { stack } => {
            lemma_arithmetic_gives_a_value(h, st, stack, 0, Seq::empty());
        },
        ExprView::VariableDeclaration { name, value } => {
            lemma_reduction_gives_a_value(h, st, *value);
            let (v, after) = reduce(h, st, *value);
            match v {
                Ok(v) => lemma_declaration_keeps_values(after.chain, name, v),
                Err(_) => {},
            }
        },
        ExprView::VariableAssigment { name, value } => {
            lemma_reduction_gives_a_value(h, st, *value);
            let (v, after) = reduce(h, st, *value);
            match v {
                Ok(v) => lemma_assignment_keeps_values(after.chain, name, v),
                Err(_) => {},
            }
        },
        ExprView::If { conditions } => {
            lemma_branches_give_a_value(h, st, conditions, 0);
        },
        ExprView::While { condition, body } => {
            lemma_loop_gives_a_value(h, st, e, h.limit);
        },
        _ => {},
    }
}

/// Evaluating an expression to a value in scopes that hold values gives a
/// value indeed.
pub proof fn lemma_reduction_gives_a_value(h: Host, st: State, e: ExprView)
    requires
        holds_values(st.chain),
        st.chain.len() >= 1,
    ensures
        reduce(h, st, e).0 matches Ok(v) ==> is_value(v),
        keeps_scopes(st, reduce(h, st, e).1),
    decreases e, h.limit + 2,
{
    if !is_value(e) {
        lemma_evaluation_gives_a_value(h, st, e);
    }
}

/// A statement in scopes that hold values has a value.
pub proof fn lemma_statement_gives_a_value(h: Host, st: State, node: AstNodeView)
    requires
        holds_values(st.chain),
        st.chain.len() >= 1,
    ensures
        statement(h, st, node).0 matches Ok(v) ==> is_value(v),
        keeps_scopes(st, statement(h, st, node).1),
    decreases node, h.limit + 3,
{
    match node {
        AstNodeView::Expr(e) => lemma_reduction_gives_a_value(h, st, e),
        AstNodeView::Cmd(_) => {},
    }
}

/// The statements of a body in scopes that hold values give a value, if any.
pub proof fn lemma_block_gives_a_value(
    h: Host,
    st: State,
    body: Seq<AstNodeView>,
    k: int,
    last: Option<ExprView>,
)
    requires
        holds_values(st.chain),
        st.chain.len() >= 1,
        last matches Some(v) ==> is_value(v),
    ensures
        block(h, st, body, k, last).0 matches Ok(Some(v)) ==> is_value(v),
        keeps_scopes(st, block(h, st, body, k, last).1),
    decreases body, body.len() - k,
{
    if k < 0 || k >= body.len() {
    } else {
        lemma_statement_gives_a_value(h, st, body[k]);
        let (v, after) = statement(h, st, body[k]);
        match v {
            Ok(v) => lemma_block_gives_a_value(h, after, body, k + 1, Some(v)),
            Err(_) => {},
        }
    }
}

/// A body in a scope of its own gives a value, if any, and leaves the
/// scopes around it as many as they were.
pub proof fn lemma_body_gives_a_value(h: Host, st: State, body: Seq<AstNodeView>)
    requires
        holds_values(st.chain),
        st.chain.len() >= 1,
    ensures
        scoped(h, st, body).0 matches Ok(Some(v)) ==> is_value(v),
        keeps_scopes(st, scoped(h, st, body).1),
    decreases body, body.len() + 1,
{
    lemma_scope_of_a_body(st.chain);
    let inside = State { chain: entered(st.chain), cursor: st.cursor };
    lemma_block_gives_a_value(h, inside, body, 0, None);
    let after = block(h, inside, body, 0, None).1;
    lemma_scope_of_a_body(after.chain);
}

/// The branches of a conditional give a value, if any.
pub proof fn lemma_branches_give_a_value(
    h: Host,
    st: State,
    conditions: Seq<IfConditionView>,
    i: int,
)
    requires
        holds_values(st.chain),
        st.chain.len() >= 1,
    ensures
        branches(h, st, conditions, i).0 matches Ok(Some(v)) ==> is_value(v),
        keeps_scopes(st, branches(h, st, conditions, i).1),
    decreases conditions, conditions.len() - i,
{
    if i < 0 || i >= conditions.len() {
    } else {
        lemma_reduction_gives_a_value(h, st, conditions[i].condition);
        let (c, after) = reduce(h, st, conditions[i].condition);
        match c {
            Err(_) => {},
            Ok(c) => {
                if crate::executor::semantics::truthy(c) {
                    lemma_body_gives_a_value(h, after, conditions[i].body);
                } else {
                    lemma_branches_give_a_value(h, after, conditions, i + 1);
                }
            },
        }
    }
}

/// A loop keeps the scopes holding values.
pub proof fn lemma_loop_gives_a_value(h: Host, st: State, e: ExprView, remaining: nat)
    requires
        holds_values(st.chain),
        st.chain.len() >= 1,
    ensures
        repeat(h, st, e, remaining).0 matches Ok(v) ==> is_value(v),
        keeps_scopes(st, repeat(h, st, e, remaining).1),
    decreases e, remaining,
{
    match e {
        ExprView::While { condition, body } => {
            lemma_reduction_gives_a_value(h, st, *condition);
            let (c, after) = reduce(h, st, *condition);
            match c {
                Err(_) => {},
                Ok(c) => {
                    if crate::executor::semantics::truthy(c) && remaining > 0 {
                        lemma_body_gives_a_value(h, after, body);
                        let (v, end) = scoped(h, after, body);
                        match v {
                            Err(_) => {},
                            Ok(_) => lemma_loop_gives_a_value(h, end, e, (remaining - 1) as nat),
                        }
                    }
                },
            }
        },
        _ => {},
    }
}

} // verus!
