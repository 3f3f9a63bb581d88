use vstd::prelude::*;
use crate::executor::executor::ExecutorError;
use crate::executor::host::{HaltView, Host, Number, RequestView};
use crate::executor::primitives::DecimalView;
use crate::executor::scope::{
    binds,
    declared,
    entered,
    left,
    lemma_position_bounds,
    lookup,
    overwritten,
    position,
    Frame,
    VariableView,
};
use crate::executor::semantics::{
    apply,
    at,
    eval,
    float_from,
    math,
    operate,
    reduce,
    truthy,
    word_value,
    State,
};
use crate::lexer::token::{Operator as Sign, TokenKindView, TokenView};
use crate::parser::ast::{AstNodeView, ExprView, Operator};
use crate::parser::grammar::{
    first_of,
    is_arithmetic,
    pop_operators,
    postfix,
    shunt,
    single,
    window,
};

verus! {

/// The tokens of `a`, a sign, and `b`.
pub open spec fn binary(a: i64, sign: Sign, b: i64, positions: (nat, nat, nat)) -> Seq<TokenView> {
    seq![
        TokenView { kind: TokenKindView::Int(a), pos: positions.0 },
        TokenView { kind: TokenKindView::Operator(sign), pos: positions.1 },
        TokenView { kind: TokenKindView::Int(b), pos: positions.2 },
    ]
}

/// An integer, a sign and an integer are parsed as arithmetic that has
/// the two integers and then the sign on its postfix stack.
pub proof fn lemma_binary_is_arithmetic(a: i64, sign: Sign, b: i64, positions: (nat, nat, nat))
    requires
        sign != Sign::Equal,
    ensures
        ({
            let ts = binary(a, sign, b, positions);
            single(ts) == Ok::<_, crate::parser::parser::ParseError>(
                (
                    AstNodeView::Expr(ExprView::Operation { stack: seq![ts[0], ts[2], ts[1]] }),
                    Seq::<TokenView>::empty(),
                ),
            )
        }),
{
    let ts = binary(a, sign, b, positions);
    let semicolon = TokenKindView::Semicolon;
    assert(first_of(ts, semicolon) == 3) by {
        let t1 = ts.drop_first();
        let t2 = t1.drop_first();
        let t3 = t2.drop_first();
        assert(t3.len() == 0);
        assert(first_of(t3, semicolon) == 0);
        assert(first_of(t2, semicolon) == 1);
        assert(first_of(t1, semicolon) == 2);
    }
    assert(window(ts) == ts);
    assert(is_arithmetic(ts));
    assert(ts.skip(3) == Seq::<TokenView>::empty());
    let empty = Seq::<TokenView>::empty();
    assert(postfix(ts) == seq![ts[0], ts[2], ts[1]]) by {
        reveal_with_fuel(shunt, 5);
        assert(pop_operators(empty.push(ts[0]), empty, crate::parser::grammar::precedence(ts[1].kind))
            == (empty.push(ts[0]), empty));
        let st = empty.push(ts[1]);
        let out = empty.push(ts[0]).push(ts[2]);
        assert(st.reverse() == seq![ts[1]]);
        assert(out + st.reverse() == seq![ts[0], ts[2], ts[1]]);
    }
}

/// The result of `a`, a sign and `b` in postfix order is that of the one
/// operation on `a` and `b`, whatever the scopes hold.
pub proof fn lemma_binary_value(h: Host, st: State, a: i64, sign: Sign, b: i64, stack: Seq<TokenView>)
    requires
        stack.len() == 3,
        stack[0].kind == TokenKindView::Int(a),
        stack[1].kind == TokenKindView::Int(b),
        stack[2].kind == TokenKindView::Operator(sign),
    ensures
        eval(h, st, ExprView::Operation { stack }) == ({
            let (values, cursor) = operate(
                h,
                st.cursor,
                sign,
                seq![ExprView::Int(a), ExprView::Int(b)],
            );
            (
                match values {
                    Ok(v) => if v.len() == 1 {
                        Ok(v[0])
                    } else {
                        Err(HaltView::Error(ExecutorError::Malformed))
                    },
                    Err(halt) => Err(halt),
                },
                at(st, cursor),
            )
        }),
{
    reveal_with_fuel(math, 5);
    let empty = Seq::<ExprView>::empty();
    assert(empty.push(ExprView::Int(a)).push(ExprView::Int(b)) == seq![
        ExprView::Int(a),
        ExprView::Int(b),
    ]);
    assert(at(st, st.cursor) == st);
}

/// Evaluating `a + b` for integers gives their integer sum, where the sum
/// fits in 64 bits, and changes nothing.
pub proof fn lemma_sum_of_integers(h: Host, st: State, a: i64, b: i64, stack: Seq<TokenView>)
    requires
        stack.len() == 3,
        stack[0].kind == TokenKindView::Int(a),
        stack[1].kind == TokenKindView::Int(b),
        stack[2].kind == TokenKindView::Operator(Sign::Plus),
        i64::MIN <= a + b <= i64::MAX,
    ensures
        eval(h, st, ExprView::Operation { stack }) == (
            Ok::<_, HaltView>(ExprView::Int((a + b) as i64)),
            st,
        ),
{
    lemma_binary_value(h, st, a, Sign::Plus, b, stack);
    let values = seq![ExprView::Int(a), ExprView::Int(b)];
    assert(values.take(0) == Seq::<ExprView>::empty());
    assert(Seq::<ExprView>::empty().push(ExprView::Int((a + b) as i64)).len() == 1);
    assert(at(st, st.cursor) == st);
}

/// Evaluating `a / b` for integers never gives an integer: the result is
/// the float that the host computes for the division, also where `b`
/// divides `a`.
pub proof fn lemma_quotient_of_integers(h: Host, st: State, a: i64, b: i64, stack: Seq<TokenView>)
    requires
        stack.len() == 3,
        stack[0].kind == TokenKindView::Int(a),
        stack[1].kind == TokenKindView::Int(b),
        stack[2].kind == TokenKindView::Operator(Sign::Divide),
    ensures
        ({
            let (bits, cursor) = float_from(
                h,
                st.cursor,
                RequestView::Arithmetic {
                    op: Operator::Divide,
                    left: Number::Int(a),
                    right: Number::Int(b),
                },
            );
            eval(h, st, ExprView::Operation { stack }) == (
                match bits {
                    Ok(bits) => Ok(ExprView::Float(DecimalView::Bits(bits))),
                    Err(halt) => Err(halt),
                },
                at(st, cursor),
            )
        }),
{
    lemma_binary_value(h, st, a, Sign::Divide, b, stack);
    let values = seq![ExprView::Int(a), ExprView::Int(b)];
    assert(values.take(0) == Seq::<ExprView>::empty());
    let request = RequestView::Arithmetic {
        op: Operator::Divide,
        left: Number::Int(a),
        right: Number::Int(b),
    };
    match float_from(h, st.cursor, request).0 {
        Ok(bits) => {
            assert(Seq::<ExprView>::empty().push(ExprView::Float(DecimalView::Bits(bits))).len()
                == 1);
        },
        Err(_) => {},
    }
}

/// An operation with a float among its operands gives a float, whatever
/// the operator and the other operand.
pub proof fn lemma_mixed_operands_give_a_float(
    h: Host,
    cursor: nat,
    op: Operator,
    left: Number,
    right: Number,
)
    requires
        left is Float || right is Float,
    ensures
        apply(h, cursor, op, left, right).0 matches Ok(v) ==> v is Float && v->Float_0 is Bits,
{
}

/// A name that is declared in a scope cannot be declared in it again.
pub proof fn lemma_second_declaration_fails(
    chain: Seq<Frame>,
    name: Seq<char>,
    first: ExprView,
    second: ExprView,
)
    requires
        declared(chain, name, first) is Some,
    ensures
        declared(declared(chain, name, first)->0, name, second) is None,
        lookup(declared(chain, name, first)->0, name) == Some(first),
{
    let frame = chain[0];
    let var = VariableView { name, value: first };
    lemma_position_after_push(frame, var);
}

/// In a frame that does not bind a name, the binding put at its end is
/// the first one of that name.
pub proof fn lemma_position_after_push(frame: Frame, var: VariableView)
    requires
        !binds(frame, var.name),
    ensures
        position(frame.push(var), var.name) == frame.len(),
    decreases frame.len(),
{
    lemma_position_bounds(frame, var.name);
    if frame.len() == 0 {
        assert(frame.push(var)[0] == var);
    } else {
        assert(frame.push(var)[0] == frame[0]);
        assert(frame.push(var).drop_first() == frame.drop_first().push(var));
        lemma_position_after_push(frame.drop_first(), var);
    }
}

/// A name can be assigned exactly where it can be read: where some scope
/// of the chain has declared it.
pub proof fn lemma_assignment_needs_a_declaration(
    chain: Seq<Frame>,
    name: Seq<char>,
    value: ExprView,
)
    ensures
        overwritten(chain, name, value) is None <==> lookup(chain, name) is None,
        overwritten(chain, name, value) matches Some(after) ==> after.len() == chain.len()
            && lookup(after, name) == Some(value),
    decreases chain.len(),
{
    if chain.len() == 0 {
    } else if binds(chain[0], name) {
        let i = position(chain[0], name);
        let frame = chain[0].update(i, VariableView { name, value });
        lemma_position_bounds(chain[0], name);
        lemma_position_after_update(chain[0], name, value);
    } else {
        lemma_assignment_needs_a_declaration(chain.drop_first(), name, value);
        match overwritten(chain.drop_first(), name, value) {
            Some(rest) => {
                let after = seq![chain[0]] + rest;
                assert(after[0] == chain[0]);
                assert(after.drop_first() == rest);
            },
            None => {},
        }
    }
}

/// Giving the first binding of a name a new value keeps it the first
/// binding of that name.
pub proof fn lemma_position_after_update(frame: Frame, name: Seq<char>, value: ExprView)
    requires
        binds(frame, name),
    ensures
        position(frame.update(position(frame, name), VariableView { name, value }), name)
            == position(frame, name),
    decreases frame.len(),
{
    lemma_position_bounds(frame, name);
    let i = position(frame, name);
    let updated = frame.update(i, VariableView { name, value });
    if frame[0].name == name {
    } else {
        assert(updated[0] == frame[0]);
        lemma_position_bounds(frame.drop_first(), name);
        assert(updated.drop_first() == frame.drop_first().update(
            i - 1,
            VariableView { name, value },
        ));
        lemma_position_after_update(frame.drop_first(), name, value);
    }
}

/// A declaration in the scope of a body is gone when the body is left:
/// the scopes that the body shadows are as they were.
pub proof fn lemma_inner_declaration_is_dropped(chain: Seq<Frame>, name: Seq<char>, value: ExprView)
    requires
        chain.len() >= 1,
    ensures
        declared(entered(chain), name, value) matches Some(inside) && left(inside) == chain,
{
    let inside = entered(chain);
    assert(inside[0] == Seq::<VariableView>::empty());
    lemma_position_bounds(inside[0], name);
    let after = inside.update(0, inside[0].push(VariableView { name, value }));
    assert(after.drop_first() == chain);
}

/// An assignment in the scope of a body to a name that the body has not
/// declared itself changes the variable of the scopes that the body
/// shadows, and the change stays when the body is left.
pub proof fn lemma_inner_assignment_reaches_out(chain: Seq<Frame>, name: Seq<char>, value: ExprView)
    requires
        chain.len() >= 1,
    ensures
        overwritten(entered(chain), name, value) == match overwritten(chain, name, value) {
            Some(after) => Some(entered(after)),
            None => None,
        },
        overwritten(chain, name, value) matches Some(after) ==> left(
            overwritten(entered(chain), name, value)->0,
        ) == after,
{
    let inside = entered(chain);
    assert(inside[0] == Seq::<VariableView>::empty());
    assert(inside.drop_first() == chain);
    lemma_position_bounds(inside[0], name);
    lemma_assignment_needs_a_declaration(chain, name, value);
    match overwritten(chain, name, value) {
        Some(after) => {
            assert(entered(after).drop_first() == after);
            assert(seq![inside[0]] + after == entered(after));
        },
        None => {},
    }
}

/// A loop whose condition does not hold at the start does not execute its
/// body: it has no value, and the state is the one in which the condition
/// was evaluated.
pub proof fn lemma_loop_with_false_condition(
    h: Host,
    st: State,
    condition: ExprView,
    body: Seq<AstNodeView>,
)
    requires
        reduce(h, st, condition).0 matches Ok(c) && !truthy(c),
    ensures
        eval(h, st, ExprView::While { condition: Box::new(condition), body }) == (
            Ok::<_, HaltView>(ExprView::NoValue),
            reduce(h, st, condition).1,
        ),
{
}

/// Arithmetic reads the scopes and never changes them.
pub proof fn lemma_arithmetic_keeps_the_scopes(
    h: Host,
    st: State,
    stack: Seq<TokenView>,
    i: int,
    values: Seq<ExprView>,
)
    ensures
        math(h, st, stack, i, values).1.chain == st.chain,
    decreases stack.len() - i,
{
    if i < 0 || i >= stack.len() {
    } else {
        match stack[i].kind {
            TokenKindView::Word(w) => match lookup(st.chain, w) {
                Some(v) => lemma_arithmetic_keeps_the_scopes(h, st, stack, i + 1, values.push(v)),
                None => {},
            },
            TokenKindView::String(s) => lemma_arithmetic_keeps_the_scopes(
                h,
                st,
                stack,
                i + 1,
                values.push(ExprView::String(s)),
            ),
            TokenKindView::Int(n) => lemma_arithmetic_keeps_the_scopes(
                h,
                st,
                stack,
                i + 1,
                values.push(ExprView::Int(n)),
            ),
            TokenKindView::Bool(b) => lemma_arithmetic_keeps_the_scopes(
                h,
                st,
                stack,
                i + 1,
                values.push(ExprView::Bool(b)),
            ),
            TokenKindView::Float(text) => {
                let (bits, cursor) = float_from(h, st.cursor, RequestView::Literal { text });
                match bits {
                    Ok(b) => lemma_arithmetic_keeps_the_scopes(
                        h,
                        at(st, cursor),
                        stack,
                        i + 1,
                        values.push(ExprView::Float(DecimalView::Bits(b))),
                    ),
                    Err(_) => {},
                }
            },
            TokenKindView::Operator(sign) => {
                let (result, cursor) = operate(h, st.cursor, sign, values);
                match result {
                    Ok(next) => lemma_arithmetic_keeps_the_scopes(
                        h,
                        at(st, cursor),
                        stack,
                        i + 1,
                        next,
                    ),
                    Err(_) => {},
                }
            },
            _ => lemma_arithmetic_keeps_the_scopes(h, st, stack, i + 1, values),
        }
    }
}

/// Whether no token from the `i`-th on is a word.
pub open spec fn without_words(stack: Seq<TokenView>, i: int) -> bool {
    forall|k: int| i <= k < stack.len() ==> !(#[trigger] stack[k].kind is Word)
}

/// Arithmetic without variables gives the same result in any scopes:
/// evaluating it again, wherever, gives the same again.
pub proof fn lemma_arithmetic_without_words_ignores_the_scopes(
    h: Host,
    first: State,
    second: State,
    stack: Seq<TokenView>,
    i: int,
    values: Seq<ExprView>,
)
    requires
        without_words(stack, i),
        first.cursor == second.cursor,
        0 <= i,
    ensures
        math(h, first, stack, i, values).0 == math(h, second, stack, i, values).0,
        math(h, first, stack, i, values).1.cursor == math(h, second, stack, i, values).1.cursor,
    decreases stack.len() - i,
{
    if i >= stack.len() {
    } else {
        assert(!(stack[i].kind is Word));
        match stack[i].kind {
            TokenKindView::Word(w) => {},
            TokenKindView::String(s) => lemma_arithmetic_without_words_ignores_the_scopes(
                h,
                first,
                second,
                stack,
                i + 1,
                values.push(ExprView::String(s)),
            ),
            TokenKindView::Int(n) => lemma_arithmetic_without_words_ignores_the_scopes(
                h,
                first,
                second,
                stack,
                i + 1,
                values.push(ExprView::Int(n)),
            ),
            TokenKindView::Bool(b) => lemma_arithmetic_without_words_ignores_the_scopes(
                h,
                first,
                second,
                stack,
                i + 1,
                values.push(ExprView::Bool(b)),
            ),
            TokenKindView::Float(text) => {
                let (bits, cursor) = float_from(h, first.cursor, RequestView::Literal { text });
                match bits {
                    Ok(b) => lemma_arithmetic_without_words_ignores_the_scopes(
                        h,
                        at(first, cursor),
                        at(second, cursor),
                        stack,
                        i + 1,
                        values.push(ExprView::Float(DecimalView::Bits(b))),
                    ),
                    Err(_) => {},
                }
            },
            TokenKindView::Operator(sign) => {
                let (result, cursor) = operate(h, first.cursor, sign, values);
                match result {
                    Ok(next) => lemma_arithmetic_without_words_ignores_the_scopes(
                        h,
                        at(first, cursor),
                        at(second, cursor),
                        stack,
                        i + 1,
                        next,
                    ),
                    Err(_) => {},
                }
            },
            _ => lemma_arithmetic_without_words_ignores_the_scopes(
                h,
                first,
                second,
                stack,
                i + 1,
                values,
            ),
        }
    }
}

/// A word that names no variable and that the host cannot run as a
/// command fails to evaluate.
pub proof fn lemma_unknown_word_fails(h: Host, st: State, name: Seq<char>)
    requires
        lookup(st.chain, name) is None,
        st.cursor < h.answers.len(),
        h.answers[st.cursor as int] is Failure,
    ensures
        word_value(h, st, name).0 == Err::<ExprView, _>(HaltView::Error(ExecutorError::Command)),
{
}

/// A word that was declared evaluates to the value it was declared with,
/// and the host is not asked.
pub proof fn lemma_declared_word_is_its_value(h: Host, st: State, name: Seq<char>, value: ExprView)
    requires
        declared(st.chain, name, value) is Some,
    ensures
        ({
            let after = State { chain: declared(st.chain, name, value)->0, cursor: st.cursor };
            word_value(h, after, name) == (Ok::<_, HaltView>(value), after)
        }),
{
    lemma_second_declaration_fails(st.chain, name, value, value);
}

} // verus!
