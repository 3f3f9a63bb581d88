use vstd::prelude::*;
use crate::lexer::token::TokenView;
use crate::parser::grammar::{is_operand, pop_operators, pop_to_bracket, postfix, shunt};

verus! {

/// The operands among the tokens, in order.
pub open spec fn operands_of(ts: Seq<TokenView>) -> Seq<TokenView>
    decreases ts.len(),
{
    if ts.len() == 0 {
        ts
    } else if is_operand(ts.last().kind) {
        operands_of(ts.drop_last()).push(ts.last())
    } else {
        operands_of(ts.drop_last())
    }
}

/// Whether none of the tokens is an operand.
pub open spec fn without_operands(ts: Seq<TokenView>) -> bool {
    forall|i: int| 0 <= i < ts.len() ==> !is_operand(#[trigger] ts[i].kind)
}

/// The operands of one token: the token itself if it is an operand.
pub proof fn lemma_operands_of_one(t: TokenView)
    ensures
        operands_of(seq![t]) == if is_operand(t.kind) {
            seq![t]
        } else {
            Seq::<TokenView>::empty()
        },
{
    reveal_with_fuel(operands_of, 2);
    assert(seq![t].last() == t);
    assert(seq![t].drop_last() == Seq::<TokenView>::empty());
    assert(Seq::<TokenView>::empty().push(t) == seq![t]);
}

/// The operands of two sequences put together are those of the first and
/// then those of the second.
pub proof fn lemma_operands_of_both(a: Seq<TokenView>, b: Seq<TokenView>)
    ensures
        operands_of(a + b) == operands_of(a) + operands_of(b),
    decreases b.len(),
{
    if b.len() == 0 {
        assert(a + b == a);
        assert(operands_of(a) + Seq::<TokenView>::empty() == operands_of(a));
    } else {
        assert((a + b).drop_last() == a + b.drop_last());
        assert((a + b).last() == b.last());
        lemma_operands_of_both(a, b.drop_last());
        if is_operand(b.last().kind) {
            assert((operands_of(a) + operands_of(b.drop_last())).push(b.last()) == operands_of(a)
                + operands_of(b.drop_last()).push(b.last()));
        }
    }
}

/// Tokens without operands have no operands, in whatever order.
pub proof fn lemma_no_operands(ts: Seq<TokenView>)
    requires
        without_operands(ts),
    ensures
        operands_of(ts) == Seq::<TokenView>::empty(),
        operands_of(ts.reverse()) == Seq::<TokenView>::empty(),
    decreases ts.len(),
{
    if ts.len() > 0 {
        lemma_no_operands(ts.drop_last());
        let r = ts.reverse();
        assert(r == seq![ts.last()] + ts.drop_last().reverse());
        lemma_operands_of_both(seq![ts.last()], ts.drop_last().reverse());
        assert(!is_operand(ts[ts.len() - 1].kind));
        lemma_operands_of_one(ts.last());
        assert(Seq::<TokenView>::empty() + Seq::<TokenView>::empty() == Seq::<TokenView>::empty());
    } else {
        assert(ts.reverse() == ts);
    }
}

/// Moving operators from the stack to the output moves no operand.
pub proof fn lemma_pop_operators_keeps_operands(output: Seq<TokenView>, stack: Seq<TokenView>, p: nat)
    requires
        without_operands(stack),
    ensures
        operands_of(pop_operators(output, stack, p).0) == operands_of(output),
        without_operands(pop_operators(output, stack, p).1),
    decreases stack.len(),
{
    if stack.len() > 0 && stack.last().kind is Operator && p <= crate::parser::grammar::precedence(
        stack.last().kind,
    ) {
        assert(output.push(stack.last()).drop_last() == output);
        lemma_pop_operators_keeps_operands(output.push(stack.last()), stack.drop_last(), p);
    }
}

/// Moving tokens from the stack to the output down to a bracket moves no operand.
pub proof fn lemma_pop_to_bracket_keeps_operands(output: Seq<TokenView>, stack: Seq<TokenView>)
    requires
        without_operands(stack),
    ensures
        operands_of(pop_to_bracket(output, stack).0) == operands_of(output),
        without_operands(pop_to_bracket(output, stack).1),
    decreases stack.len(),
{
    if stack.len() == 0 {
    } else if stack.last().kind is OpenBracket {
    } else {
        assert(!is_operand(stack.last().kind));
        assert(output.push(stack.last()).drop_last() == output);
        lemma_pop_to_bracket_keeps_operands(output.push(stack.last()), stack.drop_last());
    }
}

/// The shunting yard moves operands straight to the output.
pub proof fn lemma_shunt_keeps_operands(
    ts: Seq<TokenView>,
    i: int,
    output: Seq<TokenView>,
    stack: Seq<TokenView>,
)
    requires
        0 <= i <= ts.len(),
        without_operands(stack),
    ensures
        operands_of(shunt(ts, i, output, stack)) == operands_of(output) + operands_of(ts.skip(i)),
    decreases ts.len() - i,
{
    if i >= ts.len() {
        lemma_operands_of_both(output, stack.reverse());
        lemma_no_operands(stack);
        assert(ts.skip(i) == Seq::<TokenView>::empty());
    } else {
        let t = ts[i];
        assert(ts.skip(i) == seq![t] + ts.skip(i + 1));
        lemma_operands_of_both(seq![t], ts.skip(i + 1));
        lemma_operands_of_one(t);
        let tail = operands_of(ts.skip(i + 1));
        if is_operand(t.kind) {
            lemma_shunt_keeps_operands(ts, i + 1, output.push(t), stack);
            assert(output.push(t).drop_last() == output);
            assert(operands_of(output).push(t) + tail == operands_of(output) + (seq![t] + tail));
        } else {
            assert(Seq::<TokenView>::empty() + tail == tail);
            if t.kind is Operator {
                let (out, st) = pop_operators(output, stack, crate::parser::grammar::precedence(t.kind));
                lemma_pop_operators_keeps_operands(
                    output,
                    stack,
                    crate::parser::grammar::precedence(t.kind),
                );
                lemma_shunt_keeps_operands(ts, i + 1, out, st.push(t));
            } else if t.kind is OpenBracket {
                lemma_shunt_keeps_operands(ts, i + 1, output, stack.push(t));
            } else if t.kind is ClosedBracket {
                let (out, st) = pop_to_bracket(output, stack);
                lemma_pop_to_bracket_keeps_operands(output, stack);
                lemma_shunt_keeps_operands(ts, i + 1, out, st);
            } else {
                lemma_shunt_keeps_operands(ts, i + 1, output, stack);
            }
        }
    }
}

/// Postfix order keeps the operands in the order in which they were written.
pub proof fn lemma_postfix_keeps_operand_order(ts: Seq<TokenView>)
    ensures
        operands_of(postfix(ts)) == operands_of(ts),
{
    lemma_shunt_keeps_operands(ts, 0, Seq::empty(), Seq::empty());
    assert(ts.skip(0) == ts);
    assert(Seq::<TokenView>::empty() + operands_of(ts) == operands_of(ts));
}

} // verus!
