use vstd::prelude::*;
use crate::lexer::token::{Operator, Token, TokenKind, TokenKindView, TokenView};
use crate::lexer::token_stream::TokenStream;
use crate::parser::ast::Expr;
use crate::parser::grammar::{
    first_of,
    is_operand,
    lemma_first_of_bounds,
    math_like,
    pop_operators,
    pop_to_bracket,
    postfix,
    precedence,
    shunt,
    window,
};

verus! {

/// The values of a list of tokens.
pub open spec fn tokens_view(tokens: Seq<Token>) -> Seq<TokenView> {
    tokens.map_values(|t: Token| t@)
}

/// Tells whether a token may stand in arithmetic.
pub fn is_math_like(kind: &TokenKind) -> (r: bool)
    ensures
        r == math_like(kind@),
{
    match kind {
        TokenKind::Int(_) => true,
        TokenKind::Float(_) => true,
        TokenKind::Word(_) => true,
        TokenKind::OpenBracket => true,
        TokenKind::ClosedBracket => true,
        TokenKind::Operator(op) => !matches!(op, Operator::Equal),
        _ => false,
    }
}

/// Tells whether the statement at the front of `stream` is arithmetic.
pub fn is_arithmetic(stream: &TokenStream) -> (r: bool)
    ensures
        r == crate::parser::grammar::is_arithmetic(stream@),
{
    let ghost ts = stream@;
    let ghost end = first_of(ts, TokenKindView::Semicolon);
    let n = stream.len();
    let mut i: usize = 0;
    let mut all = true;
    proof {
        lemma_first_of_bounds(ts, TokenKindView::Semicolon);
        assert(ts.skip(0) == ts);
    }
    loop
        invariant_except_break
            ts == stream@,
            n == ts.len(),
            end == first_of(ts, TokenKindView::Semicolon),
            0 <= i <= end <= ts.len(),
            end == i + first_of(ts.skip(i as int), TokenKindView::Semicolon),
            all == forall|k: int| 0 <= k < i ==> math_like(#[trigger] ts[k].kind),
        ensures
            i == end,
            ts == stream@,
            end == first_of(ts, TokenKindView::Semicolon),
            0 <= end <= ts.len(),
            all == forall|k: int| 0 <= k < i ==> math_like(#[trigger] ts[k].kind),
        decreases ts.len() - i,
    {
        match stream.peek_next(i) {
            None => {
                break ;
            },
            Some(t) => {
                if matches!(t.kind, TokenKind::Semicolon) {
                    break ;
                }
                proof {
                    assert(ts.skip(i as int)[0] == ts[i as int]);
                    assert(ts.skip(i as int).drop_first() == ts.skip(i + 1));
                    lemma_first_of_bounds(ts.skip(i + 1), TokenKindView::Semicolon);
                }
                if !is_math_like(&t.kind) {
                    all = false;
                }
                i += 1;
            },
        }
    }
    proof {
        let w = window(ts);
        assert(w.len() == i);
        assert forall|k: int| 0 <= k < i implies w[k] == ts[k] by {}
        if all {
            assert forall|k: int| 0 <= k < w.len() implies math_like(#[trigger] w[k].kind) by {
                assert(math_like(ts[k].kind));
            }
        } else {
            let k = choose|k: int| 0 <= k < i && !math_like(#[trigger] ts[k].kind);
            assert(!math_like(w[k].kind));
        }
    }
    i > 2 && all
}

/// How tightly the operator of a token binds.
pub fn precedence_of(kind: &TokenKind) -> (r: u8)
    ensures
        r == precedence(kind@),
{
    match kind {
        TokenKind::Operator(o) => match o {
            Operator::Plus | Operator::Minus => 1,
            Operator::Multiply | Operator::Divide => 2,
            _ => 0,
        },
        _ => 0,
    }
}

/// Parses the arithmetic that begins with `leading` and goes on at the
/// front of `stream`, up to the next `;`, which is left in the stream.
pub fn parse_math(leading: Token, stream: &mut TokenStream) -> (r: Expr)
    ensures
        r@ == (crate::parser::ast::ExprView::Operation {
            stack: postfix(window(seq![leading@] + old(stream)@)),
        }),
        final(stream)@ == (seq![leading@] + old(stream)@).skip(
            first_of(seq![leading@] + old(stream)@, TokenKindView::Semicolon),
        ),
{
    stream.push_front(leading);
    let ghost ts = stream@;
    let mut chunk: Vec<Token> = Vec::new();
    proof {
        lemma_first_of_bounds(ts, TokenKindView::Semicolon);
        assert(ts.skip(0) == ts);
        assert(ts.take(0) == tokens_view(chunk@));
    }
    loop
        invariant_except_break
            0 <= chunk.len() <= first_of(ts, TokenKindView::Semicolon) <= ts.len(),
            stream@ == ts.skip(chunk.len() as int),
            tokens_view(chunk@) == ts.take(chunk.len() as int),
            first_of(ts, TokenKindView::Semicolon) == chunk.len() + first_of(
                stream@,
                TokenKindView::Semicolon,
            ),
        ensures
            chunk.len() == first_of(ts, TokenKindView::Semicolon),
            stream@ == ts.skip(chunk.len() as int),
            tokens_view(chunk@) == ts.take(chunk.len() as int),
        decreases stream@.len(),
    {
        let at_end = match stream.peek() {
            None => true,
            Some(t) => matches!(t.kind, TokenKind::Semicolon),
        };
        if at_end {
            break ;
        }
        let ghost before = stream@;
        let ghost done = tokens_view(chunk@);
        let t = stream.next().unwrap();
        proof {
            assert(before.drop_first() == ts.skip(chunk.len() + 1));
            lemma_first_of_bounds(before.drop_first(), TokenKindView::Semicolon);
            assert(tokens_view(chunk@.push(t)) == done.push(t@));
            assert(ts.take(chunk.len() + 1) == ts.take(chunk.len() as int).push(t@));
        }
        chunk.push(t);
    }
    let out = infix_to_postfix(chunk);
    Expr::Operation { stack: out }
}

/// Puts the tokens of an infix expression into postfix order.
pub fn infix_to_postfix(stream: Vec<Token>) -> (r: Vec<Token>)
    ensures
        tokens_view(r@) == postfix(tokens_view(stream@)),
{
    let ghost ts = tokens_view(stream@);
    let mut output: Vec<Token> = Vec::new();
    let mut stack: Vec<Token> = Vec::new();
    let mut i: usize = 0;
    proof {
        assert(tokens_view(output@) == Seq::<TokenView>::empty());
        assert(tokens_view(stack@) == Seq::<TokenView>::empty());
    }
    while i < stream.len()
        invariant
            0 <= i <= stream.len(),
            ts == tokens_view(stream@),
            postfix(ts) == shunt(ts, i as int, tokens_view(output@), tokens_view(stack@)),
        decreases stream.len() - i,
    {
        let token = stream[i].duplicate();
        let ghost out0 = tokens_view(output@);
        let ghost st0 = tokens_view(stack@);
        proof {
            assert(token@ == ts[i as int]);
        }
        match token.kind {
            TokenKind::Word(_)
            | TokenKind::String(_)
            | TokenKind::Int(_)
            | TokenKind::Float(_)
            | TokenKind::Bool(_) => {
                proof {
                    assert(is_operand(token@.kind));
                    assert(tokens_view(output@.push(token)) == out0.push(token@));
                }
                output.push(token);
            },
            TokenKind::Operator(_) => {
                let p = precedence_of(&token.kind);
                loop
                    invariant_except_break
                        pop_operators(out0, st0, p as nat) == pop_operators(
                            tokens_view(output@),
                            tokens_view(stack@),
                            p as nat,
                        ),
                    ensures
                        pop_operators(out0, st0, p as nat) == (
                            tokens_view(output@),
                            tokens_view(stack@),
                        ),
                    decreases stack.len(),
                {
                    if stack.len() == 0 {
                        break ;
                    }
                    let top = &stack[stack.len() - 1];
                    let goes = matches!(top.kind, TokenKind::Operator(_)) && p <= precedence_of(
                        &top.kind,
                    );
                    proof {
                        assert(tokens_view(stack@).last() == top@);
                    }
                    if !goes {
                        break ;
                    }
                    let ghost out1 = tokens_view(output@);
                    let ghost st1 = tokens_view(stack@);
                    let moved = stack.pop().unwrap();
                    proof {
                        assert(tokens_view(stack@) == st1.drop_last());
                        assert(tokens_view(output@.push(moved)) == out1.push(moved@));
                    }
                    output.push(moved);
                }
                proof {
                    assert(tokens_view(stack@.push(token)) == tokens_view(stack@).push(token@));
                }
                stack.push(token);
            },
            TokenKind::OpenBracket => {
                proof {
                    assert(tokens_view(stack@.push(token)) == st0.push(token@));
                }
                stack.push(token);
            },
            TokenKind::ClosedBracket => {
                loop
                    invariant_except_break
                        pop_to_bracket(out0, st0) == pop_to_bracket(
                            tokens_view(output@),
                            tokens_view(stack@),
                        ),
                    ensures
                        pop_to_bracket(out0, st0) == (tokens_view(output@), tokens_view(stack@)),
                    decreases stack.len(),
                {
                    let ghost out1 = tokens_view(output@);
                    let ghost st1 = tokens_view(stack@);
                    match stack.pop() {
                        None => {
                            break ;
                        },
                        Some(top) => {
                            proof {
                                assert(tokens_view(stack@) == st1.drop_last());
                                assert(st1.last() == top@);
                            }
                            if matches!(top.kind, TokenKind::OpenBracket) {
                                break ;
                            }
                            proof {
                                assert(tokens_view(output@.push(top)) == out1.push(top@));
                            }
                            output.push(top);
                        },
                    }
                }
            },
            _ => {},
        }
        i += 1;
    }
    loop
        invariant_except_break
            postfix(ts) == tokens_view(output@) + tokens_view(stack@).reverse(),
        ensures
            postfix(ts) == tokens_view(output@),
        decreases stack.len(),
    {
        let ghost out1 = tokens_view(output@);
        let ghost st1 = tokens_view(stack@);
        match stack.pop() {
            None => {
                proof {
                    assert(st1.reverse() == Seq::<TokenView>::empty());
                    assert(out1 + Seq::<TokenView>::empty() == out1);
                }
                break ;
            },
            Some(op) => {
                proof {
                    assert(tokens_view(stack@) == st1.drop_last());
                    assert(tokens_view(output@.push(op)) == out1.push(op@));
                    assert(st1.reverse() == seq![op@] + st1.drop_last().reverse());
                    assert(out1 + (seq![op@] + st1.drop_last().reverse()) == out1.push(op@)
                        + st1.drop_last().reverse());
                }
                output.push(op);
            },
        }
    }
    output
}

} // verus!
