use vstd::prelude::*;
use std::collections::VecDeque;
use crate::lexer::token::{Token, TokenKind, TokenView};
use crate::lexer::token_stream::TokenStream;
use crate::parser::ast::{nodes_view, AstNode, AstNodeView};
use crate::parser::grammar::{body, closing_brace, lemma_closing_brace_bounds};
use crate::parser::parser::{ParseError, Parser};

verus! {

/// Parses a body from behind its opening brace up to the matching `}`.
/// Also tells whether the body's last statement is its value.
pub fn parse_body(stream: &mut TokenStream) -> (r: Result<(Vec<AstNode>, bool), ParseError>)
    ensures
        match r {
            Ok((nodes, implicit)) => body(old(stream)@) == Ok::<_, ParseError>(
                ((nodes_view(nodes@), implicit), final(stream)@),
            ) && final(stream)@.len() < old(stream)@.len(),
            Err(e) => body(old(stream)@) == Err::<((Seq<AstNodeView>, bool), Seq<TokenView>), _>(e),
        },
    decreases old(stream)@.len(), 0nat,
{
    let ghost ts = stream@;
    let total = stream.len();
    // The braces that are open inside the body.
    let mut nested: usize = 0;
    let mut expressions: VecDeque<Token> = VecDeque::new();
    let mut last_is_semicolon = false;
    let mut closed = false;
    proof {
        assert(ts.skip(0) == ts);
        assert(ts.take(0) == expressions@.map_values(|t: Token| t@));
        lemma_closing_brace_bounds(ts, 0, 1);
    }
    while !closed
        invariant
            ts == old(stream)@,
            total == ts.len(),
            0 <= expressions.len() <= ts.len(),
            nested <= expressions.len(),
            expressions@.map_values(|t: Token| t@) == ts.take(expressions.len() as int),
            closing_brace(ts, 0, 1) == closing_brace(
                ts,
                expressions.len() as int,
                (nested + 1) as nat,
            ),
            !closed ==> stream@ == ts.skip(expressions.len() as int),
            closed ==> expressions.len() < ts.len() && closing_brace(ts, 0, 1)
                == expressions.len() && stream@ == ts.skip(expressions.len() + 1),
            expressions.len() > 0 ==> last_is_semicolon == (ts[expressions.len() - 1].kind
                is Semicolon),
        decreases ts.len() - expressions.len() + (if closed { 0int } else { 1 }),
    {
        let ghost before = stream@;
        let ghost done = expressions@.map_values(|t: Token| t@);
        let n = expressions.len();
        match stream.next() {
            None => {
                return Err(ParseError::TokenNotFound);
            },
            Some(t) => {
                proof {
                    assert(before[0] == ts[n as int]);
                    assert(before.drop_first() == ts.skip(n + 1));
                    assert(ts.take(n + 1) == ts.take(n as int).push(t@));
                    assert(expressions@.push(t).map_values(|t: Token| t@) == done.push(t@));
                }
                match t.kind {
                    TokenKind::OpenCurlyBracket => {
                        nested += 1;
                        last_is_semicolon = false;
                        expressions.push_back(t);
                    },
                    TokenKind::ClosedCurlyBracket => {
                        if nested == 0 {
                            closed = true;
                        } else {
                            nested -= 1;
                            last_is_semicolon = false;
                            expressions.push_back(t);
                        }
                    },
                    TokenKind::Semicolon => {
                        last_is_semicolon = true;
                        expressions.push_back(t);
                    },
                    _ => {
                        last_is_semicolon = false;
                        expressions.push_back(t);
                    },
                }
            },
        }
    }
    let implicit_return = expressions.len() > 0 && !last_is_semicolon;
    let mut inner = TokenStream::new(expressions);
    match Parser::parse_stream(&mut inner) {
        Err(e) => Err(e),
        Ok(nodes) => Ok((nodes, implicit_return)),
    }
}

} // verus!
