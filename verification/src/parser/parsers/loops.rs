use vstd::prelude::*;
use crate::lexer::token::{TokenKind, TokenKindView, TokenView};
use crate::lexer::token_stream::TokenStream;
use crate::parser::ast::{lemma_body_view, AstNode, Expr, ExprView};
use crate::parser::grammar::{first_of, repetition};
use crate::parser::parser::{ParseError, Parser};
use crate::parser::parsers::body::parse_body;

verus! {

/// Parses what stands behind `while`: a condition and a body in braces.
pub fn parse_while(stream: &mut TokenStream) -> (r: Result<Expr, ParseError>)
    ensures
        match r {
            Ok(e) => repetition(old(stream)@) == Ok::<_, ParseError>((e@, final(stream)@))
                && final(stream)@.len() < old(stream)@.len(),
            Err(e) => repetition(old(stream)@) == Err::<(ExprView, Seq<TokenView>), _>(e),
        },
    decreases old(stream)@.len(), 3nat,
{
    let ghost ts = stream@;
    let ghost open = first_of(ts, TokenKindView::OpenCurlyBracket);
    let mut tokens = stream.take_before(&TokenKind::OpenCurlyBracket);
    match tokens.peek() {
        None => {
            return Err(ParseError::UnexpectedToken);
        },
        Some(t) => {
            if matches!(t.kind, TokenKind::Word(_)) {
                return Err(ParseError::MustBeExpr);
            }
        },
    }
    if stream.next().is_none() {
        return Err(ParseError::TokenNotFound);
    }
    proof {
        assert(ts.skip(open).drop_first() == ts.skip(open + 1));
    }
    let cond = match Parser::parse_single(&mut tokens) {
        Err(e) => {
            return Err(e);
        },
        Ok(node) => node,
    };
    let body = match parse_body(stream) {
        Err(e) => {
            return Err(e);
        },
        Ok(parsed) => parsed.0,
    };
    match cond {
        AstNode::Expr(condition) => {
            let parsed = Expr::While { condition: Box::new(condition), body };
            proof {
                lemma_body_view(parsed);
            }
            Ok(parsed)
        },
        AstNode::Cmd(_) => Err(ParseError::UnexpectedToken),
    }
}

} // verus!
