use vstd::prelude::*;
use crate::lexer::token::{Operator, TokenKind, TokenView};
use crate::lexer::token_stream::TokenStream;
use crate::parser::ast::{AstNode, AstNodeView, Expr, ExprView};
use crate::parser::grammar::{value_of, word};
use crate::parser::parser::{ParseError, Parser};
use crate::parser::parsers::sentence::parse_sentence;

verus! {

/// Parses the right-hand side of a declaration or an assignment: one
/// statement that is an expression, and not a bare word.
pub fn parse_value(stream: &mut TokenStream) -> (r: Result<Expr, ParseError>)
    ensures
        match r {
            Ok(e) => value_of(old(stream)@) == Ok::<_, ParseError>((e@, final(stream)@))
                && final(stream)@.len() < old(stream)@.len(),
            Err(e) => value_of(old(stream)@) == Err::<(ExprView, Seq<TokenView>), _>(e),
        },
    decreases old(stream)@.len(), 2nat,
{
    match Parser::parse_single(stream) {
        Err(e) => Err(e),
        Ok(AstNode::Cmd(_)) => Err(ParseError::UnexpectedToken),
        Ok(AstNode::Expr(e)) => {
            if matches!(e, Expr::Word(_)) {
                Err(ParseError::MustBeExpr)
            } else {
                Ok(e)
            }
        },
    }
}

/// Parses what the word `inner`, already taken from the stream, begins.
pub fn parse_word(stream: &mut TokenStream, inner: String) -> (r: Result<AstNode, ParseError>)
    ensures
        match r {
            Ok(node) => word(old(stream)@, inner@) == Ok::<_, ParseError>((node@, final(stream)@))
                && final(stream)@.len() <= old(stream)@.len(),
            Err(e) => word(old(stream)@, inner@) == Err::<(AstNodeView, Seq<TokenView>), _>(e),
        },
    decreases old(stream)@.len(), 0nat,
{
    let at_semicolon = match stream.peek() {
        Some(t) => matches!(t.kind, TokenKind::Semicolon),
        None => false,
    };
    if at_semicolon {
        stream.next();
    }
    let at_equal = match stream.peek() {
        Some(t) => matches!(t.kind, TokenKind::Operator(Operator::Equal)),
        None => false,
    };
    if at_equal {
        stream.next();
        match parse_value(stream) {
            Err(e) => Err(e),
            Ok(e) => Ok(AstNode::Expr(Expr::VariableAssigment { name: inner, value: Box::new(e) })),
        }
    } else {
        parse_sentence(inner)
    }
}

} // verus!
