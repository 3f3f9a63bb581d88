use vstd::prelude::*;
use crate::lexer::token::{Operator, TokenKind, TokenView};
use crate::lexer::token_stream::TokenStream;
use crate::parser::ast::{Expr, ExprView};
use crate::parser::grammar::declaration;
use crate::parser::parser::ParseError;
use crate::parser::parsers::word::parse_value;

verus! {

/// Parses what stands behind `let`: a word, `=`, a value and `;`.
pub fn parse_variable_assignment(stream: &mut TokenStream) -> (r: Result<Expr, ParseError>)
    ensures
        match r {
            Ok(e) => declaration(old(stream)@) == Ok::<_, ParseError>((e@, final(stream)@))
                && final(stream)@.len() < old(stream)@.len(),
            Err(e) => declaration(old(stream)@) == Err::<(ExprView, Seq<TokenView>), _>(e),
        },
    decreases old(stream)@.len(), 0nat,
{
    let ghost ts = stream@;
    let name = match stream.next() {
        Some(t) => match t.kind {
            TokenKind::Word(name) => name,
            _ => {
                return Err(ParseError::UnexpectedToken);
            },
        },
        None => {
            return Err(ParseError::UnexpectedToken);
        },
    };
    match stream.expect(TokenKind::Operator(Operator::Equal)) {
        Err(e) => {
            return Err(e);
        },
        Ok(()) => {},
    }
    proof {
        assert(stream@ == ts.skip(2));
    }
    let value = match parse_value(stream) {
        Err(e) => {
            return Err(e);
        },
        Ok(e) => e,
    };
    match stream.expect(TokenKind::Semicolon) {
        Err(e) => Err(e),
        Ok(()) => Ok(Expr::VariableDeclaration { name, value: Box::new(value) }),
    }
}

} // verus!
