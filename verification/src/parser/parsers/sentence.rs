use vstd::prelude::*;
use crate::lexer::lexer::{Lexer, LexerError};
use crate::lexer::token::{TokenKind, TokenView};
use crate::lexer::token_stream::TokenStream;
use crate::parser::ast::{AstNode, Cmd, Expr};
use crate::parser::grammar::{phrase, phrase_of, text_of};
use crate::parser::parser::ParseError;

verus! {

/// The text that a token of a command line stands for.
pub fn token_text(kind: TokenKind) -> (r: String)
    ensures
        r@ == text_of(kind@),
{
    match kind {
        TokenKind::Word(w) => w,
        TokenKind::String(s) => s,
        _ => String::new(),
    }
}

/// Splits a word or a sentence on white space and quotes. One part is a
/// reference to a variable or a command; more parts are a command and its
/// arguments.
pub fn parse_sentence(inner: String) -> (r: Result<AstNode, ParseError>)
    ensures
        match r {
            Ok(node) => phrase(inner@) == Ok::<_, ParseError>(node@),
            Err(e) => phrase(inner@) == Err::<crate::parser::ast::AstNodeView, _>(e),
        },
{
    command_of(Lexer::parse_strings(inner.as_str()))
}

/// The value of the result of splitting.
pub open spec fn parts_view(parts: Result<TokenStream, LexerError>) -> Result<
    Seq<TokenView>,
    LexerError,
> {
    match parts {
        Ok(stream) => Ok(stream@),
        Err(e) => Err(e),
    }
}

/// Makes a statement of the parts that a word or a sentence was split into.
pub fn command_of(parts: Result<TokenStream, LexerError>) -> (r: Result<AstNode, ParseError>)
    ensures
        match r {
            Ok(node) => phrase_of(parts_view(parts)) == Ok::<_, ParseError>(node@),
            Err(e) => phrase_of(parts_view(parts)) == Err::<crate::parser::ast::AstNodeView, _>(e),
        },
{
    let mut tokens = match parts {
        Ok(t) => t,
        Err(_) => {
            return Err(ParseError::UnexpectedToken);
        },
    };
    let ghost parts = tokens@;
    let first = match tokens.next() {
        Some(t) => token_text(t.kind),
        None => {
            return Err(ParseError::UnexpectedToken);
        },
    };
    if tokens.len() == 0 {
        return Ok(AstNode::Expr(Expr::Word(first)));
    }
    let mut args: Vec<String> = Vec::new();
    let ghost wanted = parts.skip(1).map_values(|t: TokenView| text_of(t.kind));
    proof {
        assert(tokens@ == parts.skip(1));
    }
    while tokens.len() > 0
        invariant
            parts.len() >= 1,
            wanted == parts.skip(1).map_values(|t: TokenView| text_of(t.kind)),
            args.len() + tokens@.len() == parts.len() - 1,
            tokens@ == parts.skip(1 + args.len()),
            args@.map_values(|s: String| s@) == wanted.take(args.len() as int),
        decreases tokens@.len(),
    {
        let ghost done = args@.map_values(|s: String| s@);
        let t = tokens.next().unwrap();
        let text = token_text(t.kind);
        proof {
            assert(parts.skip(1 + args.len()).drop_first() == parts.skip(2 + args.len()));
            assert(args@.push(text).map_values(|s: String| s@) == done.push(text@));
            assert(wanted.take(args.len() + 1) == wanted.take(args.len() as int).push(text@));
        }
        args.push(text);
    }
    proof {
        assert(wanted.take(args.len() as int) == wanted);
    }
    Ok(AstNode::Cmd(Cmd { name: first, args }))
}

} // verus!
