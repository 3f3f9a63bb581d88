use vstd::prelude::*;
use crate::executor::primitives::{BoolPrimitive, FloatPrimitive, IntPrimitive, StringPrimitive};
use crate::lexer::token::{Keyword, TokenKind, TokenView};
use crate::lexer::token_stream::TokenStream;
use crate::parser::ast::{nodes_view, AstNode, AstNodeView, Program};
use crate::parser::grammar::{single, statements};
use crate::parser::parsers::cascade::parse_if;
use crate::parser::parsers::loops::parse_while;
use crate::parser::parsers::math::{is_arithmetic, parse_math};
use crate::parser::parsers::sentence::parse_sentence;
use crate::parser::parsers::variable::parse_variable_assignment;
use crate::parser::parsers::word::parse_word;

verus! {

/// Why a token sequence is not a program.
#[derive(Debug, PartialEq, Eq, Clone, Copy, Structural)]
pub enum ParseError {
    /// The tokens do not fit the grammar.
    UnexpectedToken,
    /// A token that the grammar asks for is not there.
    TokenNotFound,
    /// A bare word stands where only an expression may.
    MustBeExpr,
}

/// `nodes` in front of what `rest` holds; the error of `rest` where it is one.
pub open spec fn with_nodes(
    nodes: Seq<AstNodeView>,
    rest: Result<Seq<AstNodeView>, ParseError>,
) -> Result<Seq<AstNodeView>, ParseError> {
    match rest {
        Ok(more) => Ok(nodes + more),
        Err(e) => Err(e),
    }
}

/// Parses token streams.
pub struct Parser;

impl Parser {
    /// Parses a whole token stream.
    pub fn parse(stream: TokenStream) -> (r: Result<Program, ParseError>)
        ensures
            match r {
                Ok(program) => statements(stream@) == Ok::<_, ParseError>(program@),
                Err(e) => statements(stream@) == Err::<Seq<AstNodeView>, _>(e),
            },
    {
        let mut stream = stream;
        match Self::parse_stream(&mut stream) {
            Ok(ast) => Ok(Program { ast }),
            Err(e) => Err(e),
        }
    }

    /// Parses the statements of `stream` one after another.
    pub fn parse_stream(stream: &mut TokenStream) -> (r: Result<Vec<AstNode>, ParseError>)
        ensures
            match r {
                Ok(nodes) => statements(old(stream)@) == Ok::<_, ParseError>(nodes_view(nodes@))
                    && final(stream)@.len() == 0,
                Err(e) => statements(old(stream)@) == Err::<Seq<AstNodeView>, _>(e),
            },
        decreases old(stream)@.len(), 2nat,
    {
        let ghost ts = stream@;
        let mut ast: Vec<AstNode> = Vec::new();
        proof {
            assert(nodes_view(ast@) == Seq::<AstNodeView>::empty());
            match statements(ts) {
                Ok(more) => {
                    assert(Seq::<AstNodeView>::empty() + more == more);
                },
                Err(_) => {},
            }
        }
        while stream.len() > 0
            invariant
                ts == old(stream)@,
                stream@.len() <= ts.len(),
                statements(ts) == with_nodes(nodes_view(ast@), statements(stream@)),
            decreases stream@.len(),
        {
            let ghost done = nodes_view(ast@);
            let at_semicolon = match stream.peek() {
                Some(t) => matches!(t.kind, TokenKind::Semicolon),
                None => false,
            };
            if at_semicolon {
                stream.next();
                continue ;
            }
            match Self::parse_single(stream) {
                Err(e) => {
                    return Err(e);
                },
                Ok(node) => {
                    proof {
                        assert(nodes_view(ast@.push(node)) == done.push(node@));
                        match statements(stream@) {
                            Ok(more) => {
                                assert(done + (seq![node@] + more) == done.push(node@) + more);
                            },
                            Err(_) => {},
                        }
                    }
                    ast.push(node);
                },
            }
        }
        proof {
            assert(nodes_view(ast@) + Seq::<AstNodeView>::empty() == nodes_view(ast@));
        }
        Ok(ast)
    }

    /// Parses the statement at the front of `stream`.
    pub fn parse_single(stream: &mut TokenStream) -> (r: Result<AstNode, ParseError>)
        ensures
            match r {
                Ok(node) => single(old(stream)@) == Ok::<_, ParseError>((node@, final(stream)@))
                    && final(stream)@.len() < old(stream)@.len(),
                Err(e) => single(old(stream)@) == Err::<(AstNodeView, Seq<TokenView>), _>(e),
            },
        decreases old(stream)@.len(), 1nat,
    {
        let ghost ts = stream@;
        let arithmetic = is_arithmetic(stream);
        let token = match stream.next() {
            Some(t) => t,
            None => {
                return Err(ParseError::UnexpectedToken);
            },
        };
        let keyword = match token.kind {
            TokenKind::Keyword(Keyword::If) => 1u8,
            TokenKind::Keyword(Keyword::While) => 2u8,
            TokenKind::Keyword(Keyword::Let) => 3u8,
            _ => 0u8,
        };
        if keyword == 1 {
            return match parse_if(stream) {
                Ok(e) => Ok(AstNode::Expr(e)),
                Err(e) => Err(e),
            };
        }
        if keyword == 2 {
            return match parse_while(stream) {
                Ok(e) => Ok(AstNode::Expr(e)),
                Err(e) => Err(e),
            };
        }
        if keyword == 3 {
            return match parse_variable_assignment(stream) {
                Ok(e) => Ok(AstNode::Expr(e)),
                Err(e) => Err(e),
            };
        }
        if arithmetic {
            proof {
                assert(seq![token@] + ts.drop_first() == ts);
                crate::parser::grammar::lemma_first_of_bounds(
                    ts,
                    crate::lexer::token::TokenKindView::Semicolon,
                );
            }
            return Ok(AstNode::Expr(parse_math(token, stream)));
        }
        match token.kind {
            TokenKind::Word(s) => parse_word(stream, s),
            TokenKind::Sentence(s) => parse_sentence(s),
            TokenKind::Int(i) => Ok(AstNode::Expr(IntPrimitive::from_value_to_expr(i))),
            TokenKind::Float(f) => Ok(AstNode::Expr(FloatPrimitive::from_literal_to_expr(f))),
            TokenKind::String(s) => Ok(AstNode::Expr(StringPrimitive::from_value_to_expr(s))),
            TokenKind::Bool(b) => Ok(AstNode::Expr(BoolPrimitive::from_value_to_expr(b))),
            _ => Err(ParseError::UnexpectedToken),
        }
    }
}

} // verus!
