use vstd::prelude::*;
use crate::executor::primitives::BoolPrimitive;
use crate::lexer::token::{Keyword, TokenKind, TokenKindView, TokenView};
use crate::lexer::token_stream::TokenStream;
use crate::parser::ast::{
    lemma_body_view,
    lemma_branch_view,
    AstNode,
    Expr,
    ExprView,
    IfCondition,
    IfConditionView,
};
use crate::parser::grammar::{alternatives, branch, cascade, first_of, otherwise};
use crate::parser::parser::{ParseError, Parser};
use crate::parser::parsers::body::parse_body;

verus! {

/// Parses one branch: a condition, which may be absent and is then true,
/// and a body in braces.
pub fn parse_branch(stream: &mut TokenStream) -> (r: Result<IfCondition, ParseError>)
    ensures
        match r {
            Ok(b) => branch(old(stream)@) == Ok::<_, ParseError>((b@, final(stream)@))
                && final(stream)@.len() < old(stream)@.len(),
            Err(e) => branch(old(stream)@) == Err::<(IfConditionView, Seq<TokenView>), _>(e),
        },
    decreases old(stream)@.len(), 3nat,
{
    let ghost ts = stream@;
    let ghost open = first_of(ts, TokenKindView::OpenCurlyBracket);
    let mut tokens = stream.take_before(&TokenKind::OpenCurlyBracket);
    let begins_with_word = match tokens.peek() {
        Some(t) => matches!(t.kind, TokenKind::Word(_)),
        None => false,
    };
    if begins_with_word {
        return Err(ParseError::MustBeExpr);
    }
    if stream.next().is_none() {
        return Err(ParseError::TokenNotFound);
    }
    proof {
        assert(ts.skip(open).drop_first() == ts.skip(open + 1));
    }
    let (body, implicit_return) = match parse_body(stream) {
        Err(e) => {
            return Err(e);
        },
        Ok(parsed) => parsed,
    };
    let condition = if tokens.len() == 0 {
        Expr::Bool(BoolPrimitive::new(true))
    } else {
        match Parser::parse_single(&mut tokens) {
            Ok(AstNode::Expr(e)) => e,
            _ => {
                return Err(ParseError::UnexpectedToken);
            },
        }
    };
    let parsed = IfCondition { condition: Box::new(condition), body, implicit_return };
    proof {
        lemma_branch_view(parsed);
    }
    Ok(parsed)
}

/// Parses the branch behind `else`: a body in braces. What stands before
/// the opening brace is passed over.
pub fn parse_otherwise(stream: &mut TokenStream) -> (r: Result<IfCondition, ParseError>)
    ensures
        match r {
            Ok(b) => otherwise(old(stream)@) == Ok::<_, ParseError>((b@, final(stream)@))
                && final(stream)@.len() < old(stream)@.len(),
            Err(e) => otherwise(old(stream)@) == Err::<(IfConditionView, Seq<TokenView>), _>(e),
        },
    decreases old(stream)@.len(), 1nat,
{
    let ghost ts = stream@;
    let ghost open = first_of(ts, TokenKindView::OpenCurlyBracket);
    let _ = stream.take_before(&TokenKind::OpenCurlyBracket);
    if stream.next().is_none() {
        return Err(ParseError::TokenNotFound);
    }
    proof {
        assert(ts.skip(open).drop_first() == ts.skip(open + 1));
    }
    let (body, implicit_return) = match parse_body(stream) {
        Err(e) => {
            return Err(e);
        },
        Ok(parsed) => parsed,
    };
    let parsed = IfCondition {
        condition: Box::new(Expr::Bool(BoolPrimitive::new(true))),
        body,
        implicit_return,
    };
    proof {
        lemma_branch_view(parsed);
    }
    Ok(parsed)
}

/// The values of a list of branches.
pub open spec fn branches_view(branches: Seq<IfCondition>) -> Seq<IfConditionView> {
    branches.map_values(|c: IfCondition| c@)
}

/// Parses the branches that follow a branch: one for each `elif`, and
/// the one of an `else` if there is one.
pub fn parse_alternatives(stream: &mut TokenStream) -> (r: Result<Vec<IfCondition>, ParseError>)
    ensures
        match r {
            Ok(more) => alternatives(old(stream)@) == Ok::<_, ParseError>(
                (branches_view(more@), final(stream)@),
            ) && final(stream)@.len() <= old(stream)@.len(),
            Err(e) => alternatives(old(stream)@) == Err::<
                (Seq<IfConditionView>, Seq<TokenView>),
                _,
            >(e),
        },
    decreases old(stream)@.len(), 0nat,
{
    let next = match stream.peek() {
        Some(t) => match t.kind {
            TokenKind::Keyword(Keyword::Elseif) => 1u8,
            TokenKind::Keyword(Keyword::Else) => 2u8,
            _ => 0u8,
        },
        None => 0u8,
    };
    if next == 1 {
        stream.next();
        let b = match parse_branch(stream) {
            Err(e) => {
                return Err(e);
            },
            Ok(b) => b,
        };
        let mut more = match parse_alternatives(stream) {
            Err(e) => {
                return Err(e);
            },
            Ok(more) => more,
        };
        let ghost tail = branches_view(more@);
        more.insert(0, b);
        proof {
            assert(branches_view(more@) == seq![b@] + tail);
        }
        Ok(more)
    } else if next == 2 {
        stream.next();
        match parse_otherwise(stream) {
            Err(e) => Err(e),
            Ok(b) => {
                let more = vec![b];
                proof {
                    assert(branches_view(more@) == seq![b@]);
                }
                Ok(more)
            },
        }
    } else {
        let more: Vec<IfCondition> = Vec::new();
        proof {
            assert(branches_view(more@) == Seq::<IfConditionView>::empty());
        }
        Ok(more)
    }
}

/// Parses what stands behind `if`: a branch, then one more for each `elif`
/// that follows, then the one of an `else` if there is one.
pub fn parse_if(stream: &mut TokenStream) -> (r: Result<Expr, ParseError>)
    ensures
        match r {
            Ok(e) => cascade(old(stream)@) == Ok::<_, ParseError>((e@, final(stream)@))
                && final(stream)@.len() < old(stream)@.len(),
            Err(e) => cascade(old(stream)@) == Err::<(ExprView, Seq<TokenView>), _>(e),
        },
    decreases old(stream)@.len(), 4nat,
{
    let first = match parse_branch(stream) {
        Err(e) => {
            return Err(e);
        },
        Ok(b) => b,
    };
    let mut conditions = match parse_alternatives(stream) {
        Err(e) => {
            return Err(e);
        },
        Ok(more) => more,
    };
    let ghost tail = branches_view(conditions@);
    conditions.insert(0, first);
    proof {
        assert(branches_view(conditions@) == seq![first@] + tail);
    }
    let parsed = Expr::If { conditions };
    proof {
        lemma_body_view(parsed);
    }
    Ok(parsed)
}

} // verus!
