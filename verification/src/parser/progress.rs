use vstd::prelude::*;
use crate::lexer::token::{Keyword, Operator, TokenKindView, TokenView};
use crate::parser::grammar::{
    alternatives,
    body,
    branch,
    cascade,
    declaration,
    first_of,
    is_arithmetic,
    lemma_closing_brace_bounds,
    lemma_first_of_bounds,
    otherwise,
    repetition,
    single,
    value_of,
    window,
    word,
};

verus! {

/// A statement takes at least one token: fewer tokens are behind it than
/// there were.
pub proof fn lemma_single_consumes(ts: Seq<TokenView>)
    ensures
        single(ts) matches Ok((_, rest)) ==> rest.len() < ts.len(),
    decreases ts.len(), 1nat,
{
    if ts.len() > 0 {
        let rest = ts.drop_first();
        match ts[0].kind {
            TokenKindView::Keyword(Keyword::If) => lemma_cascade_consumes(rest),
            TokenKindView::Keyword(Keyword::While) => lemma_repetition_consumes(rest),
            TokenKindView::Keyword(Keyword::Let) => lemma_declaration_consumes(rest),
            other => {
                if is_arithmetic(ts) {
                    lemma_first_of_bounds(ts, TokenKindView::Semicolon);
                    assert(window(ts).len() == first_of(ts, TokenKindView::Semicolon));
                } else {
                    match other {
                        TokenKindView::Word(name) => lemma_word_consumes(rest, name),
                        _ => {},
                    }
                }
            },
        }
    }
}

/// The right-hand side of a declaration or an assignment takes at least one token.
pub proof fn lemma_value_consumes(ts: Seq<TokenView>)
    ensures
        value_of(ts) matches Ok((_, rest)) ==> rest.len() < ts.len(),
    decreases ts.len(), 2nat,
{
    lemma_single_consumes(ts);
}

/// What a word begins leaves no more tokens than there were behind the word.
pub proof fn lemma_word_consumes(ts: Seq<TokenView>, name: Seq<char>)
    ensures
        word(ts, name) matches Ok((_, rest)) ==> rest.len() <= ts.len(),
    decreases ts.len(), 0nat,
{
    let rest = if ts.len() > 0 && ts[0].kind is Semicolon {
        ts.drop_first()
    } else {
        ts
    };
    if rest.len() > 0 && rest[0].kind == TokenKindView::Operator(Operator::Equal) {
        lemma_value_consumes(rest.drop_first());
    }
}

/// A declaration takes at least the word, `=`, a value and `;`.
pub proof fn lemma_declaration_consumes(ts: Seq<TokenView>)
    ensures
        declaration(ts) matches Ok((_, rest)) ==> rest.len() < ts.len(),
    decreases ts.len(), 0nat,
{
    if ts.len() >= 2 {
        lemma_value_consumes(ts.skip(2));
    }
}

/// A body takes at least its closing brace.
pub proof fn lemma_body_consumes(ts: Seq<TokenView>)
    ensures
        body(ts) matches Ok((_, rest)) ==> rest.len() < ts.len(),
{
    lemma_closing_brace_bounds(ts, 0, 1);
}

/// A branch takes at least its two braces.
pub proof fn lemma_branch_consumes(ts: Seq<TokenView>)
    ensures
        branch(ts) matches Ok((_, rest)) ==> rest.len() < ts.len(),
{
    lemma_first_of_bounds(ts, TokenKindView::OpenCurlyBracket);
    let open = first_of(ts, TokenKindView::OpenCurlyBracket);
    if 0 <= open < ts.len() {
        lemma_body_consumes(ts.skip(open + 1));
    }
}

/// The branch behind `else` takes at least its two braces.
pub proof fn lemma_otherwise_consumes(ts: Seq<TokenView>)
    ensures
        otherwise(ts) matches Ok((_, rest)) ==> rest.len() < ts.len(),
{
    lemma_first_of_bounds(ts, TokenKindView::OpenCurlyBracket);
    let open = first_of(ts, TokenKindView::OpenCurlyBracket);
    if 0 <= open < ts.len() {
        lemma_body_consumes(ts.skip(open + 1));
    }
}

/// The branches that follow a branch leave no more tokens than there were.
pub proof fn lemma_alternatives_consume(ts: Seq<TokenView>)
    ensures
        alternatives(ts) matches Ok((_, rest)) ==> rest.len() <= ts.len(),
    decreases ts.len(),
{
    if ts.len() > 0 && ts[0].kind == TokenKindView::Keyword(Keyword::Elseif) {
        lemma_branch_consumes(ts.drop_first());
        match branch(ts.drop_first()) {
            Ok((_, rest)) => lemma_alternatives_consume(rest),
            Err(_) => {},
        }
    } else if ts.len() > 0 && ts[0].kind == TokenKindView::Keyword(Keyword::Else) {
        lemma_otherwise_consumes(ts.drop_first());
    }
}

/// A conditional takes at least the two braces of its first branch.
pub proof fn lemma_cascade_consumes(ts: Seq<TokenView>)
    ensures
        cascade(ts) matches Ok((_, rest)) ==> rest.len() < ts.len(),
{
    lemma_branch_consumes(ts);
    match branch(ts) {
        Ok((_, rest)) => lemma_alternatives_consume(rest),
        Err(_) => {},
    }
}

/// A loop takes at least its condition and the two braces of its body.
pub proof fn lemma_repetition_consumes(ts: Seq<TokenView>)
    ensures
        repetition(ts) matches Ok((_, rest)) ==> rest.len() < ts.len(),
{
    lemma_first_of_bounds(ts, TokenKindView::OpenCurlyBracket);
    let open = first_of(ts, TokenKindView::OpenCurlyBracket);
    if 0 <= open < ts.len() {
        lemma_body_consumes(ts.skip(open + 1));
    }
}

} // verus!
