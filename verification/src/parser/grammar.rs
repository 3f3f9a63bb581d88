use vstd::prelude::*;
use crate::executor::primitives::DecimalView;
use crate::lexer::lexer::tokenize_words;
use crate::lexer::token::{Keyword, Operator, TokenKindView, TokenView};
use crate::parser::ast::{AstNodeView, CmdView, ExprView, IfConditionView};
use crate::parser::parser::ParseError;

verus! {

/// What parsing one construct gives: its value and the tokens behind it.
pub type Parsed<T> = Result<(T, Seq<TokenView>), ParseError>;

/// The index of the first token of the given kind, or the length of `ts`.
pub open spec fn first_of(ts: Seq<TokenView>, kind: TokenKindView) -> int
    decreases ts.len(),
{
    if ts.len() == 0 || ts[0].kind == kind {
        0
    } else {
        1 + first_of(ts.drop_first(), kind)
    }
}

/// The tokens of the statement that `ts` begins with: those before the first `;`.
pub open spec fn window(ts: Seq<TokenView>) -> Seq<TokenView> {
    ts.take(first_of(ts, TokenKindView::Semicolon))
}

/// Whether a token may stand in arithmetic: a number, a word, a round
/// bracket, or an operator other than `=`.
pub open spec fn math_like(kind: TokenKindView) -> bool {
    match kind {
        TokenKindView::Int(_) => true,
        TokenKindView::Float(_) => true,
        TokenKindView::Word(_) => true,
        TokenKindView::OpenBracket => true,
        TokenKindView::ClosedBracket => true,
        TokenKindView::Operator(op) => op != Operator::Equal,
        _ => false,
    }
}

/// Whether the statement that `ts` begins with is arithmetic: more than two
/// tokens stand before the next `;`, and each of them may stand in arithmetic.
pub open spec fn is_arithmetic(ts: Seq<TokenView>) -> bool {
    let w = window(ts);
    w.len() > 2 && forall|i: int| 0 <= i < w.len() ==> math_like(#[trigger] w[i].kind)
}

/// How tightly an operator binds. Tokens that are no arithmetic operator bind loosest.
pub open spec fn precedence(kind: TokenKindView) -> nat {
    match kind {
        TokenKindView::Operator(Operator::Plus) => 1,
        TokenKindView::Operator(Operator::Minus) => 1,
        TokenKindView::Operator(Operator::Multiply) => 2,
        TokenKindView::Operator(Operator::Divide) => 2,
        _ => 0,
    }
}

/// Whether a token is an operand of arithmetic.
pub open spec fn is_operand(kind: TokenKindView) -> bool {
    kind is Word || kind is String || kind is Int || kind is Float || kind is Bool
}

/// Moves operators from the top of `stack` to `output` while they bind at
/// least as tightly as `p`, and stops at a bracket.
pub open spec fn pop_operators(output: Seq<TokenView>, stack: Seq<TokenView>, p: nat) -> (
    Seq<TokenView>,
    Seq<TokenView>,
)
    decreases stack.len(),
{
    if stack.len() > 0 && stack.last().kind is Operator && p <= precedence(stack.last().kind) {
        pop_operators(output.push(stack.last()), stack.drop_last(), p)
    } else {
        (output, stack)
    }
}

/// Moves tokens from the top of `stack` to `output` down to the nearest
/// opening bracket, which is dropped.
pub open spec fn pop_to_bracket(output: Seq<TokenView>, stack: Seq<TokenView>) -> (
    Seq<TokenView>,
    Seq<TokenView>,
)
    decreases stack.len(),
{
    if stack.len() == 0 {
        (output, stack)
    } else if stack.last().kind is OpenBracket {
        (output, stack.drop_last())
    } else {
        pop_to_bracket(output.push(stack.last()), stack.drop_last())
    }
}

/// The shunting yard: reads `ts` from `i` on with the output and the
/// operator stack built so far, and gives the tokens in postfix order.
/// Operators of equal precedence associate to the left; brackets group and
/// do not appear in the result; tokens that are neither operand, operator
/// nor round bracket are passed over.
pub open spec fn shunt(ts: Seq<TokenView>, i: int, output: Seq<TokenView>, stack: Seq<TokenView>) -> Seq<
    TokenView,
>
    decreases ts.len() - i,
{
    if i < 0 || i >= ts.len() {
        output + stack.reverse()
    } else {
        let t = ts[i];
        if is_operand(t.kind) {
            shunt(ts, i + 1, output.push(t), stack)
        } else if t.kind is Operator {
            let (out, st) = pop_operators(output, stack, precedence(t.kind));
            shunt(ts, i + 1, out, st.push(t))
        } else if t.kind is OpenBracket {
            shunt(ts, i + 1, output, stack.push(t))
        } else if t.kind is ClosedBracket {
            let (out, st) = pop_to_bracket(output, stack);
            shunt(ts, i + 1, out, st)
        } else {
            shunt(ts, i + 1, output, stack)
        }
    }
}

/// The tokens of an infix expression in postfix order.
pub open spec fn postfix(ts: Seq<TokenView>) -> Seq<TokenView> {
    shunt(ts, 0, Seq::empty(), Seq::empty())
}

/// The index at or after `i` of the `}` that closes a body in which `depth`
/// braces are open at `i`, or the length of `ts` where none does.
pub open spec fn closing_brace(ts: Seq<TokenView>, i: int, depth: nat) -> int
    decreases ts.len() - i,
{
    if i < 0 || i >= ts.len() {
        ts.len() as int
    } else if ts[i].kind is OpenCurlyBracket {
        closing_brace(ts, i + 1, depth + 1)
    } else if ts[i].kind is ClosedCurlyBracket {
        if depth <= 1 {
            i
        } else {
            closing_brace(ts, i + 1, (depth - 1) as nat)
        }
    } else {
        closing_brace(ts, i + 1, depth)
    }
}

/// The text that a token of a command line stands for.
pub open spec fn text_of(kind: TokenKindView) -> Seq<char> {
    match kind {
        TokenKindView::Word(w) => w,
        TokenKindView::String(s) => s,
        _ => Seq::empty(),
    }
}

/// What the parts of a word or a sentence are: one part is a reference
/// to a variable or a command, more parts are a command and its
/// arguments. Without parts, or where splitting failed, the tokens are
/// unexpected.
pub open spec fn phrase_of(parts: Result<Seq<TokenView>, crate::lexer::lexer::LexerError>) -> Result<
    AstNodeView,
    ParseError,
> {
    match parts {
        Err(_) => Err(ParseError::UnexpectedToken),
        Ok(parts) => {
            if parts.len() == 0 {
                Err(ParseError::UnexpectedToken)
            } else if parts.len() == 1 {
                Ok(AstNodeView::Expr(ExprView::Word(text_of(parts[0].kind))))
            } else {
                Ok(
                    AstNodeView::Cmd(
                        CmdView {
                            name: text_of(parts[0].kind),
                            args: parts.skip(1).map_values(|t: TokenView| text_of(t.kind)),
                        },
                    ),
                )
            }
        },
    }
}

/// What a word or a sentence is once it is split on white space and quotes.
pub open spec fn phrase(text: Seq<char>) -> Result<AstNodeView, ParseError> {
    phrase_of(tokenize_words(text))
}

/// The statement that `ts` begins with.
pub open spec fn single(ts: Seq<TokenView>) -> Parsed<AstNodeView>
    decreases ts.len(), 1nat,
{
    if ts.len() == 0 {
        Err(ParseError::UnexpectedToken)
    } else {
        let rest = ts.drop_first();
        match ts[0].kind {
            TokenKindView::Keyword(Keyword::If) => as_statement(cascade(rest)),
            TokenKindView::Keyword(Keyword::While) => as_statement(repetition(rest)),
            TokenKindView::Keyword(Keyword::Let) => as_statement(declaration(rest)),
            other => {
                if is_arithmetic(ts) {
                    Ok(
                        (
                            AstNodeView::Expr(ExprView::Operation { stack: postfix(window(ts)) }),
                            ts.skip(first_of(ts, TokenKindView::Semicolon)),
                        ),
                    )
                } else {
                    match other {
                        TokenKindView::Word(name) => word(rest, name),
                        TokenKindView::Sentence(text) => match phrase(text) {
                            Ok(node) => Ok((node, rest)),
                            Err(e) => Err(e),
                        },
                        TokenKindView::Int(i) => Ok((AstNodeView::Expr(ExprView::Int(i)), rest)),
                        TokenKindView::Float(text) => Ok(
                            (AstNodeView::Expr(ExprView::Float(DecimalView::Written(text))), rest),
                        ),
                        TokenKindView::String(s) => Ok(
                            (AstNodeView::Expr(ExprView::String(s)), rest),
                        ),
                        TokenKindView::Bool(b) => Ok((AstNodeView::Expr(ExprView::Bool(b)), rest)),
                        _ => Err(ParseError::UnexpectedToken),
                    }
                }
            },
        }
    }
}

/// An expression as a statement.
pub open spec fn as_statement(parsed: Parsed<ExprView>) -> Parsed<AstNodeView> {
    match parsed {
        Ok((e, rest)) => Ok((AstNodeView::Expr(e), rest)),
        Err(e) => Err(e),
    }
}

/// The right-hand side of a declaration or an assignment: one statement
/// that is an expression, and not a bare word.
pub open spec fn value_of(ts: Seq<TokenView>) -> Parsed<ExprView>
    decreases ts.len(), 2nat,
{
    match single(ts) {
        Err(e) => Err(e),
        Ok((AstNodeView::Cmd(_), _)) => Err(ParseError::UnexpectedToken),
        Ok((AstNodeView::Expr(ExprView::Word(_)), _)) => Err(ParseError::MustBeExpr),
        Ok((AstNodeView::Expr(e), rest)) => Ok((e, rest)),
    }
}

/// What a word at the start of a statement is, given the tokens behind it:
/// with `=` next an assignment to the variable of that name, else what its
/// text says. A `;` right behind the word is passed over first.
pub open spec fn word(ts: Seq<TokenView>, name: Seq<char>) -> Parsed<AstNodeView>
    decreases ts.len(), 0nat,
{
    let rest = if ts.len() > 0 && ts[0].kind is Semicolon {
        ts.drop_first()
    } else {
        ts
    };
    if rest.len() > 0 && rest[0].kind == TokenKindView::Operator(Operator::Equal) {
        match value_of(rest.drop_first()) {
            Err(e) => Err(e),
            Ok((e, after)) => Ok(
                (AstNodeView::Expr(ExprView::VariableAssigment { name, value: Box::new(e) }), after),
            ),
        }
    } else {
        match phrase(name) {
            Ok(node) => Ok((node, rest)),
            Err(e) => Err(e),
        }
    }
}

/// What stands behind `let`: a word, `=`, a value and `;`.
pub open spec fn declaration(ts: Seq<TokenView>) -> Parsed<ExprView>
    decreases ts.len(), 0nat,
{
    if ts.len() == 0 || !(ts[0].kind is Word) {
        Err(ParseError::UnexpectedToken)
    } else if ts.len() < 2 || ts[1].kind != TokenKindView::Operator(Operator::Equal) {
        Err(ParseError::TokenNotFound)
    } else {
        match value_of(ts.skip(2)) {
            Err(e) => Err(e),
            Ok((e, rest)) => {
                if rest.len() == 0 || !(rest[0].kind is Semicolon) {
                    Err(ParseError::TokenNotFound)
                } else {
                    Ok(
                        (
                            ExprView::VariableDeclaration {
                                name: ts[0].kind->Word_0,
                                value: Box::new(e),
                            },
                            rest.drop_first(),
                        ),
                    )
                }
            },
        }
    }
}

/// The statements of `ts`; the `;` between them are passed over. Each
/// statement takes at least one token (`lemma_single_consumes`), so every
/// token is read.
pub open spec fn statements(ts: Seq<TokenView>) -> Result<Seq<AstNodeView>, ParseError>
    decreases ts.len(), 2nat,
{
    if ts.len() == 0 {
        Ok(Seq::empty())
    } else if ts[0].kind is Semicolon {
        statements(ts.drop_first())
    } else {
        match single(ts) {
            Err(e) => Err(e),
            Ok((node, rest)) => {
                if rest.len() >= ts.len() {
                    Err(ParseError::UnexpectedToken)
                } else {
                    match statements(rest) {
                        Err(e) => Err(e),
                        Ok(more) => Ok(seq![node] + more),
                    }
                }
            },
        }
    }
}

/// A body, read from behind its opening brace: the statements up to the
/// matching `}`, whether the last of them is the body's value (no `;` ends
/// the body), and the tokens behind the `}`.
pub open spec fn body(ts: Seq<TokenView>) -> Parsed<(Seq<AstNodeView>, bool)>
    decreases ts.len(), 0nat,
{
    let close = closing_brace(ts, 0, 1);
    if close < 0 || close >= ts.len() {
        Err(ParseError::TokenNotFound)
    } else {
        let inner = ts.take(close);
        match statements(inner) {
            Err(e) => Err(e),
            Ok(nodes) => Ok(
                ((nodes, inner.len() > 0 && !(inner.last().kind is Semicolon)), ts.skip(close + 1)),
            ),
        }
    }
}

/// The condition that `ts` holds whole: one statement that is an
/// expression. Whatever goes wrong, the tokens are unexpected.
pub open spec fn condition(ts: Seq<TokenView>) -> Result<ExprView, ParseError>
    decreases ts.len(), 2nat,
{
    match single(ts) {
        Ok((AstNodeView::Expr(e), _)) => Ok(e),
        _ => Err(ParseError::UnexpectedToken),
    }
}

/// One branch: a condition, which may be absent and is then true, and a
/// body in braces. A condition may not begin with a word.
pub open spec fn branch(ts: Seq<TokenView>) -> Parsed<IfConditionView>
    decreases ts.len(), 3nat,
{
    let open = first_of(ts, TokenKindView::OpenCurlyBracket);
    let tokens = ts.take(open);
    if tokens.len() > 0 && tokens[0].kind is Word {
        Err(ParseError::MustBeExpr)
    } else if open < 0 || open >= ts.len() {
        Err(ParseError::TokenNotFound)
    } else {
        match body(ts.skip(open + 1)) {
            Err(e) => Err(e),
            Ok(((nodes, implicit_return), rest)) => {
                if open == 0 {
                    Ok(
                        (
                            IfConditionView {
                                condition: ExprView::Bool(true),
                                body: nodes,
                                implicit_return,
                            },
                            rest,
                        ),
                    )
                } else {
                    match condition(tokens) {
                        Err(e) => Err(e),
                        Ok(e) => Ok(
                            (IfConditionView { condition: e, body: nodes, implicit_return }, rest),
                        ),
                    }
                }
            },
        }
    }
}

/// The branch behind `else`: a body in braces, taken whenever it is
/// reached. What stands before the opening brace is passed over: the
/// condition of this branch is true.
pub open spec fn otherwise(ts: Seq<TokenView>) -> Parsed<IfConditionView>
    decreases ts.len(), 1nat,
{
    let open = first_of(ts, TokenKindView::OpenCurlyBracket);
    if open < 0 || open >= ts.len() {
        Err(ParseError::TokenNotFound)
    } else {
        match body(ts.skip(open + 1)) {
            Err(e) => Err(e),
            Ok(((nodes, implicit_return), rest)) => Ok(
                (
                    IfConditionView { condition: ExprView::Bool(true), body: nodes, implicit_return },
                    rest,
                ),
            ),
        }
    }
}

/// The branches that follow a branch: each `elif` brings one more, an
/// `else` brings the last one. Each branch takes tokens
/// (`lemma_branch_consumes`), so all of them are read.
pub open spec fn alternatives(ts: Seq<TokenView>) -> Parsed<Seq<IfConditionView>>
    decreases ts.len(), 0nat,
{
    if ts.len() > 0 && ts[0].kind == TokenKindView::Keyword(Keyword::Elseif) {
        match branch(ts.drop_first()) {
            Err(e) => Err(e),
            Ok((b, rest)) => {
                if rest.len() >= ts.len() {
                    Err(ParseError::UnexpectedToken)
                } else {
                    match alternatives(rest) {
                        Err(e) => Err(e),
                        Ok((more, after)) => Ok((seq![b] + more, after)),
                    }
                }
            },
        }
    } else if ts.len() > 0 && ts[0].kind == TokenKindView::Keyword(Keyword::Else) {
        match otherwise(ts.drop_first()) {
            Err(e) => Err(e),
            Ok((b, rest)) => Ok((seq![b], rest)),
        }
    } else {
        Ok((Seq::empty(), ts))
    }
}

/// What stands behind `if`: a branch and its alternatives.
pub open spec fn cascade(ts: Seq<TokenView>) -> Parsed<ExprView>
    decreases ts.len(), 4nat,
{
    match branch(ts) {
        Err(e) => Err(e),
        Ok((first, rest)) => {
            if rest.len() > ts.len() {
                Err(ParseError::UnexpectedToken)
            } else {
                match alternatives(rest) {
                    Err(e) => Err(e),
                    Ok((more, after)) => Ok((ExprView::If { conditions: seq![first] + more }, after)),
                }
            }
        },
    }
}

/// What stands behind `while`: a condition, which may not begin with a
/// word, and a body in braces.
pub open spec fn repetition(ts: Seq<TokenView>) -> Parsed<ExprView>
    decreases ts.len(), 3nat,
{
    let open = first_of(ts, TokenKindView::OpenCurlyBracket);
    let tokens = ts.take(open);
    if tokens.len() == 0 {
        Err(ParseError::UnexpectedToken)
    } else if tokens[0].kind is Word {
        Err(ParseError::MustBeExpr)
    } else if open < 0 || open >= ts.len() {
        Err(ParseError::TokenNotFound)
    } else {
        match single(tokens) {
            Err(e) => Err(e),
            Ok((node, _)) => match body(ts.skip(open + 1)) {
                Err(e) => Err(e),
                Ok(((nodes, _), rest)) => match node {
                    AstNodeView::Expr(e) => Ok(
                        (ExprView::While { condition: Box::new(e), body: nodes }, rest),
                    ),
                    AstNodeView::Cmd(_) => Err(ParseError::UnexpectedToken),
                },
            },
        }
    }
}

/// The first token of a kind lies within the tokens or at their end, and
/// no token before it is of that kind.
pub proof fn lemma_first_of_bounds(ts: Seq<TokenView>, kind: TokenKindView)
    ensures
        0 <= first_of(ts, kind) <= ts.len(),
        first_of(ts, kind) < ts.len() ==> ts[first_of(ts, kind)].kind == kind,
        forall|i: int| 0 <= i < first_of(ts, kind) ==> (#[trigger] ts[i]).kind != kind,
    decreases ts.len(),
{
    if ts.len() == 0 || ts[0].kind == kind {
    } else {
        lemma_first_of_bounds(ts.drop_first(), kind);
        assert forall|i: int| 0 <= i < first_of(ts, kind) implies (#[trigger] ts[i]).kind
            != kind by {
            if i > 0 {
                assert(ts[i] == ts.drop_first()[i - 1]);
            }
        }
    }
}

/// The closing brace lies at or after `i` and within the tokens or at
/// their end.
pub proof fn lemma_closing_brace_bounds(ts: Seq<TokenView>, i: int, depth: nat)
    requires
        0 <= i <= ts.len(),
    ensures
        i <= closing_brace(ts, i, depth) <= ts.len(),
    decreases ts.len() - i,
{
    if i < ts.len() {
        if ts[i].kind is OpenCurlyBracket {
            lemma_closing_brace_bounds(ts, i + 1, depth + 1);
        } else if ts[i].kind is ClosedCurlyBracket {
            if depth > 1 {
                lemma_closing_brace_bounds(ts, i + 1, (depth - 1) as nat);
            }
        } else {
            lemma_closing_brace_bounds(ts, i + 1, depth);
        }
    }
}

} // verus!
