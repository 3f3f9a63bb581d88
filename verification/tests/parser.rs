use shellcore::executor::primitives::{BoolPrimitive, Decimal, FloatPrimitive, IntPrimitive, StringPrimitive};
use shellcore::lexer::{Lexer, Operator, Token, TokenKind, TokenStream};
use shellcore::parser::parsers::{command_of, infix_to_postfix, is_arithmetic, parse_sentence};
use shellcore::parser::{AstNode, Cmd, Expr, IfCondition, ParseError, Parser, Program};

fn parse(text: &str) -> Result<Program, ParseError> {
    Parser::parse(Lexer::parse(text).unwrap())
}

fn nodes(text: &str) -> Vec<AstNode> {
    parse(text).unwrap().ast
}

fn whole(i: i64) -> Expr {
    Expr::Int(IntPrimitive { value: i })
}

fn tok(kind: TokenKind) -> Token {
    Token { kind, pos: 0 }
}

fn kinds(tokens: Vec<Token>) -> Vec<TokenKind> {
    tokens.into_iter().map(|t| t.kind).collect()
}

fn postfix_of(text: &str) -> Vec<TokenKind> {
    kinds(infix_to_postfix(Lexer::parse(text).unwrap().into_iter()))
}

fn w(s: &str) -> TokenKind {
    TokenKind::Word(String::from(s))
}

fn op(o: Operator) -> TokenKind {
    TokenKind::Operator(o)
}

#[test]
fn literals_are_primitive_expressions() {
    assert_eq!(nodes("5"), vec![AstNode::Expr(whole(5))]);
    assert_eq!(nodes("true"), vec![AstNode::Expr(Expr::Bool(BoolPrimitive { value: true }))]);
    assert_eq!(
        nodes("\"a b\""),
        vec![AstNode::Expr(Expr::String(StringPrimitive { value: String::from("a b") }))]
    );
    assert_eq!(
        nodes("1.5"),
        vec![AstNode::Expr(Expr::Float(FloatPrimitive { value: Decimal::Written(String::from("1.5")) }))]
    );
}

#[test]
fn postfix_respects_precedence() {
    assert_eq!(
        postfix_of("1 + 2 * 3"),
        vec![TokenKind::Int(1), TokenKind::Int(2), TokenKind::Int(3), op(Operator::Multiply), op(Operator::Plus)]
    );
    assert_eq!(
        postfix_of("1 * 2 + 3"),
        vec![TokenKind::Int(1), TokenKind::Int(2), op(Operator::Multiply), TokenKind::Int(3), op(Operator::Plus)]
    );
}

#[test]
fn postfix_associates_to_the_left() {
    assert_eq!(
        postfix_of("8 - 3 - 2"),
        vec![TokenKind::Int(8), TokenKind::Int(3), op(Operator::Minus), TokenKind::Int(2), op(Operator::Minus)]
    );
}

#[test]
fn postfix_brackets_group() {
    assert_eq!(
        postfix_of("(1 + 2) * 3"),
        vec![TokenKind::Int(1), TokenKind::Int(2), op(Operator::Plus), TokenKind::Int(3), op(Operator::Multiply)]
    );
}

#[test]
fn arithmetic_needs_more_than_two_tokens_without_equal() {
    assert!(is_arithmetic(&Lexer::parse("1 + 2").unwrap()));
    assert!(is_arithmetic(&Lexer::parse("( x )").unwrap()));
    assert!(!is_arithmetic(&Lexer::parse("(x)").unwrap()));
    assert!(is_arithmetic(&Lexer::parse("1 + 2; true").unwrap()));
    assert!(!is_arithmetic(&Lexer::parse("1 +").unwrap()));
    assert!(!is_arithmetic(&Lexer::parse("x = 1 + 2").unwrap()));
    assert!(!is_arithmetic(&Lexer::parse("1 + true").unwrap()));
    assert!(!is_arithmetic(&Lexer::parse("1 + \"a\"").unwrap()));
}

#[test]
fn arithmetic_statement_is_an_operation() {
    assert_eq!(
        nodes("x + 1;"),
        vec![AstNode::Expr(Expr::Operation {
            stack: vec![
                Token { kind: w("x"), pos: 0 },
                Token { kind: TokenKind::Int(1), pos: 4 },
                Token { kind: op(Operator::Plus), pos: 2 },
            ]
        })]
    );
}

#[test]
fn declaration_and_assignment() {
    let program = nodes("let x = 5; x = x + 1; x");
    assert_eq!(program.len(), 3);
    assert_eq!(
        program[0],
        AstNode::Expr(Expr::VariableDeclaration { name: String::from("x"), value: Box::new(whole(5)) })
    );
    match &program[1] {
        AstNode::Expr(Expr::VariableAssigment { name, value }) => {
            assert_eq!(name, "x");
            assert!(matches!(**value, Expr::Operation { .. }));
        }
        other => panic!("{:?}", other),
    }
    assert_eq!(program[2], AstNode::Expr(Expr::Word(String::from("x"))));
}

#[test]
fn declaration_with_arithmetic() {
    let program = nodes("let x = 1 + 2; x");
    assert_eq!(program.len(), 2);
    assert!(matches!(&program[0], AstNode::Expr(Expr::VariableDeclaration { .. })));
}

#[test]
fn declaration_errors() {
    assert_eq!(parse("let 5 = 1;").err(), Some(ParseError::UnexpectedToken));
    assert_eq!(parse("let").err(), Some(ParseError::UnexpectedToken));
    assert_eq!(parse("let x 5;").err(), Some(ParseError::TokenNotFound));
    assert_eq!(parse("let x = 5").err(), Some(ParseError::TokenNotFound));
    assert_eq!(parse("let x = y;").err(), Some(ParseError::MustBeExpr));
    assert_eq!(parse("let x = ;").err(), Some(ParseError::UnexpectedToken));
}

#[test]
fn a_bare_word_may_not_be_assigned() {
    assert_eq!(parse("x = y;").err(), Some(ParseError::MustBeExpr));
}

#[test]
fn sentence_is_a_command() {
    assert_eq!(
        nodes("echo hello \"big world\""),
        vec![AstNode::Cmd(Cmd {
            name: String::from("echo"),
            args: vec![String::from("hello"), String::from("big world")],
        })]
    );
}

#[test]
fn sentence_of_one_part_is_a_word() {
    assert_eq!(parse_sentence(String::from("x=5")), Ok(AstNode::Expr(Expr::Word(String::from("x=5")))));
    assert_eq!(parse_sentence(String::from("  ")), Err(ParseError::UnexpectedToken));
    assert_eq!(parse_sentence(String::from("a 'b")), Err(ParseError::UnexpectedToken));
}

#[test]
fn conditional_cascade() {
    let program = nodes("if false { } elif false { } else { 9 }");
    assert_eq!(
        program,
        vec![AstNode::Expr(Expr::If {
            conditions: vec![
                IfCondition {
                    condition: Box::new(Expr::Bool(BoolPrimitive { value: false })),
                    body: vec![],
                    implicit_return: false,
                },
                IfCondition {
                    condition: Box::new(Expr::Bool(BoolPrimitive { value: false })),
                    body: vec![],
                    implicit_return: false,
                },
                IfCondition {
                    condition: Box::new(Expr::Bool(BoolPrimitive { value: true })),
                    body: vec![AstNode::Expr(whole(9))],
                    implicit_return: true,
                },
            ]
        })]
    );
}

#[test]
fn a_semicolon_at_the_end_of_a_body_means_no_value() {
    match &nodes("if true { 9; }")[0] {
        AstNode::Expr(Expr::If { conditions }) => {
            assert!(!conditions[0].implicit_return);
            assert_eq!(conditions[0].body, vec![AstNode::Expr(whole(9))]);
        }
        other => panic!("{:?}", other),
    }
}

#[test]
fn a_branch_without_condition_is_always_taken() {
    match &nodes("if { 1 }")[0] {
        AstNode::Expr(Expr::If { conditions }) => {
            assert_eq!(*conditions[0].condition, Expr::Bool(BoolPrimitive { value: true }));
        }
        other => panic!("{:?}", other),
    }
}

#[test]
fn nested_bodies_keep_their_braces() {
    match &nodes("if true { if false { 1 } else { 2 } }")[0] {
        AstNode::Expr(Expr::If { conditions }) => {
            assert_eq!(conditions.len(), 1);
            match &conditions[0].body[0] {
                AstNode::Expr(Expr::If { conditions }) => assert_eq!(conditions.len(), 2),
                other => panic!("{:?}", other),
            }
        }
        other => panic!("{:?}", other),
    }
}

#[test]
fn conditions_may_not_begin_with_a_word() {
    assert_eq!(parse("if x { }").err(), Some(ParseError::MustBeExpr));
    assert_eq!(parse("while x { }").err(), Some(ParseError::MustBeExpr));
    assert!(parse("if (x) { }").is_ok());
    assert!(parse("while (x) { x = x - 1; }").is_ok());
}

#[test]
fn missing_braces() {
    assert_eq!(parse("if true").err(), Some(ParseError::TokenNotFound));
    assert_eq!(parse("if true { 1").err(), Some(ParseError::TokenNotFound));
    assert_eq!(parse("if true { } else 1").err(), Some(ParseError::TokenNotFound));
    assert!(parse("if true { } else 1 { 2 }").is_ok());
    assert_eq!(parse("while true").err(), Some(ParseError::TokenNotFound));
    assert_eq!(parse("while { }").err(), Some(ParseError::UnexpectedToken));
}

#[test]
fn while_loop() {
    match &nodes("while true { x = 1; }")[0] {
        AstNode::Expr(Expr::While { condition, body }) => {
            assert_eq!(**condition, Expr::Bool(BoolPrimitive { value: true }));
            assert_eq!(body.len(), 1);
        }
        other => panic!("{:?}", other),
    }
}

#[test]
fn tokens_that_begin_no_statement() {
    assert_eq!(parse("}").err(), Some(ParseError::UnexpectedToken));
    assert_eq!(parse("fn").err(), Some(ParseError::UnexpectedToken));
    assert_eq!(parse("+ 1").err(), Some(ParseError::UnexpectedToken));
}

#[test]
fn semicolons_between_statements_are_passed_over() {
    assert_eq!(nodes(";;1;;2;"), vec![AstNode::Expr(whole(1)), AstNode::Expr(whole(2))]);
    assert_eq!(nodes(""), vec![]);
}

#[test]
fn token_stream_operations() {
    let mut stream = Lexer::parse("a ; 2").unwrap();
    assert_eq!(stream.len(), 3);
    assert_eq!(stream.peek().map(|t| t.kind.clone()), Some(w("a")));
    assert_eq!(stream.peek_next(1).map(|t| t.kind.clone()), Some(TokenKind::Semicolon));
    assert_eq!(stream.peek_next(3), None);
    assert_eq!(stream.next().map(|t| t.kind), Some(w("a")));
    assert_eq!(stream.expect(TokenKind::Semicolon), Ok(()));
    assert_eq!(stream.expect(TokenKind::Semicolon), Err(ParseError::TokenNotFound));
    assert_eq!(stream.len(), 0);
    assert_eq!(stream.next(), None);
    stream.push_front(tok(TokenKind::Period));
    assert_eq!(stream.len(), 1);
    let all = TokenStream::new(std::collections::VecDeque::from(vec![tok(TokenKind::Period)]));
    assert_eq!(all.into_iter(), vec![tok(TokenKind::Period)]);
}

#[test]
fn parts_of_a_command_line() {
    assert_eq!(
        command_of(Lexer::parse_strings("ls")),
        Ok(AstNode::Expr(Expr::Word(String::from("ls"))))
    );
    assert_eq!(
        command_of(Lexer::parse_strings("'my tool' -v")),
        Ok(AstNode::Cmd(Cmd { name: String::from("my tool"), args: vec![String::from("-v")] }))
    );
    assert_eq!(command_of(Lexer::parse_strings("")), Err(ParseError::UnexpectedToken));
    assert_eq!(command_of(Err(shellcore::lexer::LexerError::UnterminatedString)), Err(ParseError::UnexpectedToken));
}
