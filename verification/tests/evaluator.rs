use shellcore::executor::evaluations::mathop::apply_operator;
use shellcore::executor::evaluations::{
    evaluate_body, evaluate_expression, evaluate_till_primitive, evaluate_while, execute_expression,
};
use shellcore::executor::primitives::{BoolPrimitive, Decimal, FloatPrimitive, IntPrimitive, StringPrimitive};
use shellcore::executor::{
    expr_is_truthy, Answer, Executor, ExecutorError, Halt, Number, Request, Scope, Session, Variable,
};
use shellcore::lexer::Lexer;
use shellcore::parser::{AstNode, Expr, Operator, Parser};

fn float(bits: u64) -> f64 {
    f64::from_bits(bits)
}

fn as_float(n: Number) -> f64 {
    match n {
        Number::Int(i) => i as f64,
        Number::Float(bits) => float(bits),
    }
}

/// A host that knows `echo` and `fail` only.
fn answer(request: &Request) -> Answer {
    match request {
        Request::Run { name, args } => {
            if name == "echo" {
                Answer::Text(args.join(" "))
            } else {
                Answer::Failure
            }
        }
        Request::Literal { text } => match text.parse::<f64>() {
            Ok(f) => Answer::Number(f.to_bits()),
            Err(_) => Answer::Failure,
        },
        Request::Arithmetic { op, left, right } => {
            let (l, r) = (as_float(*left), as_float(*right));
            let v = match op {
                Operator::Add => l + r,
                Operator::Subtract => l - r,
                Operator::Multiply => l * r,
                Operator::Divide => l / r,
            };
            Answer::Number(v.to_bits())
        }
        Request::Display { bits } => Answer::Text(float(*bits).to_string()),
    }
}

fn run_with_limit(text: &str, limit: u64) -> Result<String, ExecutorError> {
    let program = Parser::parse(Lexer::parse(text).unwrap()).unwrap();
    let mut session = Session::new(limit);
    loop {
        match Executor::execute(&program, &mut session) {
            Ok(s) => return Ok(s),
            Err(Halt::Error(e)) => return Err(e),
            Err(Halt::Pending(request)) => {
                let a = answer(&request);
                session.answers.push(a);
            }
        }
    }
}

fn run(text: &str) -> Result<String, ExecutorError> {
    run_with_limit(text, 1000)
}

#[test]
fn integer_sum_difference_product() {
    assert_eq!(run("2 + 3"), Ok(String::from("5")));
    assert_eq!(run("2 - 3"), Ok(String::from("-1")));
    assert_eq!(run("4 * 3"), Ok(String::from("12")));
    assert_eq!(run("1 + 2 * 3"), Ok(String::from("7")));
    assert_eq!(run("(1 + 2) * 3"), Ok(String::from("9")));
    assert_eq!(run("8 - 3 - 2"), Ok(String::from("3")));
}

#[test]
fn integer_division_gives_a_float() {
    assert_eq!(run("7 / 2"), Ok(String::from("3.5")));
    assert_eq!(run("6 / 3"), Ok(String::from("2")));
    assert_eq!(run("1 / 0"), Ok(String::from("inf")));
    let mut session = Session::new(0);
    assert_eq!(
        apply_operator(&mut session, Operator::Divide, Number::Int(6), Number::Int(3)),
        Err(Halt::Pending(Request::Arithmetic {
            op: Operator::Divide,
            left: Number::Int(6),
            right: Number::Int(3)
        }))
    );
    session.answers.push(Answer::Number(2.0f64.to_bits()));
    assert_eq!(
        apply_operator(&mut session, Operator::Divide, Number::Int(6), Number::Int(3)),
        Ok(Expr::Float(FloatPrimitive { value: Decimal::Bits(2.0f64.to_bits()) }))
    );
}

#[test]
fn mixed_operands_give_a_float() {
    assert_eq!(run("1 + 1.5"), Ok(String::from("2.5")));
    assert_eq!(run("1.5 * 2"), Ok(String::from("3")));
    assert_eq!(run("2.5 - 0.5"), Ok(String::from("2")));
    for op in [Operator::Add, Operator::Subtract, Operator::Multiply, Operator::Divide] {
        let mut session = Session::new(0);
        session.answers.push(Answer::Number(7));
        assert_eq!(
            apply_operator(&mut session, op, Number::Int(1), Number::Float(1.5f64.to_bits())),
            Ok(Expr::Float(FloatPrimitive { value: Decimal::Bits(7) }))
        );
    }
}

#[test]
fn integer_overflow_is_an_error() {
    assert_eq!(run("9223372036854775807 + 1"), Err(ExecutorError::Overflow));
    assert_eq!(run("0 - 9223372036854775807 - 2"), Err(ExecutorError::Overflow));
    assert_eq!(run("4611686018427387904 * 2"), Err(ExecutorError::Overflow));
    assert_eq!(run("0 - 9223372036854775807 - 1"), Ok(String::from("-9223372036854775808")));
}

#[test]
fn declare_increment_read() {
    assert_eq!(run("let x = 5; x = x + 1; x"), Ok(String::from("6")));
}

#[test]
fn declaring_twice_in_one_scope_fails() {
    assert_eq!(run("let x = 5; let x = 6;"), Err(ExecutorError::Duplicate));
}

#[test]
fn assigning_an_undeclared_name_fails() {
    assert_eq!(run("x = 5;"), Err(ExecutorError::NotFound));
}

#[test]
fn inner_declaration_does_not_touch_the_outer_variable() {
    assert_eq!(run("let x = 1; if true { let x = 2; } x"), Ok(String::from("1")));
}

#[test]
fn inner_assignment_reaches_the_outer_variable() {
    assert_eq!(run("let x = 1; if true { x = 2; } x"), Ok(String::from("2")));
}

#[test]
fn implicit_return_of_the_else_branch() {
    assert_eq!(run("if false { } elif false { } else { 9 }"), Ok(String::from("9")));
    assert_eq!(run("if false { } elif false { } else { 9; }"), Ok(String::new()));
}

#[test]
fn first_branch_that_holds_is_taken() {
    assert_eq!(run("if 0 { 1 } elif 2 { 3 } elif 4 { 5 } else { 6 }"), Ok(String::from("3")));
    assert_eq!(run("if false { 1 }"), Ok(String::new()));
}

#[test]
fn while_with_a_false_condition_does_nothing() {
    assert_eq!(run("let x = 1; while false { x = 2; } x"), Ok(String::from("1")));
    assert_eq!(run("while false { nothing }"), Ok(String::new()));
}

#[test]
fn while_counts_down() {
    assert_eq!(
        run("let x = 3; let n = 0; while (x) { x = x - 1; n = n + 10; } n"),
        Ok(String::from("30"))
    );
}

#[test]
fn declarations_in_a_loop_body_do_not_leak() {
    assert_eq!(
        run("let x = 2; while (x) { let y = 1; x = x - y; } x"),
        Ok(String::from("0"))
    );
}

#[test]
fn a_loop_stops_at_the_limit() {
    assert_eq!(run_with_limit("while true { }", 10), Err(ExecutorError::LoopLimit));
    assert_eq!(run_with_limit("let x = 3; while (x) { x = x - 1; } x", 3), Ok(String::from("0")));
    assert_eq!(run_with_limit("let x = 3; while (x) { x = x - 1; } x", 2), Err(ExecutorError::LoopLimit));
}

#[test]
fn truthiness() {
    let whole = |i| Expr::Int(IntPrimitive { value: i });
    let text = |s: &str| Expr::String(StringPrimitive { value: String::from(s) });
    let real = |f: f64| Expr::Float(FloatPrimitive { value: Decimal::Bits(f.to_bits()) });
    assert!(!expr_is_truthy(&whole(0)));
    assert!(expr_is_truthy(&whole(1)));
    assert!(expr_is_truthy(&whole(-1)));
    assert!(!expr_is_truthy(&real(0.0)));
    assert!(!expr_is_truthy(&real(-0.0)));
    assert!(expr_is_truthy(&real(0.5)));
    assert!(expr_is_truthy(&real(f64::NAN)));
    assert!(!expr_is_truthy(&Expr::Bool(BoolPrimitive { value: false })));
    assert!(expr_is_truthy(&Expr::Bool(BoolPrimitive { value: true })));
    assert!(!expr_is_truthy(&text("")));
    assert!(expr_is_truthy(&text("a")));
    assert!(!expr_is_truthy(&Expr::NoValue));
    assert!(!expr_is_truthy(&Expr::Word(String::from("x"))));
    assert!(!expr_is_truthy(&Expr::Float(FloatPrimitive { value: Decimal::Written(String::from("1.5")) })));
}

#[test]
fn conditions_on_floats() {
    assert_eq!(run("if 0.0 { 1 } else { 2 }"), Ok(String::from("2")));
    assert_eq!(run("if 0.5 { 1 } else { 2 }"), Ok(String::from("1")));
    assert_eq!(run("if \"\" { 1 } else { 2 }"), Ok(String::from("2")));
    assert_eq!(run("if \"a\" { 1 } else { 2 }"), Ok(String::from("1")));
}

#[test]
fn pure_arithmetic_gives_the_same_result_every_time() {
    for _ in 0..3 {
        assert_eq!(run("(1 + 2) * 3 - 4 / 2"), Ok(String::from("7")));
    }
}

#[test]
fn unknown_word_fails_and_declared_word_resolves() {
    assert_eq!(run("nosuchthing"), Err(ExecutorError::Command));
    assert_eq!(run("let nosuchthing = 4; nosuchthing"), Ok(String::from("4")));
}

#[test]
fn commands_go_to_the_host() {
    assert_eq!(run("echo hello world"), Ok(String::from("hello world")));
    assert_eq!(run("echo"), Ok(String::new()));
    assert_eq!(run("missing arg"), Err(ExecutorError::Command));
    assert_eq!(run("if true { echo a b; }"), Ok(String::new()));
    assert_eq!(run("if true { missing arg; }"), Err(ExecutorError::Command));
    assert_eq!(run("let x = 1; while (x) { missing arg; }"), Err(ExecutorError::Command));
}

#[test]
fn arithmetic_errors() {
    assert_eq!(run("1 + y"), Err(ExecutorError::NotFound));
    assert_eq!(run("1 + +"), Err(ExecutorError::Malformed));
    assert_eq!(run("1 2 3"), Err(ExecutorError::Malformed));
    assert_eq!(run("1 % 2"), Err(ExecutorError::Operator));
    assert_eq!(run("let s = \"a\"; s + 1"), Err(ExecutorError::NotNumeric));
    assert_eq!(run("let b = true; 1 + b"), Err(ExecutorError::NotNumeric));
}

#[test]
fn display_of_values() {
    assert_eq!(run("0"), Ok(String::from("0")));
    assert_eq!(run("120"), Ok(String::from("120")));
    assert_eq!(run("true"), Ok(String::from("true")));
    assert_eq!(run("false"), Ok(String::from("false")));
    assert_eq!(run("\"a b\""), Ok(String::from("a b")));
    assert_eq!(run("1.50"), Ok(String::from("1.5")));
    assert_eq!(run("let x = 1;"), Ok(String::new()));
    assert_eq!(IntPrimitive { value: i64::MIN }.display(), i64::MIN.to_string());
    assert_eq!(IntPrimitive { value: i64::MAX }.display(), i64::MAX.to_string());
    assert_eq!(IntPrimitive { value: -10 }.display(), "-10");
}

#[test]
fn a_wrong_kind_of_answer_is_an_error() {
    let program = Parser::parse(Lexer::parse("1 / 2").unwrap()).unwrap();
    let mut session = Session::new(10);
    session.answers.push(Answer::Text(String::from("x")));
    assert_eq!(Executor::execute(&program, &mut session), Err(Halt::Error(ExecutorError::Host)));
}

#[test]
fn pending_requests_name_what_is_asked() {
    let program = Parser::parse(Lexer::parse("echo a; 1.5").unwrap()).unwrap();
    let mut session = Session::new(10);
    assert_eq!(
        Executor::execute(&program, &mut session),
        Err(Halt::Pending(Request::Run { name: String::from("echo"), args: vec![String::from("a")] }))
    );
    session.answers.push(Answer::Text(String::from("a")));
    assert_eq!(
        Executor::execute(&program, &mut session),
        Err(Halt::Pending(Request::Literal { text: String::from("1.5") }))
    );
    session.answers.push(Answer::Number(1.5f64.to_bits()));
    assert_eq!(
        Executor::execute(&program, &mut session),
        Err(Halt::Pending(Request::Display { bits: 1.5f64.to_bits() }))
    );
    session.answers.push(Answer::Text(String::from("1.5")));
    assert_eq!(Executor::execute(&program, &mut session), Ok(String::from("1.5")));
    assert_eq!(session.cursor, 3);
}

#[test]
fn scope_chain() {
    let whole = |i| Expr::Int(IntPrimitive { value: i });
    let var = |n: &str, i| Variable { name: String::from(n), value: whole(i) };
    let mut scope = Scope::new();
    assert_eq!(scope.push(var("x", 1)), Ok(()));
    assert_eq!(scope.push(var("x", 2)), Err(ExecutorError::Duplicate));
    assert_eq!(scope.lookup(String::from("x")), Some(var("x", 1)));
    assert_eq!(scope.lookup(String::from("y")), None);
    assert_eq!(scope.overwrite(String::from("y"), whole(3)), Err(ExecutorError::NotFound));

    let mut child = Scope::from_parent(&scope);
    child.shadow_scope(scope);
    assert_eq!(child.lookup(String::from("x")), Some(var("x", 1)));
    assert_eq!(child.push(var("x", 5)), Ok(()));
    assert_eq!(child.lookup(String::from("x")), Some(var("x", 5)));
    assert_eq!(child.overwrite(String::from("x"), whole(6)), Ok(()));
    assert_eq!(child.lookup(String::from("x")), Some(var("x", 6)));
    let mut parent = child.into_shadowed().unwrap();
    assert_eq!(parent.lookup(String::from("x")), Some(var("x", 1)));

    parent.enter();
    assert_eq!(parent.overwrite(String::from("x"), whole(9)), Ok(()));
    assert_eq!(parent.push(var("z", 0)), Ok(()));
    parent.leave();
    assert_eq!(parent.lookup(String::from("x")), Some(var("x", 9)));
    assert_eq!(parent.lookup(String::from("z")), None);
    parent.leave();
    assert_eq!(parent.lookup(String::from("x")), Some(var("x", 9)));
}

#[test]
fn what_has_no_value_cannot_be_evaluated() {
    let mut scope = Scope::new();
    let mut session = Session::new(10);
    assert_eq!(
        evaluate_expression(&mut scope, &mut session, &Expr::NoValue),
        Err(Halt::Error(ExecutorError::NotAValue))
    );
    assert_eq!(evaluate_till_primitive(&mut scope, &mut session, &Expr::NoValue), Ok(Expr::NoValue));
    assert_eq!(
        evaluate_while(&mut scope, &mut session, &Expr::Bool(BoolPrimitive { value: true })),
        Err(Halt::Error(ExecutorError::NotAValue))
    );
    let written = AstNode::Expr(Expr::Float(FloatPrimitive { value: Decimal::Written(String::from("1.5")) }));
    session.answers.push(Answer::Number(1.5f64.to_bits()));
    session.answers.push(Answer::Text(String::from("1.5")));
    assert_eq!(execute_expression(&mut scope, &mut session, &written), Ok(String::from("1.5")));
    assert_eq!(session.cursor, 2);
}

#[test]
fn a_session_hands_out_its_answers_in_order() {
    let mut session = Session::new(0);
    session.answers.push(Answer::Failure);
    session.answers.push(Answer::Number(3));
    let request = Request::Display { bits: 1 };
    assert_eq!(session.ask(request.clone()), Ok(Answer::Failure));
    assert_eq!(session.ask(request.clone()), Ok(Answer::Number(3)));
    assert_eq!(session.ask(request.clone()), Err(Halt::Pending(request)));
    assert_eq!(session.cursor, 2);
}

#[test]
fn copies_are_equal() {
    let program = Parser::parse(
        Lexer::parse("let x = 1.5; if ( x ) { x = x + 1; echo a b; } elif true { 2 } while false { \"s\" }").unwrap(),
    )
    .unwrap();
    for node in &program.ast {
        match node {
            AstNode::Expr(e) => assert_eq!(&e.duplicate(), e),
            AstNode::Cmd(c) => assert_eq!(&c.duplicate(), c),
        }
    }
    assert_eq!(program.ast.len(), 3);
}

#[test]
fn a_body_runs_in_its_own_scope() {
    let body = Parser::parse(Lexer::parse("let y = 2; x = y + 0; y").unwrap()).unwrap().ast;
    let mut scope = Scope::new();
    let mut session = Session::new(10);
    scope.push(Variable { name: String::from("x"), value: Expr::Int(IntPrimitive { value: 1 }) }).unwrap();
    assert_eq!(
        evaluate_body(&mut scope, &mut session, &body),
        Ok(Some(Expr::Int(IntPrimitive { value: 2 })))
    );
    assert_eq!(scope.lookup(String::from("x")).map(|v| v.value), Some(Expr::Int(IntPrimitive { value: 2 })));
    assert_eq!(scope.lookup(String::from("y")), None);
    assert_eq!(scope.variables.len(), 1);
    assert!(scope.shadow.is_none());
}
