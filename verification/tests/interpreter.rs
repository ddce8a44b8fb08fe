use script_core::ast::{Expression, Op, Statement};
use script_core::environment::Environment;
use script_core::error::{Mismatch, RuntimeError};
use script_core::interpreter::{
    interpret, run_block, run_expression, run_statement, Answer, Interpreter, Outcome, Progress,
    Request,
};
use script_core::lexer::generate;
use script_core::parser::parse;
use script_core::value::{is_truthy, kind_of_optional, Value, ValueKind, ONE, SIGN, ZERO};

fn bits(number: f64) -> u64 {
    number.to_bits()
}

fn show(value: &Value) -> String {
    match value {
        Value::Number(bits) => f64::from_bits(*bits).to_string(),
        Value::String(text) => text.clone(),
        Value::NativeFunction { name } => format!("<{}>", name),
    }
}

/// A host for the tests: it does the arithmetic, and knows two native
/// functions. `println` records its first argument. `remember` stores its
/// first argument in the variable `memory` and returns it.
fn answer(request: Request, output: &mut Vec<String>) -> Answer {
    match request {
        Request::Literal { text } => Answer::Number(bits(text.parse().unwrap())),
        Request::Arithmetic { op, left, right } => {
            let l = f64::from_bits(left);
            let r = f64::from_bits(right);
            Answer::Number(bits(match op {
                Op::Add => l + r,
                Op::Subtract => l - r,
                Op::Multiply => l * r,
                Op::Divide => l / r,
                Op::Modulo => l % r,
                _ => unreachable!(),
            }))
        }
        Request::Invoke { name, arguments, mut environment } => match name.as_str() {
            "println" => {
                output.push(show(&arguments[0]));
                Answer::Returned { value: None, environment }
            }
            "remember" => {
                environment.set("memory".to_owned(), Some(arguments[0].clone()));
                Answer::Returned { value: Some(arguments[0].clone()), environment }
            }
            other => panic!("no native function {}", other),
        },
    }
}

fn drive(mut interpreter: Interpreter, output: &mut Vec<String>) -> (Interpreter, Progress) {
    loop {
        match interpreter.run() {
            Progress::Pending(request) => interpreter.supply(answer(request, output)),
            ended => return (interpreter, ended),
        }
    }
}

fn run_source(source: &str) -> (Interpreter, Progress, Vec<String>) {
    let program = parse(generate(source).unwrap()).unwrap();
    let mut interpreter = Interpreter::new(program);
    interpreter.define_global_function("println".to_owned());
    interpreter.define_global_function("remember".to_owned());
    let mut output = Vec::new();
    let (interpreter, progress) = drive(interpreter, &mut output);
    (interpreter, progress, output)
}

fn variable(interpreter: &Interpreter, name: &str) -> Result<Option<Value>, RuntimeError> {
    interpreter.env().get(&name.to_owned())
}

fn failure(source: &str) -> RuntimeError {
    match run_source(source) {
        (_, Progress::Failed(error), _) => error,
        (_, other, _) => panic!("not failed: {:?}", other),
    }
}

#[test]
fn a_program_of_two_declarations_fills_the_environment() {
    let (interpreter, progress, _) = run_source("let a = 2 let b = a + 3 * 4");
    assert!(matches!(progress, Progress::Finished));
    assert_eq!(variable(&interpreter, "a"), Ok(Some(Value::Number(bits(2.0)))));
    assert_eq!(variable(&interpreter, "b"), Ok(Some(Value::Number(bits(14.0)))));
}

#[test]
fn a_declared_variable_without_a_value_yields_nothing() {
    let (interpreter, progress, _) = run_source("let x x");
    assert!(matches!(progress, Progress::Finished));
    assert_eq!(variable(&interpreter, "x"), Ok(None));

    let globals = Environment::new();
    let mut environment = Environment::new();
    environment.set("x".to_owned(), None);
    let mut taken = 0;
    let outcome = run_expression(
        &Expression::Identifier("x".to_owned()),
        &globals,
        &vec![],
        &mut environment,
        &mut taken,
    );
    assert!(matches!(outcome, Outcome::Done(None)));
    assert_eq!(taken, 0);
}

#[test]
fn calling_a_number_is_not_callable() {
    assert_eq!(failure("let f = 1 f(2)"), RuntimeError::NotCallable(ValueKind::Number));
    assert_eq!(failure("let f = 1 f(missing)"), RuntimeError::NotCallable(ValueKind::Number));
    assert_eq!(failure("'text'()"), RuntimeError::NotCallable(ValueKind::String));
    assert_eq!(failure("let f f()"), RuntimeError::NotCallable(ValueKind::Unassigned));
}

#[test]
fn a_failed_call_leaves_the_environment_as_it_was() {
    let globals = Environment::new();
    let mut environment = Environment::new();
    environment.set("f".to_owned(), Some(Value::Number(bits(1.0))));
    environment.set("s".to_owned(), Some(Value::String("text".to_owned())));
    let answers = vec![Answer::Number(bits(2.0))];
    let mut taken = 0;
    let call = Expression::Call(
        Box::new(Expression::Identifier("f".to_owned())),
        vec![Expression::Number("2".to_owned())],
    );
    let outcome = run_expression(&call, &globals, &answers, &mut environment, &mut taken);
    assert!(matches!(
        outcome,
        Outcome::Failed(RuntimeError::NotCallable(ValueKind::Number))
    ));
    assert_eq!(taken, 0);
    assert_eq!(environment.get(&"f".to_owned()), Ok(Some(Value::Number(bits(1.0)))));
    assert_eq!(environment.get(&"s".to_owned()), Ok(Some(Value::String("text".to_owned()))));
    assert!(!environment.contains(&"x".to_owned()));
}

#[test]
fn a_failure_keeps_what_was_done_before_it() {
    let mut globals = Environment::new();
    globals.set(
        "remember".to_owned(),
        Some(Value::NativeFunction { name: "remember".to_owned() }),
    );
    let mut after_call = Environment::new();
    after_call.set("memory".to_owned(), Some(Value::Number(bits(5.0))));
    let answers = vec![
        Answer::Number(bits(5.0)),
        Answer::Returned { value: Some(Value::Number(bits(5.0))), environment: after_call },
    ];
    let program = parse(generate("let a = remember(5) + missing").unwrap()).unwrap();
    let mut environment = Environment::new();
    let mut taken = 0;
    let outcome = run_statement(&program[0], &globals, &answers, &mut environment, &mut taken);
    assert!(matches!(
        outcome,
        Outcome::Failed(RuntimeError::UndefinedVariable(name)) if name == "missing"
    ));
    assert_eq!(taken, 2);
    assert_eq!(environment.get(&"memory".to_owned()), Ok(Some(Value::Number(bits(5.0)))));
    assert!(!environment.contains(&"a".to_owned()));
}

#[test]
fn a_pending_request_leaves_the_state_at_the_request() {
    let globals = Environment::new();
    let answers = vec![Answer::Number(bits(2.0))];
    let block = parse(generate("let a = 2 let b = 3").unwrap()).unwrap();
    let mut environment = Environment::new();
    let mut taken = 0;
    let outcome = run_block(&block, &globals, &answers, &mut environment, &mut taken);
    assert!(matches!(outcome, Outcome::Pending(Request::Literal { text }) if text == "3"));
    assert_eq!(taken, 1);
    assert_eq!(environment.get(&"a".to_owned()), Ok(Some(Value::Number(bits(2.0)))));
    assert!(!environment.contains(&"b".to_owned()));
}

#[test]
fn an_undeclared_name_is_undefined() {
    assert_eq!(failure("y"), RuntimeError::UndefinedVariable("y".to_owned()));
    assert_eq!(failure("let a = 1 a + b"), RuntimeError::UndefinedVariable("b".to_owned()));
    assert_eq!(failure("g(1)"), RuntimeError::UndefinedVariable("g".to_owned()));
}

#[test]
fn arithmetic_is_defined_on_numbers_only() {
    assert_eq!(
        failure("'a' + 1"),
        RuntimeError::TypeMismatch(Mismatch::Operands {
            op: Op::Add,
            left: ValueKind::String,
            right: ValueKind::Number,
        })
    );
    assert_eq!(
        failure("let x 2 * x"),
        RuntimeError::TypeMismatch(Mismatch::Operands {
            op: Op::Multiply,
            left: ValueKind::Number,
            right: ValueKind::Unassigned,
        })
    );
    assert_eq!(
        failure("println / 2"),
        RuntimeError::TypeMismatch(Mismatch::Operands {
            op: Op::Divide,
            left: ValueKind::NativeFunction,
            right: ValueKind::Number,
        })
    );
    assert_eq!(
        failure("-'a'"),
        RuntimeError::TypeMismatch(Mismatch::Operand { op: Op::Negate, operand: ValueKind::String })
    );
}

#[test]
fn the_left_operand_is_evaluated_before_the_right() {
    assert_eq!(failure("a + b"), RuntimeError::UndefinedVariable("a".to_owned()));
    let (_, _, output) = run_source("println(1) + println(2)");
    assert_eq!(output, vec!["1".to_owned(), "2".to_owned()]);
}

#[test]
fn division_by_zero_follows_floating_point() {
    let (interpreter, progress, _) =
        run_source("let a = 1 / 0 let b = -1 / 0 let c = 0 / 0 let d = 7 / 2");
    assert!(matches!(progress, Progress::Finished));
    assert_eq!(variable(&interpreter, "a"), Ok(Some(Value::Number(bits(f64::INFINITY)))));
    assert_eq!(variable(&interpreter, "b"), Ok(Some(Value::Number(bits(f64::NEG_INFINITY)))));
    match variable(&interpreter, "c") {
        Ok(Some(Value::Number(c))) => assert!(f64::from_bits(c).is_nan()),
        other => panic!("not a number: {:?}", other),
    }
    assert_eq!(variable(&interpreter, "d"), Ok(Some(Value::Number(bits(3.5)))));
}

#[test]
fn each_arithmetic_operator_reaches_the_host() {
    let (interpreter, _, _) = run_source("let s = 7 - 2 let p = 7 * 2 let q = 7 / 2 let a = 7 + 2");
    assert_eq!(variable(&interpreter, "s"), Ok(Some(Value::Number(bits(5.0)))));
    assert_eq!(variable(&interpreter, "p"), Ok(Some(Value::Number(bits(14.0)))));
    assert_eq!(variable(&interpreter, "q"), Ok(Some(Value::Number(bits(3.5)))));
    assert_eq!(variable(&interpreter, "a"), Ok(Some(Value::Number(bits(9.0)))));

    let modulo = Statement::LetDeclaration {
        name: "m".to_owned(),
        initial: Some(Expression::Infix(
            Box::new(Expression::Number("7".to_owned())),
            Op::Modulo,
            Box::new(Expression::Number("4".to_owned())),
        )),
    };
    let (interpreter, progress) = drive(Interpreter::new(vec![modulo]), &mut Vec::new());
    assert!(matches!(progress, Progress::Finished));
    assert_eq!(variable(&interpreter, "m"), Ok(Some(Value::Number(bits(3.0)))));

    let unary = Expression::Infix(
        Box::new(Expression::Number("7".to_owned())),
        Op::Not,
        Box::new(Expression::Number("4".to_owned())),
    );
    let (_, progress) = drive(
        Interpreter::new(vec![Statement::Expression { expression: unary }]),
        &mut Vec::new(),
    );
    assert!(matches!(
        progress,
        Progress::Failed(RuntimeError::TypeMismatch(Mismatch::Operands {
            op: Op::Not,
            left: ValueKind::Number,
            right: ValueKind::Number,
        }))
    ));
}

#[test]
fn an_arithmetic_request_names_the_operator_and_the_operands() {
    let program = parse(generate("2 * 3").unwrap()).unwrap();
    let mut interpreter = Interpreter::new(program);
    assert!(matches!(interpreter.run(), Progress::Pending(Request::Literal { text }) if text == "2"));
    interpreter.supply(Answer::Number(bits(2.0)));
    assert!(matches!(interpreter.run(), Progress::Pending(Request::Literal { text }) if text == "3"));
    interpreter.supply(Answer::Number(bits(3.0)));
    match interpreter.run() {
        Progress::Pending(Request::Arithmetic { op, left, right }) => {
            assert_eq!(op, Op::Multiply);
            assert_eq!(left, bits(2.0));
            assert_eq!(right, bits(3.0));
        }
        other => panic!("not an arithmetic request: {:?}", other),
    }
    interpreter.supply(Answer::Number(bits(6.0)));
    assert!(matches!(interpreter.run(), Progress::Finished));
    assert!(matches!(interpreter.run(), Progress::Finished));
}

#[test]
fn an_answer_that_does_not_fit_leaves_the_request_pending() {
    let program = parse(generate("let a = 2").unwrap()).unwrap();
    let mut interpreter = Interpreter::new(program);
    assert!(matches!(interpreter.run(), Progress::Pending(Request::Literal { .. })));
    interpreter.supply(Answer::Returned { value: None, environment: Environment::new() });
    assert!(matches!(interpreter.run(), Progress::Pending(Request::Literal { .. })));
    assert_eq!(variable(&interpreter, "a"), Err(RuntimeError::UndefinedVariable("a".to_owned())));
}

#[test]
fn a_native_function_gets_its_arguments_in_order() {
    let program = parse(generate("let x = 1 remember(x + 1, 'two', println)").unwrap()).unwrap();
    let mut interpreter = Interpreter::new(program);
    interpreter.define_global_function("remember".to_owned());
    interpreter.define_global_function("println".to_owned());
    let mut asked = None;
    loop {
        match interpreter.run() {
            Progress::Pending(Request::Invoke { name, arguments, environment }) => {
                asked = Some((name, arguments, environment));
                break;
            }
            Progress::Pending(request) => interpreter.supply(answer(request, &mut Vec::new())),
            other => panic!("ended: {:?}", other),
        }
    }
    let (name, arguments, environment) = asked.unwrap();
    assert_eq!(name, "remember");
    assert_eq!(
        arguments,
        vec![
            Value::Number(bits(2.0)),
            Value::String("two".to_owned()),
            Value::NativeFunction { name: "println".to_owned() },
        ]
    );
    assert_eq!(environment.get(&"x".to_owned()), Ok(Some(Value::Number(bits(1.0)))));
}

#[test]
fn a_native_function_may_change_the_environment_and_return_a_value() {
    let (interpreter, progress, _) = run_source("let r = remember(5) let s = memory + r");
    assert!(matches!(progress, Progress::Finished));
    assert_eq!(variable(&interpreter, "memory"), Ok(Some(Value::Number(bits(5.0)))));
    assert_eq!(variable(&interpreter, "r"), Ok(Some(Value::Number(bits(5.0)))));
    assert_eq!(variable(&interpreter, "s"), Ok(Some(Value::Number(bits(10.0)))));
}

#[test]
fn println_prints_and_returns_nothing() {
    let (interpreter, progress, output) = run_source("let r = println('hello') println(1 + 1)");
    assert!(matches!(progress, Progress::Finished));
    assert_eq!(output, vec!["hello".to_owned(), "2".to_owned()]);
    assert_eq!(variable(&interpreter, "r"), Ok(None));
}

#[test]
fn an_argument_without_a_value_is_a_mismatch() {
    assert_eq!(
        failure("let x println(x)"),
        RuntimeError::TypeMismatch(Mismatch::UnassignedArgument)
    );
}

#[test]
fn a_global_is_resolved_before_a_variable() {
    let (interpreter, progress, output) = run_source("let println = 1 println(2)");
    assert!(matches!(progress, Progress::Finished));
    assert_eq!(output, vec!["2".to_owned()]);
    assert_eq!(variable(&interpreter, "println"), Ok(Some(Value::Number(bits(1.0)))));
}

#[test]
fn a_redeclaration_overwrites() {
    let (interpreter, _, _) = run_source("let a = 1 let a = 'b' let c = 2 let c");
    assert_eq!(variable(&interpreter, "a"), Ok(Some(Value::String("b".to_owned()))));
    assert_eq!(variable(&interpreter, "c"), Ok(None));
}

#[test]
fn a_conditional_runs_one_of_its_blocks_in_the_same_environment() {
    let (interpreter, progress, output) = run_source(
        "if 1 { let a = 'yes' println(a) } else { let a = 'no' } \
         if 0 { let b = 'yes' } else { let b = 'no' } \
         if '' { let c = 'yes' } \
         if println { let d = 'yes' } \
         let u if u { let e = 'yes' } else { let e = 'no' } \
         if -0 { let f = 'yes' } else { let f = 'no' } \
         if true { if false { let g = 1 } else { let g = 2 } }",
    );
    assert!(matches!(progress, Progress::Finished));
    assert_eq!(output, vec!["yes".to_owned()]);
    assert_eq!(variable(&interpreter, "a"), Ok(Some(Value::String("yes".to_owned()))));
    assert_eq!(variable(&interpreter, "b"), Ok(Some(Value::String("no".to_owned()))));
    assert_eq!(variable(&interpreter, "c"), Err(RuntimeError::UndefinedVariable("c".to_owned())));
    assert_eq!(variable(&interpreter, "d"), Ok(Some(Value::String("yes".to_owned()))));
    assert_eq!(variable(&interpreter, "e"), Ok(Some(Value::String("no".to_owned()))));
    assert_eq!(variable(&interpreter, "f"), Ok(Some(Value::String("no".to_owned()))));
    assert_eq!(variable(&interpreter, "g"), Ok(Some(Value::Number(bits(2.0)))));
}

#[test]
fn truth_values_are_the_numbers_one_and_zero() {
    let (interpreter, _, _) = run_source(
        "let t = true let f = false let n = !1 let m = !0 let s = !'' let u let v = !u let w = !println",
    );
    assert_eq!(variable(&interpreter, "t"), Ok(Some(Value::Number(bits(1.0)))));
    assert_eq!(variable(&interpreter, "f"), Ok(Some(Value::Number(bits(0.0)))));
    assert_eq!(variable(&interpreter, "n"), Ok(Some(Value::Number(bits(0.0)))));
    assert_eq!(variable(&interpreter, "m"), Ok(Some(Value::Number(bits(1.0)))));
    assert_eq!(variable(&interpreter, "s"), Ok(Some(Value::Number(bits(1.0)))));
    assert_eq!(variable(&interpreter, "v"), Ok(Some(Value::Number(bits(1.0)))));
    assert_eq!(variable(&interpreter, "w"), Ok(Some(Value::Number(bits(0.0)))));
    assert_eq!(ONE, bits(1.0));
    assert_eq!(ZERO, bits(0.0));
    assert_eq!(SIGN, bits(-0.0));
}

#[test]
fn negation_changes_the_sign() {
    let (interpreter, _, _) = run_source("let a = -5 let b = - -5 let c = -0 let d = -5 + 2");
    assert_eq!(variable(&interpreter, "a"), Ok(Some(Value::Number(bits(-5.0)))));
    assert_eq!(variable(&interpreter, "b"), Ok(Some(Value::Number(bits(5.0)))));
    assert_eq!(variable(&interpreter, "c"), Ok(Some(Value::Number(bits(-0.0)))));
    assert_eq!(variable(&interpreter, "d"), Ok(Some(Value::Number(bits(-3.0)))));
    assert_eq!(Value::negate(bits(1.5)), bits(-1.5));
    assert_eq!(Value::negate(bits(-1.5)), bits(1.5));
    assert_eq!(Value::negate(bits(f64::INFINITY)), bits(f64::NEG_INFINITY));
}

#[test]
fn strings_evaluate_to_themselves() {
    let (interpreter, _, _) = run_source("let s = 'text'");
    assert_eq!(variable(&interpreter, "s"), Ok(Some(Value::String("text".to_owned()))));
    let statement = Statement::LetDeclaration {
        name: "i".to_owned(),
        initial: Some(Expression::InterpolatedString("a {b}".to_owned())),
    };
    let (interpreter, _) = drive(Interpreter::new(vec![statement]), &mut Vec::new());
    assert_eq!(variable(&interpreter, "i"), Ok(Some(Value::String("a {b}".to_owned()))));
}

#[test]
fn functions_and_closures_have_no_value() {
    assert_eq!(failure("fn f() { }"), RuntimeError::TypeMismatch(Mismatch::Function));
    assert_eq!(failure("let f = fn () { }"), RuntimeError::TypeMismatch(Mismatch::Function));
}

#[test]
fn a_failed_statement_leaves_the_statements_before_it_done() {
    let (interpreter, progress, output) = run_source("let a = 1 println(a) let b = a + 'x' let c = 3");
    assert!(matches!(
        progress,
        Progress::Failed(RuntimeError::TypeMismatch(Mismatch::Operands { .. }))
    ));
    assert_eq!(output, vec!["1".to_owned()]);
    assert_eq!(variable(&interpreter, "a"), Ok(Some(Value::Number(bits(1.0)))));
    assert_eq!(variable(&interpreter, "b"), Err(RuntimeError::UndefinedVariable("b".to_owned())));
    assert_eq!(variable(&interpreter, "c"), Err(RuntimeError::UndefinedVariable("c".to_owned())));
}

#[test]
fn interpret_knows_println() {
    let program = parse(generate("println('hi')").unwrap()).unwrap();
    let (mut interpreter, progress) = interpret(program);
    match progress {
        Progress::Pending(Request::Invoke { name, arguments, environment }) => {
            assert_eq!(name, "println");
            assert_eq!(arguments, vec![Value::String("hi".to_owned())]);
            interpreter.supply(Answer::Returned { value: None, environment });
        }
        other => panic!("not a call: {:?}", other),
    }
    assert!(matches!(interpreter.run(), Progress::Finished));
    let (_, progress) = interpret(vec![]);
    assert!(matches!(progress, Progress::Finished));
}

#[test]
fn statements_and_blocks_run_against_given_answers() {
    let globals = Environment::new();
    let answers = vec![Answer::Number(bits(2.0)), Answer::Number(bits(3.0))];
    let mut environment = Environment::new();
    let mut taken = 0;
    let block = parse(generate("let a = 2 let b = 3 let c").unwrap()).unwrap();
    assert!(matches!(
        run_block(&block, &globals, &answers, &mut environment, &mut taken),
        Outcome::Done(())
    ));
    assert_eq!(taken, 2);
    assert_eq!(environment.get(&"b".to_owned()), Ok(Some(Value::Number(bits(3.0)))));
    assert_eq!(environment.get(&"c".to_owned()), Ok(None));

    let mut taken = 1;
    let outcome = run_statement(&block[0], &globals, &answers, &mut environment, &mut taken);
    assert!(matches!(outcome, Outcome::Done(())));
    assert_eq!(taken, 2);
    assert_eq!(environment.get(&"a".to_owned()), Ok(Some(Value::Number(bits(3.0)))));

    let outcome = run_statement(&block[0], &globals, &answers, &mut environment, &mut taken);
    assert!(matches!(outcome, Outcome::Pending(Request::Literal { text }) if text == "2"));
}

#[test]
fn values_know_their_kind_and_truth() {
    assert_eq!(Value::Number(bits(1.0)).kind(), ValueKind::Number);
    assert_eq!(Value::String(String::new()).kind(), ValueKind::String);
    assert_eq!(Value::NativeFunction { name: "f".to_owned() }.kind(), ValueKind::NativeFunction);
    assert_eq!(kind_of_optional(&None), ValueKind::Unassigned);
    assert_eq!(Value::Number(bits(2.5)).to_number(), bits(2.5));
    assert!(Value::Number(bits(f64::NAN)).is_truthy());
    assert!(!Value::Number(bits(-0.0)).is_truthy());
    assert!(Value::String("é".to_owned()).is_truthy());
    assert!(!is_truthy(&None));
    assert_eq!(Value::truth(true), Value::Number(ONE));
    assert_eq!(Value::truth(false), Value::Number(ZERO));
}
