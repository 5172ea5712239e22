use interp::app::{App, setup};
use interp::environment::Environment;
use interp::evaluator::eval;
use interp::object::Object;

#[test]
fn test_eval_bool_expressions() {
    let tests = vec![
        ("true;", true),
        ("false;", false),
        ("!true;", false),
        ("!false;", true),
        ("!!true;", true),
        ("!!false;", false),
        ("!10;", false),
        ("!!10;", true),
    ];

    for (input, expected) in tests {
        let (_parser, prog) = setup(input);
        let mut env = Environment::new();
        let result = eval(&prog, &mut env).expect(
            format!("expected evaluation to result in the value Some({expected}), got None")
                .as_str(),
        );
        let Object::Boolean(actual) = result else {
            assert!(false, "expected Object::Boolean, got=.");
            return;
        };
        assert_eq!(
            actual.value, expected,
            "{} should be {}, got {}",
            input, expected, actual.value
        );
    }
}

#[test]
fn test_eval_interger_expressions() {
    let tests = vec![
        ("5;", 5),
        ("10;", 10),
        ("-5;", -5),
        ("-10;", -10),
        ("10 + 5;", 15),
        ("10 - 5;", 5),
        ("10 * 5;", 50),
        ("10 / 5;", 2),
        ("2 * 2 * 2 * 2 * 2", 32),
        ("-50 + 100 + -50", 0),
        ("5 * 2 + 10", 20),
        ("5 + 2 * 10", 25),
        ("20 + 2 * -10", 0),
        ("50 / 2 * 2 + 10", 60),
        ("2 * (5 + 10)", 30),
        ("3 * 3 * 3 + 10", 37),
        ("3 * (3 * 3) + 10", 37),
        ("(5 + 10 * 2 + 15 / 3) * 2 + -10", 50),
    ];

    for (input, expected) in tests {
        let (_parser, prog) = setup(input);
        let mut env = Environment::new();
        let result = eval(&prog, &mut env).expect(
            format!("expected evaluation to result in the value Some({expected}), got None")
                .as_str(),
        );
        let Object::Integer(actual) = result else {
            assert!(false, "expected Object::Integer, got=.");
            return;
        };
        assert_eq!(actual.value, expected);
    }
}

#[test]
fn test_eval_let_statement() {
    let tests = vec![
        ("let a = 10; a;", 10),
        ("let b = 5; 5 + 2", 7),
        ("let x = 2; let y = 4; x + y;", 6),
    ];

    for (input, expected) in tests {
        let (_parser, prog) = setup(input);
        let mut env = Environment::new();
        let result = eval(&prog, &mut env).expect(
            format!("expected evaluation to result in the value Some({expected}), got None")
                .as_str(),
        );
        let Object::Integer(actual) = result else {
            assert!(false, "expected Object::Integer, got=.");
            return;
        };
        assert_eq!(actual.value, expected);
    }
}

#[test]
fn test_variable_environment_bindings() {
    let tests = vec![
        (
            "
            let global = 100;
            let a = 5;

            let myFunc = fn (a) { return a + global };
            myFunc(10);
            ",
            110,
        ),
        (
            "
            let global = 100;
            let a = 5;

            let myFunc = fn (a) { return a + global };
            myFunc(a);
            ",
            105,
        ),
    ];

    for (input, expected) in tests {
        let (_parser, prog) = setup(input);
        let mut env = Environment::new();
        let result = eval(&prog, &mut env).expect(
            format!("expected evaluation to result in the value Some({expected}), got None")
                .as_str(),
        );
        let Object::Integer(actual) = result else {
            assert!(false, "expected Object::Integer, got=.");
            return;
        };
        assert_eq!(actual.value, expected);
    }
}

#[test]
fn test_eval_return_statement() {
    let tests = vec![("return 5;", 5), ("return 5 * 2;", 10)];

    for (input, expected) in tests {
        let (_parser, prog) = setup(input);
        let mut env = Environment::new();
        let result = eval(&prog, &mut env).expect(
            format!("expected evaluation to result in the value Some({expected}), got None")
                .as_str(),
        );
        let Object::Integer(actual) = result else {
            assert!(false, "expected Object::Integer, got=.");
            return;
        };
        assert_eq!(actual.value, expected);
    }
}

#[test]
fn test_function_call() {
    let tests = vec![
        ("let sum = fn (x, y) { return x + y }; sum(10, 5)", 15),
        (
            "
            let sum = fn (x, y) { return x + y };
            let product = fn (x, y) { return x * y };
            sum(10, 5) + product(2, 5);
            ",
            25,
        ),
        ("fn (x) { return x; }(1)", 1),
    ];

    for (input, expected) in tests {
        let (_parser, prog) = setup(input);
        let mut env = Environment::new();
        let result = eval(&prog, &mut env).expect(
            format!("expected evaluation to result in the value Some({expected}), got None")
                .as_str(),
        );
        let Object::Integer(actual) = result else {
            assert!(false, "expected Object::Integer, got=.");
            return;
        };
        assert_eq!(actual.value, expected);
    }
}

#[test]
fn test_if_else_evaluation() {
    let tests = vec![
        ("if (5 == 5) { 5 } else { 10 }", Some(5)),
        ("if (5 != 5) { 5 } else { 10 }", Some(10)),
        ("if (false) { 5 }", None),
    ];

    for (input, expected) in tests {
        let (_parser, prog) = setup(input);
        let mut env = Environment::new();
        let result = eval(&prog, &mut env);

        match expected {
            Some(_test) => {
                let Object::Integer(actual) = result.expect("expected Some(Object), got=None")
                else {
                    assert!(false, "expected Object::Integer, got=.");
                    return;
                };
                assert_eq!(actual.value, expected.unwrap());
            }
            None => {
                assert!(
                    result.is_none(),
                    "expected evaluation of {} to be {:?}",
                    input,
                    expected
                );
            }
        }
    }
}

fn eval_int(input: &str) -> i32 {
    let (parser, prog) = setup(input);
    assert_eq!(parser.errors.len(), 0);
    let mut env = Environment::new();
    match eval(&prog, &mut env) {
        Some(Object::Integer(v)) => v.value,
        other => panic!("expected an integer result for {input}, got {other:?}"),
    }
}

fn eval_absent(input: &str) -> bool {
    let (_parser, prog) = setup(input);
    let mut env = Environment::new();
    eval(&prog, &mut env).is_none()
}

#[test]
fn test_let_sum_scenario() {
    assert_eq!(eval_int("let a = 10; let b = 5; a + b;"), 15);
}

#[test]
fn test_lexical_scoping_scenario() {
    let input = "let global = 100; \
        let a = fn(x) { if (false) { return 0; } else { let a = 10; return a + x + global; } }; \
        a(1) + 4;";
    assert_eq!(eval_int(input), 115);
}

#[test]
fn test_shadowing_rebinds_in_current_scope() {
    assert_eq!(eval_int("let a = 1; let a = 2; a;"), 2);
    assert_eq!(eval_int("let a = 1; let f = fn(a) { return a; }; f(9) + a;"), 10);
}

#[test]
fn test_closure_sees_later_global_binding() {
    // The closure shares the global scope object, so a name bound after the
    // closure was created is visible through it.
    assert_eq!(eval_int("let f = fn() { return g(); }; let g = fn() { return 7; }; f();"), 7);
}

#[test]
fn test_division_by_zero_yields_no_value() {
    assert!(eval_absent("5 / 0;"));
}

#[test]
fn test_undefined_identifier_yields_no_value() {
    assert!(eval_absent("foo;"));
}

#[test]
fn test_non_callable_yields_no_value() {
    assert!(eval_absent("5(1);"));
}

#[test]
fn test_missing_argument_yields_no_value() {
    assert!(eval_absent("let f = fn(x, y) { return x; }; f(1);"));
}

#[test]
fn test_arithmetic_overflow_yields_no_value() {
    assert!(eval_absent("2147483647 + 1;"));
    assert!(eval_absent("0 - 2147483647 - 2;"));
    assert!(eval_absent("-(0 - 2147483647 - 1);"));
}

#[test]
fn test_type_mismatch_yields_no_value() {
    assert!(eval_absent("-true;"));
    assert!(eval_absent("true + true;"));
    assert!(eval_absent("true == true;"));
}

#[test]
fn test_app_execute() {
    let app = App::new("let a = 10; let b = 5; a + b;");
    match app.execute() {
        Some(Object::Integer(v)) => assert_eq!(v.value, 15),
        other => panic!("expected Integer 15, got {other:?}"),
    }
    let bad = App::new("let a 10;");
    assert!(bad.execute().is_none());
    let absent = App::new("if (false) { 5 }");
    assert!(absent.execute().is_none());
}

#[test]
fn test_env_persists_across_programs() {
    let mut env = Environment::new();
    let (_p1, prog1) = setup("let a = 40;");
    assert!(eval(&prog1, &mut env).is_none());
    let (_p2, prog2) = setup("a + 2;");
    match eval(&prog2, &mut env) {
        Some(Object::Integer(v)) => assert_eq!(v.value, 42),
        other => panic!("expected Integer 42, got {other:?}"),
    }
}

#[test]
fn test_return_escapes_only_enclosing_function() {
    // A return nested in blocks escapes the function, not the program.
    let input = "let f = fn() { if (true) { if (true) { return 3; } } return 4; }; f() + 1;";
    assert_eq!(eval_int(input), 4);
}
