use interp::app::setup;
use interp::ast::{Node, Program};
use interp::parser::Parser;

fn assert_program_len(prog: &Program, expected: usize) {
    let actual_size = prog.statements.len();
    assert_eq!(
        actual_size, expected,
        "prog.statements does not contain 2 elements, got={}",
        actual_size
    );
}

fn check_parser_errors(parser: &Parser) {
    if parser.errors.len() == 0 {
        return;
    }
    let mut error_msg = String::new();
    error_msg.push_str(format!("Parser has ${} errors\n", parser.errors.len()).as_str());

    for err in &parser.errors {
        error_msg.push_str(format!("parser error: {}", err).as_str());
    }

    assert!(false, "{}", error_msg);
}

fn count_statements(stmts: &str) -> usize {
    stmts.split(";").count() - 1
}

fn assert_integer_type(node: &Node, expected_value: i32) {
    match node {
        Node::Int(value) => {
            assert_eq!(value.0, expected_value);
        }
        _ => {
            assert!(false, "expected Node::Int, got=Node::.");
        }
    }
}

fn assert_boolean_type(node: &Node, expected_value: bool) {
    match node {
        Node::Boolean(value) => {
            assert_eq!(value.0, expected_value);
        }
        _ => {
            assert!(false, "expected Node::Boolean, got=Node::.");
        }
    }
}

#[test]
fn test_parsing_integers() {
    let input = "
            5;
            10;
        ";
    let input_size = count_statements(input);
    let (parser, prog) = setup(&input);

    let Node::Program(prog) = prog else {
        assert!(false, "prog is not Node::Program");
        return;
    };

    check_parser_errors(&parser);
    assert_program_len(&prog, input_size);

    let tests = vec![5, 10];

    for (idx, test) in tests.iter().enumerate() {
        let actual = prog.statements.get(idx).unwrap();
        assert_integer_type(actual, *test);
    }
}

#[test]
fn test_parsing_booleans() {
    let input = "
            true;
            false;
        ";
    let input_size = count_statements(input);
    let (parser, prog) = setup(&input);

    let Node::Program(prog) = prog else {
        assert!(false, "prog is not Node::Program");
        return;
    };

    check_parser_errors(&parser);
    assert_program_len(&prog, input_size);

    let tests = vec![true, false];

    for (idx, test) in tests.iter().enumerate() {
        let actual = prog.statements.get(idx).unwrap();
        match actual {
            Node::Boolean(actual) => {
                assert_eq!(&actual.0, test);
            }
            _ => {
                assert!(false, "expected Node::Boolean, got=.");
            }
        }
    }
}

#[test]
fn test_parsing_identifiers() {
    let input = "
            a;
            myVar;
        ";
    let input_size = count_statements(input);
    let (parser, prog) = setup(&input);

    let Node::Program(prog) = prog else {
        assert!(false, "prog is not Node::Program");
        return;
    };

    check_parser_errors(&parser);
    assert_program_len(&prog, input_size);

    let tests = vec!["a", "myVar"];

    for (idx, test) in tests.iter().enumerate() {
        let actual = prog.statements.get(idx).unwrap();
        match actual {
            Node::Ident(actual) => {
                assert_eq!(&actual.0, test);
            }
            _ => {
                assert!(false, "expected Node::Ident, got=.");
            }
        }
    }
}

#[test]
fn test_parsing_prefix_expression() {
    let input = "
            -5;
            !10;
        ";
    let input_size = count_statements(input);
    let (parser, prog) = setup(&input);

    let Node::Program(prog) = prog else {
        assert!(false, "prog is not Node::Program");
        return;
    };

    check_parser_errors(&parser);
    assert_program_len(&prog, input_size);

    let tests = vec![("-", 5), ("!", 10)];

    for (idx, test) in tests.iter().enumerate() {
        let actual = prog.statements.get(idx).unwrap();
        match actual {
            Node::Prefix(actual) => {
                assert_eq!(&actual.op, test.0);
                assert_integer_type(actual.right.as_ref(), test.1);
            }
            _ => {
                assert!(false, "expected Node::Ident, got=.");
            }
        }
    }
}

#[test]
fn test_parsing_integer_infix_expressions() {
    let input = "
            10 + 5;
            10 - 5;
            10 * 5;
            10 / 5;
            10 < 5;
            10 > 5;
            10 == 5;
            10 == 10;
            10 != 5;
            10 != 10;
        ";
    let input_size = count_statements(input);
    let (parser, prog) = setup(&input);

    let Node::Program(prog) = prog else {
        assert!(false, "prog is not Node::Program");
        return;
    };

    check_parser_errors(&parser);
    assert_program_len(&prog, input_size);

    let tests = vec![
        (10, "+", 5),
        (10, "-", 5),
        (10, "*", 5),
        (10, "/", 5),
        (10, "<", 5),
        (10, ">", 5),
        (10, "==", 5),
        (10, "==", 10),
        (10, "!=", 5),
        (10, "!=", 10),
    ];

    for (idx, test) in tests.iter().enumerate() {
        let actual = prog.statements.get(idx).unwrap();
        match actual {
            Node::Infix(actual) => {
                assert_eq!(&actual.op, test.1);

                assert_integer_type(actual.left.as_ref(), test.0);
                assert_integer_type(actual.right.as_ref(), test.2);
            }
            _ => {
                assert!(false, "expected Node::Ident, got=.");
            }
        }
    }
}

#[test]
fn test_parsing_boolean_infix_expressions() {
    let input = "
            true == true;
            true != false;
        ";
    let input_size = count_statements(input);
    let (parser, prog) = setup(&input);

    let Node::Program(prog) = prog else {
        assert!(false, "prog is not Node::Program");
        return;
    };

    check_parser_errors(&parser);
    assert_program_len(&prog, input_size);

    let tests = vec![(true, "==", true), (true, "!=", false)];

    for (idx, test) in tests.iter().enumerate() {
        let actual = prog.statements.get(idx).unwrap();
        match actual {
            Node::Infix(actual) => {
                assert_eq!(&actual.op, test.1);

                assert_boolean_type(actual.left.as_ref(), test.0);
                assert_boolean_type(actual.right.as_ref(), test.2);
            }
            _ => {
                assert!(false, "expected Node::Ident, got=.");
            }
        }
    }
}

#[test]
fn test_parsing_let_statements() {
    let input = "
        let a = 10;
        ";
    let input_size = count_statements(input);
    let (parser, prog) = setup(&input);

    let Node::Program(prog) = prog else {
        assert!(false, "prog is not Node::Program");
        return;
    };

    check_parser_errors(&parser);
    assert_program_len(&prog, input_size);

    let tests = vec![("a", 10)];

    for (idx, test) in tests.iter().enumerate() {
        let actual = prog.statements.get(idx).unwrap();
        match actual {
            Node::LetStatement(actual) => {
                assert_eq!(&actual.name.0, test.0);
                assert_integer_type(actual.value.as_ref(), test.1);
            }
            _ => {
                assert!(false, "expected Node::Ident, got=.");
            }
        }
    }
}

#[test]
fn test_parsing_return_statements() {
    let input = "
        return 10;
        ";
    let input_size = count_statements(input);
    let (parser, prog) = setup(&input);

    let Node::Program(prog) = prog else {
        assert!(false, "prog is not Node::Program");
        return;
    };

    check_parser_errors(&parser);
    assert_program_len(&prog, input_size);

    let tests = vec![10];

    for (idx, test) in tests.iter().enumerate() {
        let actual = prog.statements.get(idx).unwrap();
        match actual {
            Node::ReturnStatement(actual) => {
                assert_integer_type(actual.value.as_ref(), *test);
            }
            _ => {
                assert!(false, "expected Node::Return, got=.");
            }
        }
    }
}

#[test]
fn test_parsing_function_literal() {
    // (input, parameter names, body length, expected rendering)
    let tests: Vec<(&str, Vec<&str>, usize, &str)> = vec![
        ("fn () {}", vec![], 0, "fn () {  }"),
        ("fn(a) { 10; }", vec!["a"], 1, "fn (a) { 10 }"),
        (
            "fn(x, y) { let myVar = 0; return x + y + myVar; }",
            vec!["x", "y"],
            2,
            "fn (x, y) { let myVar = 0; return ((x + y) + myVar); }",
        ),
    ];

    for (input, params, body_len, test) in tests {
        let (parser, prog) = setup(&input);

        assert_eq!(prog.to_string(), test);

        let Node::Program(prog) = prog else {
            assert!(false, "prog is not Node::Program");
            return;
        };

        check_parser_errors(&parser);

        let Node::Function(f) = prog.statements.get(0).unwrap() else {
            assert!(
                prog.statements.get(0).is_none(),
                "Expected prog.statements.len()=1, got=0"
            );
            return;
        };

        assert_eq!(params.len(), f.parameters.len());

        let Node::BlockStatement(body) = f.body.as_ref() else {
            assert!(
                prog.statements.get(0).is_none(),
                "Expected prog.statements[0] to be Node::BlockStatement, got=."
            );
            return;
        };

        assert_eq!(body_len, body.statements.len());
    }
}

#[test]
fn test_call_expression() {
    let tests = vec![
        ("a();", "a()"),
        ("myFunc(a,b,c);", "myFunc(a, b, c)"),
        (
            "fn(x, y) { return x + y; }(10 + 2, -1);",
            "fn (x, y) { return (x + y); }((10 + 2), (-1))",
        ),
    ];
    for (input, test) in tests {
        let (parser, prog) = setup(&input);

        assert_eq!(prog.to_string(), test);

        let Node::Program(_prog) = prog else {
            assert!(false, "prog is not Node::Program");
            return;
        };

        check_parser_errors(&parser);
    }
}

#[test]
fn test_precedence_correctness() {
    let tests = vec![
        ("-a * b", "((-a) * b)"),
        ("!-a", "(!(-a))"),
        ("1 + (2 + 3) + 4", "((1 + (2 + 3)) + 4)"),
        ("a + b + c", "((a + b) + c)"),
        ("a + b - c", "((a + b) - c)"),
        ("a * b * c", "((a * b) * c)"),
        ("a * b / c", "((a * b) / c)"),
        ("a + b / c", "(a + (b / c))"),
        ("a * (b + c)", "(a * (b + c))"),
        ("a + b * c + d / e - f", "(((a + (b * c)) + (d / e)) - f)"),
        ("5 > 4 == 3 < 4", "((5 > 4) == (3 < 4))"),
        ("5 < 4 != 3 > 4", "((5 < 4) != (3 > 4))"),
        (
            "3 + 4 * 5 == 3 * 1 + 4 * 5",
            "((3 + (4 * 5)) == ((3 * 1) + (4 * 5)))",
        ),
        (
            "3 + 4 * 5 == 3 * 1 + 4 * 5",
            "((3 + (4 * 5)) == ((3 * 1) + (4 * 5)))",
        ),
    ];

    for (input, test) in tests {
        let (parser, prog) = setup(&input);

        assert_eq!(prog.to_string(), test);

        let Node::Program(_prog) = prog else {
            assert!(false, "prog is not Node::Program");
            return;
        };

        check_parser_errors(&parser);
    }
}

#[test]
fn test_parse_error_reported() {
    let (parser, _prog) = setup("let a 10;");
    assert!(parser.errors.len() > 0);
    assert_eq!(parser.errors[0], "Expected peek_token to be =, got INT");
}

#[test]
fn test_integer_literal_overflow_is_parse_error() {
    let (parser, prog) = setup("2147483648;");
    assert!(parser.errors.len() > 0);
    assert_eq!(parser.errors[0], "Cannot parse integer literal");
    let Node::Program(prog) = prog else {
        assert!(false, "prog is not Node::Program");
        return;
    };
    assert_eq!(prog.statements.len(), 0);
}

#[test]
fn test_largest_integer_literal_parses() {
    let (parser, prog) = setup("2147483647;");
    assert_eq!(parser.errors.len(), 0);
    let Node::Program(prog) = prog else {
        assert!(false, "prog is not Node::Program");
        return;
    };
    assert_integer_type(prog.statements.get(0).unwrap(), 2147483647);
}
