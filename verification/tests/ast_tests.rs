use interp::app::setup;

#[test]
fn test_node_to_string() {
    let tests = vec![
        ("10;", "10"),
        ("myVar;", "myVar"),
        ("false;", "false"),
        ("-10;", "(-10)"),
        ("5 + 10;", "(5 + 10)"),
        ("a + 10;", "(a + 10)"),
        ("let a = 100;", "let a = 100;"),
        ("return true;", "return true;"),
        (
            "if (10) { return 10; } else { return 5; }",
            "if (10) { return 10; } else { return 5; }",
        ),
        (
            "let myFunc = fn(a, b) { return -10 + 2; };",
            "let myFunc = fn (a, b) { return ((-10) + 2); };",
        ),
        ("myFunc(-10, false);", "myFunc((-10), false)"),
    ];

    for (input, test) in tests.iter() {
        let (_parser, prog) = setup(input);
        let actual = prog.to_string();
        assert_eq!(actual, test.to_owned());
    }
}

#[test]
fn test_render_reparse_stable() {
    // Rendering a parse result and parsing the rendering again renders the
    // same text.
    let inputs = vec![
        "-a * b",
        "!-a",
        "1 + (2 + 3) + 4",
        "a + b + c",
        "a + b - c",
        "a * b * c",
        "a * b / c",
        "a + b / c",
        "a * (b + c)",
        "a + b * c + d / e - f",
        "5 > 4 == 3 < 4",
        "5 < 4 != 3 > 4",
        "3 + 4 * 5 == 3 * 1 + 4 * 5",
        "let a = 10; let b = 5; a + b;",
        "let sum = fn(x, y) { return x + y; }; sum(10, 5);",
        "if (5 != 5) { 5 } else { 10 }",
        "fn (x) { return x; }(1)",
    ];
    for input in inputs {
        let (_p1, prog1) = setup(input);
        let rendered = prog1.to_string();
        let (_p2, prog2) = setup(rendered.as_str());
        assert_eq!(prog2.to_string(), rendered);
    }
}
