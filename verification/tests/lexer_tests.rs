use interp::lexer::Lexer;
use interp::token::TokenType;

#[test]
fn test_lexer_parsing_completeness() {
    let input = "
        +-*/
        ,;
        !<>= == !=
        () {}
        fn let return
        myVar 10
        ";

    let tests: Vec<(TokenType, &str)> = vec![
        (TokenType::Plus, "+"),
        (TokenType::Minus, "-"),
        (TokenType::Asterisk, "*"),
        (TokenType::Slash, "/"),
        (TokenType::Comma, ","),
        (TokenType::Semicolon, ";"),
        (TokenType::Bang, "!"),
        (TokenType::Lt, "<"),
        (TokenType::Gt, ">"),
        (TokenType::Assign, "="),
        (TokenType::Eq, "=="),
        (TokenType::NotEq, "!="),
        (TokenType::LParen, "("),
        (TokenType::RParen, ")"),
        (TokenType::LBrace, "{"),
        (TokenType::RBrace, "}"),
        (TokenType::Function, "fn"),
        (TokenType::Let, "let"),
        (TokenType::Return, "return"),
        (TokenType::Identifier, "myVar"),
        (TokenType::Int, "10"),
        (TokenType::Eof, "\0"),
    ];

    let mut lexer = Lexer::new(input);

    for (token, literal) in tests {
        let tk = lexer.next_token();
        assert_eq!(token, tk.token_type);
        assert_eq!(literal, tk.literal);
    }
}

#[test]
fn test_lexer_golden_sequence() {
    let input = "=+(){}let fn,;five-!*/<> if else return true false == != fn(){}";
    let expected: Vec<(TokenType, &str)> = vec![
        (TokenType::Assign, "="),
        (TokenType::Plus, "+"),
        (TokenType::LParen, "("),
        (TokenType::RParen, ")"),
        (TokenType::LBrace, "{"),
        (TokenType::RBrace, "}"),
        (TokenType::Let, "let"),
        (TokenType::Function, "fn"),
        (TokenType::Comma, ","),
        (TokenType::Semicolon, ";"),
        (TokenType::Identifier, "five"),
        (TokenType::Minus, "-"),
        (TokenType::Bang, "!"),
        (TokenType::Asterisk, "*"),
        (TokenType::Slash, "/"),
        (TokenType::Lt, "<"),
        (TokenType::Gt, ">"),
        (TokenType::If, "if"),
        (TokenType::Else, "else"),
        (TokenType::Return, "return"),
        (TokenType::True, "true"),
        (TokenType::False, "false"),
        (TokenType::Eq, "=="),
        (TokenType::NotEq, "!="),
        (TokenType::Function, "fn"),
        (TokenType::LParen, "("),
        (TokenType::RParen, ")"),
        (TokenType::LBrace, "{"),
        (TokenType::RBrace, "}"),
        (TokenType::Eof, "\0"),
    ];

    let mut lexer = Lexer::new(input);
    for (token, literal) in expected {
        let tk = lexer.next_token();
        assert_eq!(token, tk.token_type);
        assert_eq!(literal, tk.literal);
    }
}

#[test]
fn test_lexer_eof_indefinitely() {
    let mut lexer = Lexer::new("1");
    let first = lexer.next_token();
    assert_eq!(first.token_type, TokenType::Int);
    for _ in 0..5 {
        assert_eq!(lexer.next_token().token_type, TokenType::Eof);
    }
}

#[test]
fn test_lexer_illegal_carries_character() {
    let mut lexer = Lexer::new("@");
    let tk = lexer.next_token();
    assert_eq!(tk.token_type, TokenType::Illegal);
    assert_eq!(tk.literal, "@");
    assert_eq!(lexer.next_token().token_type, TokenType::Eof);
}
