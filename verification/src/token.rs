//! Token model: the fixed enumeration of token kinds, tokens carrying
//! their lexeme, and the keyword table.

use vstd::prelude::*;
use crate::text::str_eq;

verus! {

/// The kind of a lexical token.
#[derive(Clone, Copy, Debug, PartialEq, Eq, Structural)]
pub enum TokenType {
    Illegal,
    Eof,
    Identifier,
    Int,
    Comma,
    Semicolon,
    LParen,
    RParen,
    LBrace,
    RBrace,
    Assign,
    Plus,
    Minus,
    Asterisk,
    Slash,
    Bang,
    Lt,
    Gt,
    Eq,
    NotEq,
    Let,
    Function,
    Return,
    If,
    Else,
    True,
    False,
}

/// A token: its kind and the lexeme it was read from.
#[derive(Debug)]
pub struct Token {
    pub token_type: TokenType,
    pub literal: String,
}

/// Mathematical model of a token: its kind and its lexeme's characters.
pub ghost struct TokenV {
    pub kind: TokenType,
    pub literal: Seq<char>,
}

impl View for Token {
    type V = TokenV;

    open spec fn view(&self) -> TokenV {
        TokenV { kind: self.token_type, literal: self.literal@ }
    }
}

impl Token {
    pub fn new(token_type: TokenType, literal: &str) -> (t: Token)
        ensures
            t@ == (TokenV { kind: token_type, literal: literal@ }),
    {
        Token { token_type, literal: literal.to_owned() }
    }
}

impl Clone for Token {
    fn clone(&self) -> (t: Token)
        ensures
            t@ == self@,
    {
        Token { token_type: self.token_type, literal: self.literal.clone() }
    }
}

/// The token kind an identifier lexeme denotes: a keyword kind for the
/// seven keywords, `Identifier` for everything else.
pub open spec fn lookup_ident(s: Seq<char>) -> TokenType {
    if s == "let"@ {
        TokenType::Let
    } else if s == "fn"@ {
        TokenType::Function
    } else if s == "return"@ {
        TokenType::Return
    } else if s == "if"@ {
        TokenType::If
    } else if s == "else"@ {
        TokenType::Else
    } else if s == "true"@ {
        TokenType::True
    } else if s == "false"@ {
        TokenType::False
    } else {
        TokenType::Identifier
    }
}

/// Case-sensitive keyword lookup for an identifier lexeme.
pub fn get_identifier(ident: &str) -> (t: TokenType)
    ensures
        t == lookup_ident(ident@),
{
    if str_eq(ident, "let") {
        TokenType::Let
    } else if str_eq(ident, "fn") {
        TokenType::Function
    } else if str_eq(ident, "return") {
        TokenType::Return
    } else if str_eq(ident, "if") {
        TokenType::If
    } else if str_eq(ident, "else") {
        TokenType::Else
    } else if str_eq(ident, "true") {
        TokenType::True
    } else if str_eq(ident, "false") {
        TokenType::False
    } else {
        TokenType::Identifier
    }
}

/// The display name of a token kind, as used in parser error messages.
pub open spec fn token_type_name(t: TokenType) -> Seq<char> {
    match t {
        TokenType::Illegal => "ILLEGAL"@,
        TokenType::Eof => "EOF"@,
        TokenType::Identifier => "IDENTIFIER"@,
        TokenType::Int => "INT"@,
        TokenType::Comma => ","@,
        TokenType::Semicolon => ";"@,
        TokenType::LParen => "("@,
        TokenType::RParen => ")"@,
        TokenType::LBrace => "{"@,
        TokenType::RBrace => "}"@,
        TokenType::Assign => "="@,
        TokenType::Plus => "+"@,
        TokenType::Minus => "-"@,
        TokenType::Asterisk => "*"@,
        TokenType::Slash => "/"@,
        TokenType::Bang => "!"@,
        TokenType::Lt => "<"@,
        TokenType::Gt => ">"@,
        TokenType::Eq => "=="@,
        TokenType::NotEq => "!="@,
        TokenType::Let => "LET"@,
        TokenType::Function => "FN"@,
        TokenType::Return => "RETURN"@,
        TokenType::If => "IF"@,
        TokenType::Else => "ELSE"@,
        TokenType::True => "TRUE"@,
        TokenType::False => "FALSE"@,
    }
}

/// The display name of a token kind.
pub fn token_type_str(t: TokenType) -> (r: &'static str)
    ensures
        r@ == token_type_name(t),
{
    match t {
        TokenType::Illegal => "ILLEGAL",
        TokenType::Eof => "EOF",
        TokenType::Identifier => "IDENTIFIER",
        TokenType::Int => "INT",
        TokenType::Comma => ",",
        TokenType::Semicolon => ";",
        TokenType::LParen => "(",
        TokenType::RParen => ")",
        TokenType::LBrace => "{",
        TokenType::RBrace => "}",
        TokenType::Assign => "=",
        TokenType::Plus => "+",
        TokenType::Minus => "-",
        TokenType::Asterisk => "*",
        TokenType::Slash => "/",
        TokenType::Bang => "!",
        TokenType::Lt => "<",
        TokenType::Gt => ">",
        TokenType::Eq => "==",
        TokenType::NotEq => "!=",
        TokenType::Let => "LET",
        TokenType::Function => "FN",
        TokenType::Return => "RETURN",
        TokenType::If => "IF",
        TokenType::Else => "ELSE",
        TokenType::True => "TRUE",
        TokenType::False => "FALSE",
    }
}

} // verus!
