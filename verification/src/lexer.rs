//! Lexer: a single-pass, character-driven scanner producing one token per
//! call, with single-character lookahead for the two-character operators
//! `==` and `!=`.
//!
//! The model is [`next_token_s`]: a total function from a lexer state to
//! the token read and the state left behind. [`Lexer::next_token`] is
//! proved to follow it exactly.

use vstd::prelude::*;
use vstd::string::StrSliceExecFns;
use crate::text::is_digit_char;
use crate::token::{Token, TokenType, TokenV, get_identifier, lookup_ident};

verus! {

/// Cursor state over the source text. `position` points at the character
/// held in `ch`; `read_position` is one past it, except at end of input
/// where both rest at the input's length and `ch` is NUL.
pub struct Lexer {
    pub input: String,
    pub ch: char,
    pub position: usize,
    pub read_position: usize,
}

/// Mathematical model of a lexer state.
pub ghost struct LexerV {
    pub input: Seq<char>,
    pub ch: char,
    pub position: int,
    pub read_position: int,
}

impl View for Lexer {
    type V = LexerV;

    open spec fn view(&self) -> LexerV {
        LexerV {
            input: self.input@,
            ch: self.ch,
            position: self.position as int,
            read_position: self.read_position as int,
        }
    }
}

/// A well-formed cursor: inside the input, `ch` caches the character at
/// `position` and `read_position` follows it; at the end, `ch` is NUL.
pub open spec fn lexer_wf(l: LexerV) -> bool {
    &&& 0 <= l.position <= l.input.len()
    &&& (l.position < l.input.len() ==> l.read_position == l.position + 1 && l.ch
        == l.input[l.position])
    &&& (l.position == l.input.len() ==> l.read_position == l.input.len() && l.ch == '\0')
}

/// One cursor step: load the character at `read_position`, or rest at the
/// end of the input with a NUL in `ch`.
pub open spec fn lexer_advance(l: LexerV) -> LexerV {
    if l.read_position >= l.input.len() {
        LexerV {
            input: l.input,
            ch: '\0',
            position: l.input.len() as int,
            read_position: l.input.len() as int,
        }
    } else {
        LexerV {
            input: l.input,
            ch: l.input[l.read_position],
            position: l.read_position,
            read_position: l.read_position + 1,
        }
    }
}

/// The state a fresh lexer starts in: the cursor advanced once from the
/// zeroed state, so `ch` holds the first character.
pub open spec fn lexer_init(s: Seq<char>) -> LexerV {
    lexer_advance(LexerV { input: s, ch: '\0', position: 0, read_position: 0 })
}

/// ASCII whitespace skipped between tokens.
pub open spec fn is_ws(c: char) -> bool {
    c == ' ' || c == '\t' || c == '\n' || c == '\r'
}

/// A letter for identifier purposes: ASCII alphabetic or underscore.
pub open spec fn is_letter_char(c: char) -> bool {
    ('a' <= c && c <= 'z') || ('A' <= c && c <= 'Z') || c == '_'
}

/// The cursor after skipping whitespace.
pub open spec fn skip_ws(l: LexerV) -> LexerV
    decreases l.input.len() - l.position,
    when lexer_wf(l)
{
    if is_ws(l.ch) {
        skip_ws(lexer_advance(l))
    } else {
        l
    }
}

/// The cursor after consuming a maximal run of letters.
pub open spec fn scan_letters(l: LexerV) -> LexerV
    decreases l.input.len() - l.position,
    when lexer_wf(l)
{
    if is_letter_char(l.ch) {
        scan_letters(lexer_advance(l))
    } else {
        l
    }
}

/// The cursor after consuming a maximal run of digits.
pub open spec fn scan_digits(l: LexerV) -> LexerV
    decreases l.input.len() - l.position,
    when lexer_wf(l)
{
    if is_digit_char(l.ch) {
        scan_digits(lexer_advance(l))
    } else {
        l
    }
}

/// The character after the current one, or NUL at the end of the input.
pub open spec fn lexer_peek(l: LexerV) -> char {
    if l.read_position < l.input.len() {
        l.input[l.read_position]
    } else {
        '\0'
    }
}

/// The token starting at the current cursor and the cursor left after it:
/// skip whitespace, then dispatch on the current character. Single-character
/// operators and punctuation map directly; `=` and `!` look one character
/// ahead for `==` and `!=`; a letter starts an identifier or keyword; a
/// digit starts an integer; NUL is end of input; anything else is an
/// `Illegal` token carrying that character.
pub open spec fn next_token_s(l0: LexerV) -> (TokenV, LexerV) {
    let l = skip_ws(l0);
    let c = l.ch;
    if c == '+' {
        (TokenV { kind: TokenType::Plus, literal: seq![c] }, lexer_advance(l))
    } else if c == '-' {
        (TokenV { kind: TokenType::Minus, literal: seq![c] }, lexer_advance(l))
    } else if c == '*' {
        (TokenV { kind: TokenType::Asterisk, literal: seq![c] }, lexer_advance(l))
    } else if c == '/' {
        (TokenV { kind: TokenType::Slash, literal: seq![c] }, lexer_advance(l))
    } else if c == ';' {
        (TokenV { kind: TokenType::Semicolon, literal: seq![c] }, lexer_advance(l))
    } else if c == ',' {
        (TokenV { kind: TokenType::Comma, literal: seq![c] }, lexer_advance(l))
    } else if c == '(' {
        (TokenV { kind: TokenType::LParen, literal: seq![c] }, lexer_advance(l))
    } else if c == ')' {
        (TokenV { kind: TokenType::RParen, literal: seq![c] }, lexer_advance(l))
    } else if c == '{' {
        (TokenV { kind: TokenType::LBrace, literal: seq![c] }, lexer_advance(l))
    } else if c == '}' {
        (TokenV { kind: TokenType::RBrace, literal: seq![c] }, lexer_advance(l))
    } else if c == '<' {
        (TokenV { kind: TokenType::Lt, literal: seq![c] }, lexer_advance(l))
    } else if c == '>' {
        (TokenV { kind: TokenType::Gt, literal: seq![c] }, lexer_advance(l))
    } else if c == '\0' {
        (TokenV { kind: TokenType::Eof, literal: seq!['\0'] }, l)
    } else if c == '=' {
        if lexer_peek(l) == '=' {
            (
                TokenV { kind: TokenType::Eq, literal: "=="@ },
                lexer_advance(lexer_advance(l)),
            )
        } else {
            (TokenV { kind: TokenType::Assign, literal: seq![c] }, lexer_advance(l))
        }
    } else if c == '!' {
        if lexer_peek(l) == '=' {
            (
                TokenV { kind: TokenType::NotEq, literal: "!="@ },
                lexer_advance(lexer_advance(l)),
            )
        } else {
            (TokenV { kind: TokenType::Bang, literal: seq![c] }, lexer_advance(l))
        }
    } else if is_letter_char(c) {
        let e = scan_letters(l);
        let lit = l.input.subrange(l.position, e.position);
        (TokenV { kind: lookup_ident(lit), literal: lit }, e)
    } else if is_digit_char(c) {
        let e = scan_digits(l);
        let lit = l.input.subrange(l.position, e.position);
        (TokenV { kind: TokenType::Int, literal: lit }, e)
    } else {
        (TokenV { kind: TokenType::Illegal, literal: seq![c] }, lexer_advance(l))
    }
}

/// Past the end of the input the lexer yields `Eof` indefinitely: reading
/// a token at the end leaves the state unchanged.
pub proof fn lemma_eof_indefinitely(l: LexerV)
    requires
        lexer_wf(l),
        l.position == l.input.len(),
    ensures
        next_token_s(l).0.kind == TokenType::Eof,
        next_token_s(l).1 == l,
{
    assert(skip_ws(l) == l);
}

/// When everything from the cursor to the end of the input is a digit,
/// the digit scan stops exactly at the end of the input.
pub proof fn lemma_scan_digits_to_end(l: LexerV)
    requires
        lexer_wf(l),
        forall|i: int| l.position <= i < l.input.len() ==> is_digit_char(#[trigger] l.input[i]),
    ensures
        scan_digits(l) == (LexerV {
            input: l.input,
            ch: '\0',
            position: l.input.len() as int,
            read_position: l.input.len() as int,
        }),
    decreases l.input.len() - l.position,
{
    if is_digit_char(l.ch) {
        assert(l.position < l.input.len());
        lemma_scan_digits_to_end(lexer_advance(l));
    } else {
        assert(l.position == l.input.len());
    }
}

impl Lexer {
    /// A lexer over `input`, with the cursor on the first character.
    pub fn new(input: &str) -> (l: Lexer)
        ensures
            l@ == lexer_init(input@),
            lexer_wf(l@),
    {
        let mut l = Lexer { input: input.to_owned(), ch: '\0', position: 0, read_position: 0 };
        l.read_char();
        l
    }

    /// The next token of the input; `Eof` indefinitely past the end.
    pub fn next_token(&mut self) -> (t: Token)
        requires
            lexer_wf(old(self)@),
        ensures
            lexer_wf(final(self)@),
            t@ == next_token_s(old(self)@).0,
            final(self)@ == next_token_s(old(self)@).1,
    {
        self.skip_whitespace();
        let tk: Token;
        match self.ch {
            '+' => { tk = self.char_token(TokenType::Plus); },
            '-' => { tk = self.char_token(TokenType::Minus); },
            '*' => { tk = self.char_token(TokenType::Asterisk); },
            '/' => { tk = self.char_token(TokenType::Slash); },
            ';' => { tk = self.char_token(TokenType::Semicolon); },
            ',' => { tk = self.char_token(TokenType::Comma); },
            '(' => { tk = self.char_token(TokenType::LParen); },
            ')' => { tk = self.char_token(TokenType::RParen); },
            '{' => { tk = self.char_token(TokenType::LBrace); },
            '}' => { tk = self.char_token(TokenType::RBrace); },
            '<' => { tk = self.char_token(TokenType::Lt); },
            '>' => { tk = self.char_token(TokenType::Gt); },
            '\0' => {
                let t = Token::new(TokenType::Eof, "\0");
                proof {
                    reveal_strlit("\0");
                    assert(t@.literal =~= seq!['\0']);
                }
                return t;
            },
            '=' => {
                if self.peek_char_is('=') {
                    self.read_char();
                    tk = self.new_token(TokenType::Eq, "==");
                    proof {
                        reveal_strlit("==");
                    }
                } else {
                    tk = self.char_token(TokenType::Assign);
                }
            },
            '!' => {
                if self.peek_char_is('=') {
                    self.read_char();
                    tk = self.new_token(TokenType::NotEq, "!=");
                    proof {
                        reveal_strlit("!=");
                    }
                } else {
                    tk = self.char_token(TokenType::Bang);
                }
            },
            _ => {
                if self.is_letter() {
                    let identifier = self.read_identifier();
                    let token_type = get_identifier(identifier.as_str());
                    return self.new_token(token_type, identifier.as_str());
                } else if self.is_digit() {
                    let number = self.read_number();
                    return self.new_token(TokenType::Int, number.as_str());
                }
                tk = self.char_token(TokenType::Illegal);
            },
        }
        self.read_char();
        tk
    }

    /// One cursor step.
    fn read_char(&mut self)
        ensures
            final(self)@ == lexer_advance(old(self)@),
            lexer_wf(final(self)@),
    {
        let l = self.input.as_str().unicode_len();
        if self.read_position >= l {
            self.ch = '\0';
            self.position = l;
            self.read_position = l;
        } else {
            self.ch = self.input.as_str().get_char(self.read_position);
            self.position = self.read_position;
            self.read_position = self.read_position + 1;
        }
    }

    /// Consumes a maximal run of letters and returns the lexeme.
    fn read_identifier(&mut self) -> (r: String)
        requires
            lexer_wf(old(self)@),
        ensures
            lexer_wf(final(self)@),
            final(self)@ == scan_letters(old(self)@),
            r@ == old(self)@.input.subrange(old(self)@.position, scan_letters(old(self)@).position),
    {
        let pos = self.position;
        while self.is_letter()
            invariant
                lexer_wf(self@),
                scan_letters(self@) == scan_letters(old(self)@),
                self@.input == old(self)@.input,
                pos <= self.position,
            decreases self@.input.len() - self@.position,
        {
            self.read_char();
        }
        self.input.as_str().substring_char(pos, self.position).to_owned()
    }

    /// Consumes a maximal run of digits and returns the lexeme.
    fn read_number(&mut self) -> (r: String)
        requires
            lexer_wf(old(self)@),
        ensures
            lexer_wf(final(self)@),
            final(self)@ == scan_digits(old(self)@),
            r@ == old(self)@.input.subrange(old(self)@.position, scan_digits(old(self)@).position),
    {
        let pos = self.position;
        while self.is_digit()
            invariant
                lexer_wf(self@),
                scan_digits(self@) == scan_digits(old(self)@),
                self@.input == old(self)@.input,
                pos <= self.position,
            decreases self@.input.len() - self@.position,
        {
            self.read_char();
        }
        self.input.as_str().substring_char(pos, self.position).to_owned()
    }

    /// A token made of the single character under the cursor, which is
    /// then left in place.
    fn char_token(&self, t: TokenType) -> (r: Token)
        requires
            lexer_wf(self@),
            self@.ch != '\0',
        ensures
            r@ == (TokenV { kind: t, literal: seq![self@.ch] }),
    {
        let lit = self.input.as_str().substring_char(self.position, self.position + 1);
        proof {
            assert(lit@ =~= seq![self@.ch]);
        }
        Token::new(t, lit)
    }

    /// A token with the given kind and lexeme.
    fn new_token(&self, token_type: TokenType, literal: &str) -> (r: Token)
        ensures
            r@ == (TokenV { kind: token_type, literal: literal@ }),
    {
        Token::new(token_type, literal)
    }

    /// The character after the current one, or NUL at the end.
    fn peek_char(&self) -> (c: char)
        requires
            lexer_wf(self@),
        ensures
            c == lexer_peek(self@),
    {
        let l = self.input.as_str().unicode_len();
        if self.read_position < l {
            return self.input.as_str().get_char(self.read_position);
        }
        '\0'
    }

    /// Whether the character after the current one is `ch`.
    fn peek_char_is(&self, ch: char) -> (r: bool)
        requires
            lexer_wf(self@),
        ensures
            r == (lexer_peek(self@) == ch),
    {
        self.peek_char() == ch
    }

    /// Whether the current character is a letter or underscore.
    fn is_letter(&self) -> (r: bool)
        ensures
            r == is_letter_char(self@.ch),
    {
        ('a' <= self.ch && self.ch <= 'z') || ('A' <= self.ch && self.ch <= 'Z') || (self.ch
            == '_')
    }

    /// Whether the current character is a decimal digit.
    fn is_digit(&self) -> (r: bool)
        ensures
            r == is_digit_char(self@.ch),
    {
        '0' <= self.ch && self.ch <= '9'
    }

    /// Skips ASCII whitespace.
    fn skip_whitespace(&mut self)
        requires
            lexer_wf(old(self)@),
        ensures
            lexer_wf(final(self)@),
            final(self)@ == skip_ws(old(self)@),
    {
        while self.ch == ' ' || self.ch == '\t' || self.ch == '\n' || self.ch == '\r'
            invariant
                lexer_wf(self@),
                skip_ws(self@) == skip_ws(old(self)@),
            decreases self@.input.len() - self@.position,
        {
            self.read_char();
        }
    }
}

} // verus!
