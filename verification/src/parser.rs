//! Parser: a Pratt (precedence-climbing) parser assembling a uniform AST
//! from prefix and infix parse rules keyed on token kind.
//!
//! The model is a family of step-indexed (fuelled) functions over
//! [`ParserV`], one per parse rule, with [`parse_program_s`] at the top.
//! Grammar nesting is bounded by the input, never by any terminating
//! function alone, so the functions spend one fuel unit per descent;
//! [`Parser::parse_program`] runs with [`PARSE_FUEL`] — `u64::MAX`, beyond
//! any input a machine holds — and is proved to follow the model at that
//! fuel exactly. Failed expectations push an error string and yield a
//! `Nil` node; statement lists drop `Nil` nodes and parsing continues.

use vstd::prelude::*;
use vstd::string::StringExecFns;
use crate::ast::{
    Boolean, BlockStatement, CallExpression, FunctionLiteral, Identifier, IfExpression, Integer,
    InfixExpression, LetStatement, Node, NodeV, PrefixExpression, Program, ReturnStatement,
    lemma_nodes_view, lemma_nodes_view_push, node_view, nodes_view,
};
use crate::ast::{render_list, render_node};
use crate::lexer::{
    Lexer, LexerV, lemma_eof_indefinitely, lemma_scan_digits_to_end, lexer_init, lexer_wf,
    next_token_s, skip_ws,
};
use crate::text::{
    dec_digits, digits_val, fits_i32, is_digit_char, lemma_dec_digits_value, parse_i32_digits,
};
use crate::token::{Token, TokenType, TokenV, token_type_name, token_type_str};

verus! {

/// The fuel parsing runs with: more descents than any input can ask for.
pub const PARSE_FUEL: u64 = u64::MAX;

/// The precedence ladder, low to high.
pub const LOWEST: u8 = 0;

pub const EQUALS: u8 = 1;

pub const LESSGREATER: u8 = 2;

pub const ADD: u8 = 3;

pub const PRODUCT: u8 = 4;

pub const PREFIX: u8 = 5;

pub const CALL: u8 = 6;

/// The parser: the lexer it drives, the errors recorded so far, and
/// two-token lookahead.
pub struct Parser {
    pub l: Lexer,
    pub errors: Vec<String>,
    pub cur_token: Token,
    pub peek_token: Token,
}

/// Mathematical model of a parser state.
pub ghost struct ParserV {
    pub lexer: LexerV,
    pub cur: TokenV,
    pub peek: TokenV,
    pub errors: Seq<Seq<char>>,
}

/// The models of the error strings, in order.
pub open spec fn errors_view(s: Seq<String>) -> Seq<Seq<char>>
    decreases s.len(),
{
    if s.len() == 0 {
        Seq::empty()
    } else {
        errors_view(s.subrange(0, s.len() - 1)).push(s[s.len() - 1]@)
    }
}

/// `errors_view` maps the sequence elementwise.
pub broadcast proof fn lemma_errors_view(s: Seq<String>)
    ensures
        (#[trigger] errors_view(s)).len() == s.len(),
        forall|i: int| 0 <= i < s.len() ==> errors_view(s)[i] == s[i]@,
    decreases s.len(),
{
    if s.len() > 0 {
        lemma_errors_view(s.subrange(0, s.len() - 1));
    }
}

/// Appending one string appends its model.
pub broadcast proof fn lemma_errors_view_push(s: Seq<String>, e: String)
    ensures
        #[trigger] errors_view(s.push(e)) == errors_view(s).push(e@),
{
    assert(s.push(e).subrange(0, s.len() as int) =~= s);
    assert(s.push(e)[s.len() as int] == e);
}

impl View for Parser {
    type V = ParserV;

    open spec fn view(&self) -> ParserV {
        ParserV {
            lexer: self.l@,
            cur: self.cur_token@,
            peek: self.peek_token@,
            errors: errors_view(self.errors@),
        }
    }
}

/// A well-formed parser drives a well-formed lexer.
pub open spec fn parser_wf(p: ParserV) -> bool {
    lexer_wf(p.lexer)
}

/// The precedence a token binds with as an infix operator.
pub open spec fn token_precedence(t: TokenType) -> u8 {
    match t {
        TokenType::LParen => CALL,
        TokenType::Asterisk => PRODUCT,
        TokenType::Slash => PRODUCT,
        TokenType::Plus => ADD,
        TokenType::Minus => ADD,
        TokenType::Lt => LESSGREATER,
        TokenType::Gt => LESSGREATER,
        TokenType::Eq => EQUALS,
        TokenType::NotEq => EQUALS,
        _ => LOWEST,
    }
}

/// One step of lookahead: the peek token becomes current and the lexer
/// yields the next peek token.
pub open spec fn p_advance(p: ParserV) -> ParserV {
    let r = next_token_s(p.lexer);
    ParserV { lexer: r.1, cur: p.peek, peek: r.0, errors: p.errors }
}

/// The state a fresh parser starts in: both lookahead slots loaded.
pub open spec fn parser_init(l: LexerV) -> ParserV {
    let eof = TokenV { kind: TokenType::Eof, literal: "\0"@ };
    p_advance(p_advance(ParserV { lexer: l, cur: eof, peek: eof, errors: Seq::empty() }))
}

/// The message recorded when an expected token is missing.
pub open spec fn peek_error_msg(expected: TokenType, got: TokenType) -> Seq<char> {
    "Expected peek_token to be "@ + token_type_name(expected) + ", got "@ + token_type_name(got)
}

/// Advances past the peek token when it has the expected kind; otherwise
/// records an error and stays.
pub open spec fn expect_peek_s(p: ParserV, t: TokenType) -> (ParserV, bool) {
    if p.peek.kind == t {
        (p_advance(p), true)
    } else {
        (
            ParserV {
                lexer: p.lexer,
                cur: p.cur,
                peek: p.peek,
                errors: p.errors.push(peek_error_msg(t, p.peek.kind)),
            },
            false,
        )
    }
}

/// The whole program: statements until end of input.
pub open spec fn parse_program_s(p: ParserV, fuel: nat) -> (ParserV, NodeV) {
    let r = parse_stmt_list_s(p, Seq::empty(), false, fuel);
    (r.0, NodeV::Program { statements: r.1 })
}

/// Statements until end of input — or, inside a block, until a closing
/// brace. Failed statements (`Nil`) are dropped.
pub open spec fn parse_stmt_list_s(p: ParserV, acc: Seq<NodeV>, stop_rbrace: bool, fuel: nat) -> (
    ParserV,
    Seq<NodeV>,
)
    decreases fuel,
{
    if fuel == 0 {
        (p, acc)
    } else if p.cur.kind == TokenType::Eof || (stop_rbrace && p.cur.kind == TokenType::RBrace) {
        (p, acc)
    } else {
        let r = parse_statement_s(p, (fuel - 1) as nat);
        let acc2 = if r.1 is Nil {
            acc
        } else {
            acc.push(r.1)
        };
        parse_stmt_list_s(p_advance(r.0), acc2, stop_rbrace, (fuel - 1) as nat)
    }
}

/// Statement dispatch: `let`, `return`, otherwise an expression statement.
pub open spec fn parse_statement_s(p: ParserV, fuel: nat) -> (ParserV, NodeV)
    decreases fuel,
{
    if fuel == 0 {
        (p, NodeV::Nil)
    } else {
        let f = (fuel - 1) as nat;
        match p.cur.kind {
            TokenType::Let => parse_let_statement_s(p, f),
            TokenType::Return => parse_return_statement_s(p, f),
            _ => parse_expression_s(p, LOWEST, f),
        }
    }
}

/// Pratt expression parsing: a prefix rule for the current token, then
/// infix rules while the peek token binds tighter than `prec`.
pub open spec fn parse_expression_s(p: ParserV, prec: u8, fuel: nat) -> (ParserV, NodeV)
    decreases fuel,
{
    if fuel == 0 {
        (p, NodeV::Nil)
    } else {
        let r = parse_prefix_operation_s(p, (fuel - 1) as nat);
        parse_infix_loop_s(r.0, r.1, prec, (fuel - 1) as nat)
    }
}

/// The infix loop of [`parse_expression_s`].
pub open spec fn parse_infix_loop_s(p: ParserV, left: NodeV, prec: u8, fuel: nat) -> (
    ParserV,
    NodeV,
)
    decreases fuel,
{
    if fuel == 0 {
        (p, left)
    } else if prec < token_precedence(p.peek.kind) {
        let p1 = p_advance(p);
        let r = call_infix_parser_s(p1, left, (fuel - 1) as nat);
        if r.2 {
            parse_infix_loop_s(r.0, r.1, prec, (fuel - 1) as nat)
        } else {
            (r.0, r.1)
        }
    } else {
        (p, left)
    }
}

/// Prefix rules by current-token kind; a token with no rule yields `Nil`.
pub open spec fn parse_prefix_operation_s(p: ParserV, fuel: nat) -> (ParserV, NodeV)
    decreases fuel,
{
    if fuel == 0 {
        (p, NodeV::Nil)
    } else {
        let f = (fuel - 1) as nat;
        match p.cur.kind {
            TokenType::Int => parse_integer_s(p),
            TokenType::True => (p, NodeV::Bool { value: true }),
            TokenType::False => (p, NodeV::Bool { value: false }),
            TokenType::Identifier => (p, NodeV::Ident { name: p.cur.literal }),
            TokenType::Function => parse_function_literal_s(p, f),
            TokenType::Minus => parse_prefix_expression_s(p, f),
            TokenType::Bang => parse_prefix_expression_s(p, f),
            TokenType::If => parse_if_expression_s(p, f),
            TokenType::LParen => {
                let p1 = p_advance(p);
                let r = parse_expression_s(p1, LOWEST, f);
                let e = expect_peek_s(r.0, TokenType::RParen);
                if e.1 {
                    (e.0, r.1)
                } else {
                    (e.0, NodeV::Nil)
                }
            },
            _ => (p, NodeV::Nil),
        }
    }
}

/// Infix rules by current-token kind: the eight binary operators build an
/// infix expression, `(` builds a call. The flag reports whether a rule
/// applied; when none did, `left` is handed back untouched.
pub open spec fn call_infix_parser_s(p: ParserV, left: NodeV, fuel: nat) -> (ParserV, NodeV, bool)
    decreases fuel,
{
    if fuel == 0 {
        (p, left, false)
    } else {
        let f = (fuel - 1) as nat;
        match p.cur.kind {
            TokenType::Plus => infix_applied(parse_infix_expression_s(p, left, f)),
            TokenType::Minus => infix_applied(parse_infix_expression_s(p, left, f)),
            TokenType::Asterisk => infix_applied(parse_infix_expression_s(p, left, f)),
            TokenType::Slash => infix_applied(parse_infix_expression_s(p, left, f)),
            TokenType::Eq => infix_applied(parse_infix_expression_s(p, left, f)),
            TokenType::NotEq => infix_applied(parse_infix_expression_s(p, left, f)),
            TokenType::Lt => infix_applied(parse_infix_expression_s(p, left, f)),
            TokenType::Gt => infix_applied(parse_infix_expression_s(p, left, f)),
            TokenType::LParen => parse_call_expression_s(p, left, f),
            _ => (p, left, false),
        }
    }
}

/// Marks an infix rule as applied.
pub open spec fn infix_applied(r: (ParserV, NodeV)) -> (ParserV, NodeV, bool) {
    (r.0, r.1, true)
}

/// `let NAME = EXPR;` — the name must be an identifier.
pub open spec fn parse_let_statement_s(p: ParserV, fuel: nat) -> (ParserV, NodeV)
    decreases fuel,
{
    if fuel == 0 {
        (p, NodeV::Nil)
    } else {
        let e1 = expect_peek_s(p, TokenType::Identifier);
        if !e1.1 {
            (e1.0, NodeV::Nil)
        } else {
            let p1 = e1.0;
            let name = p1.cur.literal;
            let e2 = expect_peek_s(p1, TokenType::Assign);
            if !e2.1 {
                (e2.0, NodeV::Nil)
            } else {
                let p2 = p_advance(e2.0);
                let r = parse_expression_s(p2, LOWEST, (fuel - 1) as nat);
                let e3 = expect_peek_s(r.0, TokenType::Semicolon);
                if !e3.1 {
                    (e3.0, NodeV::Nil)
                } else {
                    (e3.0, NodeV::Let { name, value: Box::new(r.1) })
                }
            }
        }
    }
}

/// `return EXPR` — a trailing semicolon is left for the statement list,
/// where it parses to a dropped `Nil` statement.
pub open spec fn parse_return_statement_s(p: ParserV, fuel: nat) -> (ParserV, NodeV)
    decreases fuel,
{
    if fuel == 0 {
        (p, NodeV::Nil)
    } else {
        let p1 = p_advance(p);
        let r = parse_expression_s(p1, LOWEST, (fuel - 1) as nat);
        (r.0, NodeV::Ret { value: Box::new(r.1) })
    }
}

/// `if (COND) { ... } [else { ... }]`.
pub open spec fn parse_if_expression_s(p: ParserV, fuel: nat) -> (ParserV, NodeV)
    decreases fuel,
{
    if fuel == 0 {
        (p, NodeV::Nil)
    } else {
        let f = (fuel - 1) as nat;
        let e1 = expect_peek_s(p, TokenType::LParen);
        if !e1.1 {
            (e1.0, NodeV::Nil)
        } else {
            let p1 = p_advance(e1.0);
            let c = parse_expression_s(p1, LOWEST, f);
            let e2 = expect_peek_s(c.0, TokenType::RParen);
            if !e2.1 {
                (e2.0, NodeV::Nil)
            } else {
                let e3 = expect_peek_s(e2.0, TokenType::LBrace);
                if !e3.1 {
                    (e3.0, NodeV::Nil)
                } else {
                    let b = parse_stmt_list_s(p_advance(e3.0), Seq::empty(), true, f);
                    if b.0.peek.kind == TokenType::Else {
                        let p2 = p_advance(b.0);
                        let e4 = expect_peek_s(p2, TokenType::LBrace);
                        if !e4.1 {
                            (e4.0, NodeV::Nil)
                        } else {
                            let a = parse_stmt_list_s(p_advance(e4.0), Seq::empty(), true, f);
                            (
                                a.0,
                                NodeV::If {
                                    condition: Box::new(c.1),
                                    consequence: b.1,
                                    alternative: a.1,
                                },
                            )
                        }
                    } else {
                        (
                            b.0,
                            NodeV::If {
                                condition: Box::new(c.1),
                                consequence: b.1,
                                alternative: Seq::empty(),
                            },
                        )
                    }
                }
            }
        }
    }
}

/// The identifiers after the first parameter: `, NAME` pairs.
pub open spec fn parse_params_s(p: ParserV, acc: Seq<NodeV>, fuel: nat) -> (ParserV, Seq<NodeV>, bool)
    decreases fuel,
{
    if fuel == 0 {
        (p, acc, true)
    } else if p.peek.kind == TokenType::Comma {
        let p1 = p_advance(p);
        let e = expect_peek_s(p1, TokenType::Identifier);
        if !e.1 {
            (e.0, acc, false)
        } else {
            parse_params_s(e.0, acc.push(NodeV::Ident { name: e.0.cur.literal }), (fuel - 1) as nat)
        }
    } else {
        (p, acc, true)
    }
}

/// `fn (P1, P2, ...) { ... }` — parameters must be identifiers.
pub open spec fn parse_function_literal_s(p: ParserV, fuel: nat) -> (ParserV, NodeV)
    decreases fuel,
{
    if fuel == 0 {
        (p, NodeV::Nil)
    } else {
        let f = (fuel - 1) as nat;
        let e1 = expect_peek_s(p, TokenType::LParen);
        if !e1.1 {
            (e1.0, NodeV::Nil)
        } else if e1.0.peek.kind == TokenType::RParen {
            let e2 = expect_peek_s(e1.0, TokenType::RParen);
            parse_function_body_s(e2.0, Seq::empty(), f)
        } else {
            let e2 = expect_peek_s(e1.0, TokenType::Identifier);
            if !e2.1 {
                (e2.0, NodeV::Nil)
            } else {
                let ps = parse_params_s(e2.0, seq![NodeV::Ident { name: e2.0.cur.literal }], f);
                if !ps.2 {
                    (ps.0, NodeV::Nil)
                } else {
                    let e3 = expect_peek_s(ps.0, TokenType::RParen);
                    if !e3.1 {
                        (e3.0, NodeV::Nil)
                    } else {
                        parse_function_body_s(e3.0, ps.1, f)
                    }
                }
            }
        }
    }
}

/// The brace-delimited body of a function literal.
pub open spec fn parse_function_body_s(p: ParserV, params: Seq<NodeV>, fuel: nat) -> (
    ParserV,
    NodeV,
)
    decreases fuel,
{
    if fuel == 0 {
        (p, NodeV::Nil)
    } else {
        let e = expect_peek_s(p, TokenType::LBrace);
        if !e.1 {
            (e.0, NodeV::Nil)
        } else {
            let b = parse_stmt_list_s(p_advance(e.0), Seq::empty(), true, (fuel - 1) as nat);
            (
                b.0,
                NodeV::Func {
                    parameters: params,
                    body: Box::new(NodeV::Block { statements: b.1 }),
                },
            )
        }
    }
}

/// The arguments after the first one, up to the closing parenthesis.
pub open spec fn parse_call_args_s(p: ParserV, acc: Seq<NodeV>, fuel: nat) -> (ParserV, Seq<NodeV>)
    decreases fuel,
{
    if fuel == 0 {
        (p, acc)
    } else if p.peek.kind == TokenType::RParen || p.peek.kind == TokenType::Eof {
        (p, acc)
    } else {
        let p1 = p_advance(p_advance(p));
        let r = parse_expression_s(p1, LOWEST, (fuel - 1) as nat);
        parse_call_args_s(r.0, acc.push(r.1), (fuel - 1) as nat)
    }
}

/// `LEFT(ARGS...)` — the call rule. When the closing parenthesis is
/// missing, an error is recorded and `left` is handed back unapplied.
pub open spec fn parse_call_expression_s(p: ParserV, left: NodeV, fuel: nat) -> (
    ParserV,
    NodeV,
    bool,
)
    decreases fuel,
{
    if fuel == 0 {
        (p, left, false)
    } else {
        let f = (fuel - 1) as nat;
        let p1 = p_advance(p);
        if p1.cur.kind == TokenType::RParen {
            (
                p1,
                NodeV::Call { function: Box::new(left), arguments: Seq::empty() },
                true,
            )
        } else {
            let a0 = parse_expression_s(p1, LOWEST, f);
            let rest = parse_call_args_s(a0.0, seq![a0.1], f);
            let e = expect_peek_s(rest.0, TokenType::RParen);
            if e.1 {
                (e.0, NodeV::Call { function: Box::new(left), arguments: rest.1 }, true)
            } else {
                (e.0, left, false)
            }
        }
    }
}

/// An integer literal; one outside the 32-bit signed range is a parse
/// error and yields `Nil`.
pub open spec fn parse_integer_s(p: ParserV) -> (ParserV, NodeV) {
    if fits_i32(p.cur.literal) {
        (p, NodeV::Int { value: digits_val(p.cur.literal) as i32 })
    } else {
        (
            ParserV {
                lexer: p.lexer,
                cur: p.cur,
                peek: p.peek,
                errors: p.errors.push("Cannot parse integer literal"@),
            },
            NodeV::Nil,
        )
    }
}

/// `-EXPR` or `!EXPR`: the operand binds at prefix precedence.
pub open spec fn parse_prefix_expression_s(p: ParserV, fuel: nat) -> (ParserV, NodeV)
    decreases fuel,
{
    if fuel == 0 {
        (p, NodeV::Nil)
    } else {
        let op = p.cur.literal;
        let p1 = p_advance(p);
        let r = parse_expression_s(p1, PREFIX, (fuel - 1) as nat);
        (r.0, NodeV::Prefix { op, right: Box::new(r.1) })
    }
}

/// `LEFT op RIGHT`: the right operand binds at the operator's own
/// precedence, so equal precedences group to the left.
pub open spec fn parse_infix_expression_s(p: ParserV, left: NodeV, fuel: nat) -> (ParserV, NodeV)
    decreases fuel,
{
    if fuel == 0 {
        (p, NodeV::Nil)
    } else {
        let op = p.cur.literal;
        let prec = token_precedence(p.cur.kind);
        let p1 = p_advance(p);
        let r = parse_expression_s(p1, prec, (fuel - 1) as nat);
        (r.0, NodeV::Infix { op, left: Box::new(left), right: Box::new(r.1) })
    }
}

/// Rendering is stable under re-parsing, shown end to end for the
/// programs that hold one nonnegative integer literal: parsing the
/// rendering of such a program parses without errors and renders back to
/// the same text. (A negative integer is not a literal; it parses as a
/// prefix expression.)
pub proof fn lemma_render_reparse_int(n: i32)
    requires
        n >= 0,
    ensures
        ({
            let src = dec_digits(n as int);
            let pr = parse_program_s(parser_init(lexer_init(src)), PARSE_FUEL as nat);
            pr.0.errors.len() == 0 && render_node(pr.1) == src
        }),
{
    let src = dec_digits(n as int);
    lemma_dec_digits_value(n as int);
    let l0 = lexer_init(src);
    assert(lexer_wf(l0));
    assert(is_digit_char(l0.ch));
    assert(skip_ws(l0) == l0);
    lemma_scan_digits_to_end(l0);
    let lend = LexerV {
        input: src,
        ch: '\0',
        position: src.len() as int,
        read_position: src.len() as int,
    };
    let t = next_token_s(l0);
    assert(t.0.kind == TokenType::Int);
    assert(t.0.literal =~= src);
    assert(t.1 == lend);
    lemma_eof_indefinitely(lend);
    let p2 = parser_init(l0);
    assert(p2.cur.kind == TokenType::Int && p2.cur.literal == t.0.literal);
    assert(p2.peek.kind == TokenType::Eof);
    assert(p2.lexer == lend);
    assert(p2.errors.len() == 0);
    let fuel = PARSE_FUEL as nat;
    assert(fits_i32(p2.cur.literal));
    let int_node = parse_integer_s(p2).1;
    assert(int_node == (NodeV::Int { value: n }));
    let e = parse_expression_s(p2, LOWEST, (fuel - 2) as nat);
    assert(token_precedence(p2.peek.kind) == LOWEST);
    assert(e == (p2, int_node));
    let st = parse_statement_s(p2, (fuel - 1) as nat);
    assert(st == (p2, int_node));
    let p3 = p_advance(p2);
    assert(p3.cur.kind == TokenType::Eof);
    reveal_with_fuel(parse_stmt_list_s, 3);
    let sl = parse_stmt_list_s(p2, Seq::empty(), false, fuel);
    assert(sl.1 =~= seq![int_node]);
    assert(sl.0 == p3);
    let pr = parse_program_s(parser_init(lexer_init(src)), fuel);
    assert(pr.1 == (NodeV::Program { statements: seq![int_node] }));
    assert(render_list(seq![int_node], "\n"@) == render_node(int_node)) by {
        assert(seq![int_node].len() == 1);
    }
    assert(render_node(pr.1) == src);
}

impl Parser {
    /// A parser over `l`, with both lookahead tokens loaded.
    pub fn new(l: Lexer) -> (p: Parser)
        requires
            lexer_wf(l@),
        ensures
            parser_wf(p@),
            p@ == parser_init(l@),
    {
        let mut parser = Parser {
            l,
            errors: Vec::new(),
            cur_token: Token::new(TokenType::Eof, "\0"),
            peek_token: Token::new(TokenType::Eof, "\0"),
        };
        proof {
            assert(errors_view(parser.errors@) =~= Seq::<Seq<char>>::empty());
        }
        parser.next_token();
        parser.next_token();
        parser
    }

    /// Loads the next token: `cur` takes `peek`, the lexer fills `peek`.
    fn next_token(&mut self)
        requires
            parser_wf(old(self)@),
        ensures
            parser_wf(final(self)@),
            final(self)@ == p_advance(old(self)@),
    {
        self.cur_token = self.peek_token.clone();
        self.peek_token = self.l.next_token();
    }

    /// Parses the whole input into a `Program` node, recording an error
    /// string for every failed expectation along the way.
    pub fn parse_program(&mut self) -> (r: Node)
        requires
            parser_wf(old(self)@),
        ensures
            parser_wf(final(self)@),
            final(self)@ == parse_program_s(old(self)@, PARSE_FUEL as nat).0,
            r@ == parse_program_s(old(self)@, PARSE_FUEL as nat).1,
    {
        broadcast use lemma_nodes_view;

        let statements = self.parse_statement_list(false, PARSE_FUEL);
        Node::Program(Program { statements })
    }

    /// Statements until end of input or, inside a block, a closing brace.
    #[verifier::loop_isolation(false)]
    fn parse_statement_list(&mut self, stop_rbrace: bool, fuel: u64) -> (r: Vec<Node>)
        requires
            parser_wf(old(self)@),
        ensures
            parser_wf(final(self)@),
            final(self)@ == parse_stmt_list_s(old(self)@, Seq::empty(), stop_rbrace, fuel as nat).0,
            nodes_view(r@) == parse_stmt_list_s(
                old(self)@,
                Seq::empty(),
                stop_rbrace,
                fuel as nat,
            ).1,
        decreases fuel, 4nat,
    {
        broadcast use lemma_nodes_view, lemma_nodes_view_push;

        let ghost goal = parse_stmt_list_s(old(self)@, Seq::empty(), stop_rbrace, fuel as nat);
        let mut statements: Vec<Node> = Vec::new();
        let mut fl: u64 = fuel;
        loop
            invariant
                parser_wf(self@),
                fl <= fuel,
                parse_stmt_list_s(self@, nodes_view(statements@), stop_rbrace, fl as nat) == goal,
            decreases fl,
        {
            if fl == 0 || self.cur_token_is(TokenType::Eof) || (stop_rbrace && self.cur_token_is(
                TokenType::RBrace,
            )) {
                break;
            }
            let stmt = self.parse_statement(fl - 1);
            if !stmt.is_nil() {
                statements.push(stmt);
            }
            self.next_token();
            fl = fl - 1;
        }
        statements
    }

    /// Statement dispatch: `let`, `return`, otherwise an expression.
    fn parse_statement(&mut self, fuel: u64) -> (r: Node)
        requires
            parser_wf(old(self)@),
        ensures
            parser_wf(final(self)@),
            final(self)@ == parse_statement_s(old(self)@, fuel as nat).0,
            r@ == parse_statement_s(old(self)@, fuel as nat).1,
        decreases fuel, 3nat,
    {
        if fuel == 0 {
            return Node::Nil;
        }
        let f = fuel - 1;
        match self.cur_token.token_type {
            TokenType::Let => self.parse_let_statement(f),
            TokenType::Return => self.parse_return_statement(f),
            _ => self.parse_expression_statement(f),
        }
    }

    /// An expression used as a statement.
    fn parse_expression_statement(&mut self, fuel: u64) -> (r: Node)
        requires
            parser_wf(old(self)@),
        ensures
            parser_wf(final(self)@),
            final(self)@ == parse_expression_s(old(self)@, LOWEST, fuel as nat).0,
            r@ == parse_expression_s(old(self)@, LOWEST, fuel as nat).1,
        decreases fuel, 2nat,
    {
        self.parse_expression(LOWEST, fuel)
    }

    /// Pratt expression parsing at the given precedence.
    #[verifier::loop_isolation(false)]
    fn parse_expression(&mut self, precedence: u8, fuel: u64) -> (r: Node)
        requires
            parser_wf(old(self)@),
        ensures
            parser_wf(final(self)@),
            final(self)@ == parse_expression_s(old(self)@, precedence, fuel as nat).0,
            r@ == parse_expression_s(old(self)@, precedence, fuel as nat).1,
        decreases fuel, 1nat,
    {
        if fuel == 0 {
            return Node::Nil;
        }
        let ghost goal = parse_expression_s(old(self)@, precedence, fuel as nat);
        let mut left = self.parse_prefix_operation(fuel - 1);
        let mut fl: u64 = fuel - 1;
        loop
            invariant
                parser_wf(self@),
                fl < fuel,
                parse_infix_loop_s(self@, left@, precedence, fl as nat) == (goal.0, goal.1),
            decreases fl,
        {
            if fl == 0 || !(precedence < self.peek_precedence()) {
                break;
            }
            self.next_token();
            let r = self.call_infix_parser(left, fl - 1);
            if !r.1 {
                return r.0;
            }
            left = r.0;
            fl = fl - 1;
        }
        left
    }

    /// The prefix rule for the current token; `Nil` when there is none.
    fn parse_prefix_operation(&mut self, fuel: u64) -> (r: Node)
        requires
            parser_wf(old(self)@),
        ensures
            parser_wf(final(self)@),
            final(self)@ == parse_prefix_operation_s(old(self)@, fuel as nat).0,
            r@ == parse_prefix_operation_s(old(self)@, fuel as nat).1,
        decreases fuel, 0nat,
    {
        if fuel == 0 {
            return Node::Nil;
        }
        let f = fuel - 1;
        match self.cur_token.token_type {
            TokenType::Int => self.parse_integer(),
            TokenType::True => self.parse_boolean(),
            TokenType::False => self.parse_boolean(),
            TokenType::Identifier => self.parse_identifier(),
            TokenType::Function => self.parse_function_literal(f),
            TokenType::Minus => self.parse_prefix_expression(f),
            TokenType::Bang => self.parse_prefix_expression(f),
            TokenType::If => self.parse_if_expression(f),
            TokenType::LParen => {
                self.next_token();
                let group = self.parse_expression(LOWEST, f);
                if !self.expect_peek(TokenType::RParen) {
                    return Node::Nil;
                }
                group
            },
            _ => Node::Nil,
        }
    }

    /// The infix rule for the current token; hands `left` back unapplied
    /// when there is none or the rule fails.
    fn call_infix_parser(&mut self, left: Node, fuel: u64) -> (r: (Node, bool))
        requires
            parser_wf(old(self)@),
        ensures
            parser_wf(final(self)@),
            final(self)@ == call_infix_parser_s(old(self)@, left@, fuel as nat).0,
            r.0@ == call_infix_parser_s(old(self)@, left@, fuel as nat).1,
            r.1 == call_infix_parser_s(old(self)@, left@, fuel as nat).2,
        decreases fuel, 0nat,
    {
        if fuel == 0 {
            return (left, false);
        }
        let f = fuel - 1;
        match self.cur_token.token_type {
            TokenType::Plus => (self.parse_infix_expression(left, f), true),
            TokenType::Minus => (self.parse_infix_expression(left, f), true),
            TokenType::Asterisk => (self.parse_infix_expression(left, f), true),
            TokenType::Slash => (self.parse_infix_expression(left, f), true),
            TokenType::Eq => (self.parse_infix_expression(left, f), true),
            TokenType::NotEq => (self.parse_infix_expression(left, f), true),
            TokenType::Lt => (self.parse_infix_expression(left, f), true),
            TokenType::Gt => (self.parse_infix_expression(left, f), true),
            TokenType::LParen => self.parse_call_expression(left, f),
            _ => (left, false),
        }
    }

    /// `let NAME = EXPR;`.
    fn parse_let_statement(&mut self, fuel: u64) -> (r: Node)
        requires
            parser_wf(old(self)@),
        ensures
            parser_wf(final(self)@),
            final(self)@ == parse_let_statement_s(old(self)@, fuel as nat).0,
            r@ == parse_let_statement_s(old(self)@, fuel as nat).1,
        decreases fuel, 0nat,
    {
        if fuel == 0 {
            return Node::Nil;
        }
        if !self.expect_peek(TokenType::Identifier) {
            return Node::Nil;
        }
        let name = Identifier(self.cur_token.literal.clone());
        if !self.expect_peek(TokenType::Assign) {
            return Node::Nil;
        }
        self.next_token();
        let value = self.parse_expression(LOWEST, fuel - 1);
        if !self.expect_peek(TokenType::Semicolon) {
            return Node::Nil;
        }
        Node::LetStatement(LetStatement { name, value: Box::new(value) })
    }

    /// `return EXPR`.
    fn parse_return_statement(&mut self, fuel: u64) -> (r: Node)
        requires
            parser_wf(old(self)@),
        ensures
            parser_wf(final(self)@),
            final(self)@ == parse_return_statement_s(old(self)@, fuel as nat).0,
            r@ == parse_return_statement_s(old(self)@, fuel as nat).1,
        decreases fuel, 0nat,
    {
        if fuel == 0 {
            return Node::Nil;
        }
        self.next_token();
        let value = self.parse_expression(LOWEST, fuel - 1);
        Node::ReturnStatement(ReturnStatement { value: Box::new(value) })
    }

    /// `if (COND) { ... } [else { ... }]`.
    fn parse_if_expression(&mut self, fuel: u64) -> (r: Node)
        requires
            parser_wf(old(self)@),
        ensures
            parser_wf(final(self)@),
            final(self)@ == parse_if_expression_s(old(self)@, fuel as nat).0,
            r@ == parse_if_expression_s(old(self)@, fuel as nat).1,
        decreases fuel, 0nat,
    {
        if fuel == 0 {
            return Node::Nil;
        }
        let f = fuel - 1;
        if !self.expect_peek(TokenType::LParen) {
            return Node::Nil;
        }
        self.next_token();
        let condition = self.parse_expression(LOWEST, f);
        if !self.expect_peek(TokenType::RParen) {
            return Node::Nil;
        }
        if !self.expect_peek(TokenType::LBrace) {
            return Node::Nil;
        }
        self.next_token();
        let consequence = self.parse_statement_list(true, f);
        if self.peek_token_is(TokenType::Else) {
            self.next_token();
            if !self.expect_peek(TokenType::LBrace) {
                return Node::Nil;
            }
            self.next_token();
            let ghost cv = nodes_view(consequence@);
            let alternative = self.parse_statement_list(true, f);
            let ghost av = nodes_view(alternative@);
            let r = Node::IfExpression(
                IfExpression { condition: Box::new(condition), consequence, alternative },
            );
            proof {
                assert(node_view(r) == (NodeV::If {
                    condition: Box::new(node_view(condition)),
                    consequence: cv,
                    alternative: av,
                }));
            }
            r
        } else {
            let ghost cv = nodes_view(consequence@);
            let alternative: Vec<Node> = Vec::new();
            let ghost av = nodes_view(alternative@);
            proof {
                assert(av =~= Seq::<NodeV>::empty());
            }
            let r = Node::IfExpression(
                IfExpression { condition: Box::new(condition), consequence, alternative },
            );
            proof {
                assert(node_view(r) == (NodeV::If {
                    condition: Box::new(node_view(condition)),
                    consequence: cv,
                    alternative: av,
                }));
            }
            r
        }
    }

    /// `fn (P1, P2, ...) { ... }`.
    #[verifier::loop_isolation(false)]
    fn parse_function_literal(&mut self, fuel: u64) -> (r: Node)
        requires
            parser_wf(old(self)@),
        ensures
            parser_wf(final(self)@),
            final(self)@ == parse_function_literal_s(old(self)@, fuel as nat).0,
            r@ == parse_function_literal_s(old(self)@, fuel as nat).1,
        decreases fuel, 1nat,
    {
        broadcast use lemma_nodes_view, lemma_nodes_view_push;

        if fuel == 0 {
            return Node::Nil;
        }
        let f = fuel - 1;
        if !self.expect_peek(TokenType::LParen) {
            return Node::Nil;
        }
        if self.peek_token_is(TokenType::RParen) {
            if !self.expect_peek(TokenType::RParen) {
                return Node::Nil;
            }
            let parameters: Vec<Node> = Vec::new();
            self.parse_function_body(parameters, f)
        } else {
            if !self.expect_peek(TokenType::Identifier) {
                return Node::Nil;
            }
            let mut parameters: Vec<Node> = Vec::new();
            parameters.push(Node::Ident(Identifier(self.cur_token.literal.clone())));
            proof {
                assert(nodes_view(parameters@) =~= seq![
                    NodeV::Ident { name: self.cur_token@.literal },
                ]);
            }
            let ghost ps_goal = parse_params_s(self@, nodes_view(parameters@), f as nat);
            let mut fl: u64 = f;
            loop
                invariant
                    parser_wf(self@),
                    fl <= f,
                    parse_params_s(self@, nodes_view(parameters@), fl as nat) == ps_goal,
                decreases fl,
            {
                if fl == 0 || !self.peek_token_is(TokenType::Comma) {
                    break;
                }
                self.next_token();
                if !self.expect_peek(TokenType::Identifier) {
                    return Node::Nil;
                }
                parameters.push(Node::Ident(Identifier(self.cur_token.literal.clone())));
                fl = fl - 1;
            }
            if !self.expect_peek(TokenType::RParen) {
                return Node::Nil;
            }
            self.parse_function_body(parameters, f)
        }
    }

    /// The brace-delimited body of a function literal.
    fn parse_function_body(&mut self, parameters: Vec<Node>, fuel: u64) -> (r: Node)
        requires
            parser_wf(old(self)@),
        ensures
            parser_wf(final(self)@),
            final(self)@ == parse_function_body_s(
                old(self)@,
                nodes_view(parameters@),
                fuel as nat,
            ).0,
            r@ == parse_function_body_s(old(self)@, nodes_view(parameters@), fuel as nat).1,
        decreases fuel, 0nat,
    {
        broadcast use lemma_nodes_view;

        if fuel == 0 {
            return Node::Nil;
        }
        if !self.expect_peek(TokenType::LBrace) {
            return Node::Nil;
        }
        self.next_token();
        let ghost pv = nodes_view(parameters@);
        let statements = self.parse_statement_list(true, fuel - 1);
        let ghost sv = nodes_view(statements@);
        let body_node = Node::BlockStatement(BlockStatement { statements });
        proof {
            assert(node_view(body_node) == (NodeV::Block { statements: sv }));
        }
        let r = Node::Function(FunctionLiteral { parameters, body: Box::new(body_node) });
        proof {
            assert(node_view(r) == (NodeV::Func {
                parameters: pv,
                body: Box::new(NodeV::Block { statements: sv }),
            }));
        }
        r
    }

    /// `LEFT(ARGS...)`.
    #[verifier::loop_isolation(false)]
    fn parse_call_expression(&mut self, left: Node, fuel: u64) -> (r: (Node, bool))
        requires
            parser_wf(old(self)@),
        ensures
            parser_wf(final(self)@),
            final(self)@ == parse_call_expression_s(old(self)@, left@, fuel as nat).0,
            r.0@ == parse_call_expression_s(old(self)@, left@, fuel as nat).1,
            r.1 == parse_call_expression_s(old(self)@, left@, fuel as nat).2,
        decreases fuel, 0nat,
    {
        broadcast use lemma_nodes_view, lemma_nodes_view_push;

        let ghost left_v = node_view(left);
        if fuel == 0 {
            return (left, false);
        }
        let f = fuel - 1;
        self.next_token();
        if self.cur_token_is(TokenType::RParen) {
            let arguments: Vec<Node> = Vec::new();
            proof {
                assert(nodes_view(arguments@) =~= Seq::<NodeV>::empty());
            }
            let r = Node::CallExpression(
                CallExpression { function: Box::new(left), arguments },
            );
            proof {
                assert(node_view(r) == (NodeV::Call {
                    function: Box::new(left_v),
                    arguments: Seq::<NodeV>::empty(),
                }));
            }
            return (r, true);
        }
        let mut arguments: Vec<Node> = Vec::new();
        let arg = self.parse_expression(LOWEST, f);
        arguments.push(arg);
        let ghost args_goal = parse_call_args_s(self@, nodes_view(arguments@), f as nat);
        let mut fl: u64 = f;
        loop
            invariant
                parser_wf(self@),
                fl <= f,
                parse_call_args_s(self@, nodes_view(arguments@), fl as nat) == args_goal,
            decreases fl,
        {
            if fl == 0 || self.peek_token_is(TokenType::RParen) || self.peek_token_is(
                TokenType::Eof,
            ) {
                break;
            }
            self.next_token();
            self.next_token();
            let arg = self.parse_expression(LOWEST, fl - 1);
            arguments.push(arg);
            fl = fl - 1;
        }
        if !self.expect_peek(TokenType::RParen) {
            return (left, false);
        }
        let ghost av = nodes_view(arguments@);
        let r = Node::CallExpression(CallExpression { function: Box::new(left), arguments });
        proof {
            assert(node_view(r) == (NodeV::Call { function: Box::new(left_v), arguments: av }));
        }
        (r, true)
    }

    /// An integer literal, rejected when it does not fit in `i32`.
    fn parse_integer(&mut self) -> (r: Node)
        requires
            parser_wf(old(self)@),
        ensures
            parser_wf(final(self)@),
            final(self)@ == parse_integer_s(old(self)@).0,
            r@ == parse_integer_s(old(self)@).1,
    {
        match parse_i32_digits(self.cur_token.literal.as_str()) {
            Some(value) => Node::Int(Integer(value)),
            None => {
                self.new_error("Cannot parse integer literal");
                Node::Nil
            },
        }
    }

    /// The current token as a boolean literal.
    fn parse_boolean(&self) -> (r: Node)
        ensures
            r@ == (NodeV::Bool { value: self.cur_token@.kind == TokenType::True }),
    {
        Node::Boolean(Boolean(self.cur_token_is(TokenType::True)))
    }

    /// The current token as an identifier.
    fn parse_identifier(&self) -> (r: Node)
        ensures
            r@ == (NodeV::Ident { name: self.cur_token@.literal }),
    {
        Node::Ident(Identifier(self.cur_token.literal.clone()))
    }

    /// `-EXPR` or `!EXPR`.
    fn parse_prefix_expression(&mut self, fuel: u64) -> (r: Node)
        requires
            parser_wf(old(self)@),
        ensures
            parser_wf(final(self)@),
            final(self)@ == parse_prefix_expression_s(old(self)@, fuel as nat).0,
            r@ == parse_prefix_expression_s(old(self)@, fuel as nat).1,
        decreases fuel, 0nat,
    {
        if fuel == 0 {
            return Node::Nil;
        }
        let op = self.cur_token.literal.clone();
        self.next_token();
        let right = self.parse_expression(PREFIX, fuel - 1);
        Node::Prefix(PrefixExpression { op, right: Box::new(right) })
    }

    /// `LEFT op RIGHT`, left-associative.
    fn parse_infix_expression(&mut self, left: Node, fuel: u64) -> (r: Node)
        requires
            parser_wf(old(self)@),
        ensures
            parser_wf(final(self)@),
            final(self)@ == parse_infix_expression_s(old(self)@, left@, fuel as nat).0,
            r@ == parse_infix_expression_s(old(self)@, left@, fuel as nat).1,
        decreases fuel, 0nat,
    {
        if fuel == 0 {
            return Node::Nil;
        }
        let op = self.cur_token.literal.clone();
        let precedence = self.cur_precedence();
        self.next_token();
        let right = self.parse_expression(precedence, fuel - 1);
        Node::Infix(InfixExpression { op, left: Box::new(left), right: Box::new(right) })
    }

    /// Advances when the peek token has the expected kind; otherwise
    /// records an error and stays.
    fn expect_peek(&mut self, tk: TokenType) -> (r: bool)
        requires
            parser_wf(old(self)@),
        ensures
            parser_wf(final(self)@),
            final(self)@ == expect_peek_s(old(self)@, tk).0,
            r == expect_peek_s(old(self)@, tk).1,
    {
        if self.peek_token_is(tk) {
            self.next_token();
            return true;
        }
        let mut msg = String::from_str("Expected peek_token to be ");
        msg.append(token_type_str(tk));
        msg.append(", got ");
        msg.append(token_type_str(self.peek_token.token_type));
        proof {
            assert(msg@ =~= peek_error_msg(tk, old(self)@.peek.kind));
        }
        self.new_error(msg.as_str());
        false
    }

    /// Whether the current token has the given kind.
    fn cur_token_is(&self, tk: TokenType) -> (r: bool)
        ensures
            r == (self.cur_token@.kind == tk),
    {
        self.cur_token.token_type == tk
    }

    /// Whether the peek token has the given kind.
    fn peek_token_is(&self, tk: TokenType) -> (r: bool)
        ensures
            r == (self.peek_token@.kind == tk),
    {
        self.peek_token.token_type == tk
    }

    /// The precedence the peek token binds with.
    fn peek_precedence(&self) -> (r: u8)
        ensures
            r == token_precedence(self.peek_token@.kind),
    {
        self.get_token_precedence(self.peek_token.token_type)
    }

    /// The precedence the current token binds with.
    fn cur_precedence(&self) -> (r: u8)
        ensures
            r == token_precedence(self.cur_token@.kind),
    {
        self.get_token_precedence(self.cur_token.token_type)
    }

    /// The precedence a token kind binds with as an infix operator.
    fn get_token_precedence(&self, tt: TokenType) -> (r: u8)
        ensures
            r == token_precedence(tt),
    {
        match tt {
            TokenType::LParen => CALL,
            TokenType::Asterisk => PRODUCT,
            TokenType::Slash => PRODUCT,
            TokenType::Plus => ADD,
            TokenType::Minus => ADD,
            TokenType::Lt => LESSGREATER,
            TokenType::Gt => LESSGREATER,
            TokenType::Eq => EQUALS,
            TokenType::NotEq => EQUALS,
            _ => LOWEST,
        }
    }

    /// Records an error string.
    fn new_error(&mut self, message: &str)
        ensures
            final(self)@ == (ParserV {
                lexer: old(self)@.lexer,
                cur: old(self)@.cur,
                peek: old(self)@.peek,
                errors: old(self)@.errors.push(message@),
            }),
    {
        broadcast use lemma_errors_view, lemma_errors_view_push;

        self.errors.push(message.to_owned());
    }
}

} // verus!
