//! The boundary the collaborators use: a source string in, a value (or
//! absence) and parse errors out. No files, no sockets.

use vstd::prelude::*;
use crate::ast::Node;
use crate::environment::{Environment, ScopeV};
use crate::evaluator::{EVAL_FUEL, eval, eval_s, opt_view};
use crate::lexer::{Lexer, lexer_init};
use crate::object::{ObjV, Object};
use crate::parser::{
    PARSE_FUEL, Parser, lemma_errors_view, parse_program_s, parser_init, parser_wf,
};

verus! {

/// The value a source string evaluates to: parse the whole input, and
/// evaluate the program in a fresh global environment — unless parsing
/// recorded errors, in which case evaluation is skipped.
pub open spec fn interpret_s(src: Seq<char>) -> Option<ObjV> {
    let pr = parse_program_s(parser_init(lexer_init(src)), PARSE_FUEL as nat);
    if pr.0.errors.len() > 0 {
        None
    } else {
        eval_s(
            pr.1,
            seq![ScopeV { bindings: Map::<Seq<char>, ObjV>::empty(), outer: None::<int> }],
            0,
            EVAL_FUEL as nat,
        ).value
    }
}

/// One interpreter run over one source string.
pub struct App {
    pub input: String,
}

impl App {
    /// An interpreter run over `input`.
    pub fn new(input: &str) -> (a: App)
        ensures
            a.input@ == input@,
    {
        App { input: input.to_owned() }
    }

    /// Tokenizes, parses and evaluates the input; yields its value, or
    /// nothing when parsing recorded errors or evaluation failed.
    pub fn execute(&self) -> (r: Option<Object>)
        ensures
            opt_view(r) == interpret_s(self.input@),
    {
        broadcast use lemma_errors_view;

        let lexer = Lexer::new(self.input.as_str());
        let mut parser = Parser::new(lexer);
        let prog = parser.parse_program();
        if parser.errors.len() > 0 {
            return None;
        }
        let mut env = Environment::new();
        eval(&prog, &mut env)
    }
}

/// Parses `input` and hands back the parser — its errors included — along
/// with the program node.
pub fn setup(input: &str) -> (r: (Parser, Node))
    ensures
        parser_wf(r.0@),
        r.0@ == parse_program_s(parser_init(lexer_init(input@)), PARSE_FUEL as nat).0,
        r.1@ == parse_program_s(parser_init(lexer_init(input@)), PARSE_FUEL as nat).1,
{
    let lexer = Lexer::new(input);
    let mut parser = Parser::new(lexer);
    let prog = parser.parse_program();
    (parser, prog)
}

} // verus!
