//! Core of a tree-walking interpreter for a small, dynamically typed,
//! expression-oriented language.
//!
//! Source text is tokenized by [`lexer::Lexer`], parsed into an abstract
//! syntax tree by [`parser::Parser`] using Pratt (precedence-climbing)
//! techniques, and evaluated directly over a lexically scoped
//! [`environment::Environment`] by [`evaluator::eval`].
//!
//! Every executable function is specified against a mathematical model:
//! the lexer against a character-level scanning function, the parser and
//! the evaluator against step-indexed (fuelled) operational definitions.

pub mod app;
pub mod ast;
pub mod environment;
pub mod evaluator;
pub mod object;
pub mod parser;
pub mod lexer;
pub mod text;
pub mod token;
