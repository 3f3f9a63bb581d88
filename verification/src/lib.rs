//! The language of a small command shell: a tokenizer, a parser and an
//! evaluator with lexical scopes, each proved against its specification.
//!
//! A text is tokenized (`lexer`), the tokens are parsed into statements
//! (`parser`), and the statements are evaluated (`executor`). The
//! evaluator computes with integers, truth values and texts itself. What
//! it cannot do itself, running commands and computing with
//! floating-point numbers, it asks of its host: an evaluation stops with
//! a request, and goes on once the answer is in its session. `native` and
//! `shell` hold what the shell decides about its environment and its
//! input line.

pub mod executor;
pub mod lexer;
pub mod native;
pub mod parser;
pub mod shell;
pub mod text;
