//! Interpreters for Brainfuck-like languages.
//!
//! A tokenizer turns source text into tokens of eight types, following a table of
//! symbols, regular expressions, or a fixed encoding. A parser folds the tokens into a
//! program, merging runs of pointer and data adjustments. A runtime executes the
//! program against a byte memory of fixed or growing size, either to its end or one
//! instruction at a time.
pub mod error;
pub mod parser;
pub mod predefined;
pub mod program;
pub mod runtime;
pub mod token;
