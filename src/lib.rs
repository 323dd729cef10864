//! A tokenizer for a small AWK-like language, with its lexical grammar stated
//! as spec functions and every scanning routine proved against them.
pub mod grammar;
pub mod laws;
pub mod lexer;
pub mod token;
