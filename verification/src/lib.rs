//! The Sugar programming language: tokens, lexer, parser and interpreter.
pub mod full_result;
pub mod interpreter;
pub mod lexer;
pub mod option_result_utils;
pub mod parser;
