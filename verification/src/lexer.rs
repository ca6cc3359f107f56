//! Turning source text into tokens.
pub mod token;
pub mod tokenize;
