//! Turning SASM source text into tokens.
pub mod errors;
pub mod lexical;
pub mod token;
pub mod tokenizer;
