use crate::assembler::tokenizer::token::{Token, TokenView};
use vstd::prelude::*;

verus! {

/// Represents an error that occurs while tokenizing
#[derive(Debug)]
pub enum SASMTokenizeError {
    /// Illegal token, with the 1-based line and the 0-based byte column where it was found
    IllegalToken(Token, usize, usize),
    /// Unknown token, with the 1-based line and the 0-based byte column where it was found
    UnknownToken(Token, usize, usize),
}

/// A tokenizing error with its token as a view.
pub enum TokenizeErrorView {
    IllegalToken(TokenView, usize, usize),
    UnknownToken(TokenView, usize, usize),
}

impl View for SASMTokenizeError {
    type V = TokenizeErrorView;

    open spec fn view(&self) -> TokenizeErrorView {
        match self {
            SASMTokenizeError::IllegalToken(t, l, c) => TokenizeErrorView::IllegalToken(t@, *l, *c),
            SASMTokenizeError::UnknownToken(t, l, c) => TokenizeErrorView::UnknownToken(t@, *l, *c),
        }
    }
}

} // verus!
