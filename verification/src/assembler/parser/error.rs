use crate::assembler::tokenizer::token::{Token, TokenView};
use vstd::prelude::*;

verus! {

/// Why a token list is not a program.
#[derive(Debug)]
pub enum ParseError {
    /// No main label found
    NoMainLabel,
    /// Unexpected end of file
    UnexpectedEOF,
    /// Label already defined
    LabelAlreadyDefined(String),
    /// Undefined label(s)
    UndefinedLabels(Vec<String>),
    /// Illegal token at token position
    IllegalToken(Token, usize),
}

/// The views of a sequence of strings.
pub open spec fn string_views(v: Seq<String>) -> Seq<Seq<char>> {
    v.map_values(|s: String| s@)
}

/// A parse error with its strings and token as views.
pub enum ParseErrorView {
    NoMainLabel,
    UnexpectedEOF,
    LabelAlreadyDefined(Seq<char>),
    UndefinedLabels(Seq<Seq<char>>),
    IllegalToken(TokenView, usize),
}

impl View for ParseError {
    type V = ParseErrorView;

    open spec fn view(&self) -> ParseErrorView {
        match self {
            ParseError::NoMainLabel => ParseErrorView::NoMainLabel,
            ParseError::UnexpectedEOF => ParseErrorView::UnexpectedEOF,
            ParseError::LabelAlreadyDefined(s) => ParseErrorView::LabelAlreadyDefined(s@),
            ParseError::UndefinedLabels(v) => ParseErrorView::UndefinedLabels(string_views(v@)),
            ParseError::IllegalToken(t, p) => ParseErrorView::IllegalToken(t@, *p),
        }
    }
}

} // verus!
