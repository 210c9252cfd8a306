use crate::assembler::parser::error::ParseError;
use crate::assembler::tokenizer::errors::SASMTokenizeError;
use crate::code::VMInstructionParseError;
use vstd::prelude::*;

verus! {

/// Why source text could not be assembled.
#[derive(Debug)]
pub enum AssemblerError {
    /// Failed to tokenize
    TokenizeError(SASMTokenizeError),
    /// Failed to parse
    ParseError(ParseError),
}

/// Why bytes are not a program binary.
#[derive(Debug, Clone, Copy, PartialEq, Eq, Structural)]
pub enum AssembledParseError {
    /// Bad magic
    BadMagic,
    /// Bad version
    BadVersion,
    /// Too short
    TooShort,
    /// Constructing instruction
    ConstructingInstruction(VMInstructionParseError),
}

} // verus!
