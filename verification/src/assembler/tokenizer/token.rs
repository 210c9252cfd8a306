//! The tokens of SASM source text.
use vstd::prelude::*;

verus! {

/// Represents the type of token
#[derive(Debug, PartialEq)]
pub enum Token {
    /// A literal value
    Literal(LiteralToken),
    Identifier(String),
    /// A directive, like `.data`, without the leading dot
    Directive(String),
    /// Something like a `+` sign
    Operator(Operator),
    /// An important keyword
    Keyword(Keyword),
    // Grammars
    NewLine,
    Colon,
    /// An illegal/ unexpected token at byte position `pos`, contains the position
    Illegal(usize, String),
    /// A token that we don't recognize, contains the byte position
    Unknown(usize, String),
}

/// Represents an operator
#[derive(Debug, PartialEq, Eq, Clone, Copy, Structural)]
pub enum Operator {
    Plus,
    Minus,
}

/// Represents a literal value token
#[derive(Debug, PartialEq)]
pub enum LiteralToken {
    /// An integer literal, supports decimal, hex (`0x`) and binary (`0b`)
    Int(i32),
    /// A string literal, supports backslash escape sequences
    String(String),
    /// A single character literal, supports backslash escape sequences
    Char(char),
}

/// Represents an important keyword that we should recognize
#[derive(Debug, PartialEq, Eq, Clone, Copy, Structural)]
pub enum Keyword {
    Push,
    Addu,
    Addc,
    Subu,
    Subc,
    Mulu,
    Mulc,
    Divc,
    Negu,
    Negc,
    Shl,
    Shr,
    Rotl,
    Rotr,
    Eq,
    Neq,
    Lt,
    Gt,
    Le,
    Ge,
    Swap,
    Pop,
    Dup,
    PopJump,
    Jump,
    JumpIfNotZero,
    JumpIfZero,
    JumpIfTrue,
    JumpIfFalse,
    DebugStack,
    Exit,
    ClearEFlags,
    ClearDivZero,
    ClearOverflow,
    PushDivisionByZeroFlag,
    PushOverflowFlag,
    Call,
    Ret,
    BitOr,
    BitAnd,
    BitXor,
    BitNot,
    Pick,
    Move,
    Syscall,
    True,
    False,
}

/// A literal token with its text as a sequence of chars.
pub enum LiteralView {
    Int(i32),
    String(Seq<char>),
    Char(char),
}

/// A token with its text as a sequence of chars.
pub enum TokenView {
    Literal(LiteralView),
    Identifier(Seq<char>),
    Directive(Seq<char>),
    Operator(Operator),
    Keyword(Keyword),
    NewLine,
    Colon,
    Illegal(usize, Seq<char>),
    Unknown(usize, Seq<char>),
}

impl View for LiteralToken {
    type V = LiteralView;

    open spec fn view(&self) -> LiteralView {
        match self {
            LiteralToken::Int(n) => LiteralView::Int(*n),
            LiteralToken::String(s) => LiteralView::String(s@),
            LiteralToken::Char(c) => LiteralView::Char(*c),
        }
    }
}

impl View for Token {
    type V = TokenView;

    open spec fn view(&self) -> TokenView {
        match self {
            Token::Literal(l) => TokenView::Literal(l@),
            Token::Identifier(s) => TokenView::Identifier(s@),
            Token::Directive(s) => TokenView::Directive(s@),
            Token::Operator(o) => TokenView::Operator(*o),
            Token::Keyword(k) => TokenView::Keyword(*k),
            Token::NewLine => TokenView::NewLine,
            Token::Colon => TokenView::Colon,
            Token::Illegal(p, s) => TokenView::Illegal(*p, s@),
            Token::Unknown(p, s) => TokenView::Unknown(*p, s@),
        }
    }
}

impl Clone for LiteralToken {
    fn clone(&self) -> (r: Self)
        ensures
            r@ == self@,
    {
        match self {
            LiteralToken::Int(n) => LiteralToken::Int(*n),
            LiteralToken::String(s) => LiteralToken::String(s.clone()),
            LiteralToken::Char(c) => LiteralToken::Char(*c),
        }
    }
}

impl Clone for Token {
    fn clone(&self) -> (r: Self)
        ensures
            r@ == self@,
    {
        match self {
            Token::Literal(l) => Token::Literal(l.clone()),
            Token::Identifier(s) => Token::Identifier(s.clone()),
            Token::Directive(s) => Token::Directive(s.clone()),
            Token::Operator(o) => Token::Operator(*o),
            Token::Keyword(k) => Token::Keyword(*k),
            Token::NewLine => Token::NewLine,
            Token::Colon => Token::Colon,
            Token::Illegal(p, s) => Token::Illegal(*p, s.clone()),
            Token::Unknown(p, s) => Token::Unknown(*p, s.clone()),
        }
    }
}

/// The mnemonic of a keyword, as written in source text (in lower case).
pub open spec fn keyword_text(k: Keyword) -> Seq<char> {
    match k {
        Keyword::Push => seq!['p', 'u', 's', 'h'],
        Keyword::Addu => seq!['a', 'd', 'd', 'u'],
        Keyword::Addc => seq!['a', 'd', 'd', 'c'],
        Keyword::Subu => seq!['s', 'u', 'b', 'u'],
        Keyword::Subc => seq!['s', 'u', 'b', 'c'],
        Keyword::Mulu => seq!['m', 'u', 'l', 'u'],
        Keyword::Mulc => seq!['m', 'u', 'l', 'c'],
        Keyword::Divc => seq!['d', 'i', 'v', 'c'],
        Keyword::Negu => seq!['n', 'e', 'g', 'u'],
        Keyword::Negc => seq!['n', 'e', 'g', 'c'],
        Keyword::Shl => seq!['s', 'h', 'l'],
        Keyword::Shr => seq!['s', 'h', 'r'],
        Keyword::Rotl => seq!['r', 'o', 't', 'l'],
        Keyword::Rotr => seq!['r', 'o', 't', 'r'],
        Keyword::Eq => seq!['e', 'q'],
        Keyword::Neq => seq!['n', 'e', 'q'],
        Keyword::Lt => seq!['l', 't'],
        Keyword::Gt => seq!['g', 't'],
        Keyword::Le => seq!['l', 't', 'e', 'q'],
        Keyword::Ge => seq!['g', 't', 'e', 'q'],
        Keyword::Swap => seq!['s', 'w', 'a', 'p'],
        Keyword::Pop => seq!['p', 'o', 'p'],
        Keyword::Dup => seq!['d', 'u', 'p'],
        Keyword::PopJump => seq!['p', 'o', 'p', 'j', 'u', 'm', 'p'],
        Keyword::Jump => seq!['j', 'm', 'p'],
        Keyword::JumpIfNotZero => seq!['j', 'n', 'z'],
        Keyword::JumpIfZero => seq!['j', 'z'],
        Keyword::JumpIfTrue => seq!['j', 't'],
        Keyword::JumpIfFalse => seq!['j', 'f'],
        Keyword::DebugStack => seq!['d', 'b', 'g', '_', 's', 't', 'a', 'c', 'k'],
        Keyword::Exit => seq!['e', 'x', 'i', 't'],
        Keyword::ClearEFlags => seq!['c', 'l', 'e', 'a', 'r', '_', 'e', 'r', 'r'],
        Keyword::ClearDivZero => seq!['c', 'l', 'e', 'a', 'r', '_', 'd', 'i', 'v', '_', 'z', 'e', 'r', 'o'],
        Keyword::ClearOverflow => seq!['c', 'l', 'e', 'a', 'r', '_', 'o', 'v', 'e', 'r', 'f', 'l', 'o', 'w'],
        Keyword::PushDivisionByZeroFlag => seq!['p', 'u', 's', 'h', '_', 'd', 'i', 'v', '_', 'z', 'e', 'r', 'o'],
        Keyword::PushOverflowFlag => seq!['p', 'u', 's', 'h', '_', 'o', 'v', 'e', 'r', 'f', 'l', 'o', 'w'],
        Keyword::Call => seq!['c', 'a', 'l', 'l'],
        Keyword::Ret => seq!['r', 'e', 't'],
        Keyword::BitOr => seq!['o', 'r'],
        Keyword::BitAnd => seq!['a', 'n', 'd'],
        Keyword::BitXor => seq!['x', 'o', 'r'],
        Keyword::BitNot => seq!['n', 'o', 't'],
        Keyword::Pick => seq!['p', 'i', 'c', 'k'],
        Keyword::Move => seq!['m', 'o', 'v', 'e'],
        Keyword::Syscall => seq!['s', 'y', 's', 'c', 'a', 'l', 'l'],
        Keyword::True => seq!['t', 'r', 'u', 'e'],
        Keyword::False => seq!['f', 'a', 'l', 's', 'e'],
    }
}

/// The keyword whose mnemonic is `w`, if any.
pub open spec fn keyword_lookup(w: Seq<char>) -> Option<Keyword> {
    if w.len() == 4 && w[0] == 'p' && w[1] == 'u' && w[2] == 's' && w[3] == 'h' {
        Some(Keyword::Push)
    } else if w.len() == 4 && w[0] == 'a' && w[1] == 'd' && w[2] == 'd' && w[3] == 'u' {
        Some(Keyword::Addu)
    } else if w.len() == 4 && w[0] == 'a' && w[1] == 'd' && w[2] == 'd' && w[3] == 'c' {
        Some(Keyword::Addc)
    } else if w.len() == 4 && w[0] == 's' && w[1] == 'u' && w[2] == 'b' && w[3] == 'u' {
        Some(Keyword::Subu)
    } else if w.len() == 4 && w[0] == 's' && w[1] == 'u' && w[2] == 'b' && w[3] == 'c' {
        Some(Keyword::Subc)
    } else if w.len() == 4 && w[0] == 'm' && w[1] == 'u' && w[2] == 'l' && w[3] == 'u' {
        Some(Keyword::Mulu)
    } else if w.len() == 4 && w[0] == 'm' && w[1] == 'u' && w[2] == 'l' && w[3] == 'c' {
        Some(Keyword::Mulc)
    } else if w.len() == 4 && w[0] == 'd' && w[1] == 'i' && w[2] == 'v' && w[3] == 'c' {
        Some(Keyword::Divc)
    } else if w.len() == 4 && w[0] == 'n' && w[1] == 'e' && w[2] == 'g' && w[3] == 'u' {
        Some(Keyword::Negu)
    } else if w.len() == 4 && w[0] == 'n' && w[1] == 'e' && w[2] == 'g' && w[3] == 'c' {
        Some(Keyword::Negc)
    } else if w.len() == 3 && w[0] == 's' && w[1] == 'h' && w[2] == 'l' {
        Some(Keyword::Shl)
    } else if w.len() == 3 && w[0] == 's' && w[1] == 'h' && w[2] == 'r' {
        Some(Keyword::Shr)
    } else if w.len() == 4 && w[0] == 'r' && w[1] == 'o' && w[2] == 't' && w[3] == 'l' {
        Some(Keyword::Rotl)
    } else if w.len() == 4 && w[0] == 'r' && w[1] == 'o' && w[2] == 't' && w[3] == 'r' {
        Some(Keyword::Rotr)
    } else if w.len() == 2 && w[0] == 'e' && w[1] == 'q' {
        Some(Keyword::Eq)
    } else if w.len() == 3 && w[0] == 'n' && w[1] == 'e' && w[2] == 'q' {
        Some(Keyword::Neq)
    } else if w.len() == 2 && w[0] == 'l' && w[1] == 't' {
        Some(Keyword::Lt)
    } else if w.len() == 2 && w[0] == 'g' && w[1] == 't' {
        Some(Keyword::Gt)
    } else if w.len() == 4 && w[0] == 'l' && w[1] == 't' && w[2] == 'e' && w[3] == 'q' {
        Some(Keyword::Le)
    } else if w.len() == 4 && w[0] == 'g' && w[1] == 't' && w[2] == 'e' && w[3] == 'q' {
        Some(Keyword::Ge)
    } else if w.len() == 4 && w[0] == 's' && w[1] == 'w' && w[2] == 'a' && w[3] == 'p' {
        Some(Keyword::Swap)
    } else if w.len() == 3 && w[0] == 'p' && w[1] == 'o' && w[2] == 'p' {
        Some(Keyword::Pop)
    } else if w.len() == 3 && w[0] == 'd' && w[1] == 'u' && w[2] == 'p' {
        Some(Keyword::Dup)
    } else if w.len() == 7 && w[0] == 'p' && w[1] == 'o' && w[2] == 'p' && w[3] == 'j' && w[4] == 'u' && w[5] == 'm' && w[6] == 'p' {
        Some(Keyword::PopJump)
    } else if w.len() == 3 && w[0] == 'j' && w[1] == 'm' && w[2] == 'p' {
        Some(Keyword::Jump)
    } else if w.len() == 3 && w[0] == 'j' && w[1] == 'n' && w[2] == 'z' {
        Some(Keyword::JumpIfNotZero)
    } else if w.len() == 2 && w[0] == 'j' && w[1] == 'z' {
        Some(Keyword::JumpIfZero)
    } else if w.len() == 2 && w[0] == 'j' && w[1] == 't' {
        Some(Keyword::JumpIfTrue)
    } else if w.len() == 2 && w[0] == 'j' && w[1] == 'f' {
        Some(Keyword::JumpIfFalse)
    } else if w.len() == 9 && w[0] == 'd' && w[1] == 'b' && w[2] == 'g' && w[3] == '_' && w[4] == 's' && w[5] == 't' && w[6] == 'a' && w[7] == 'c' && w[8] == 'k' {
        Some(Keyword::DebugStack)
    } else if w.len() == 4 && w[0] == 'e' && w[1] == 'x' && w[2] == 'i' && w[3] == 't' {
        Some(Keyword::Exit)
    } else if w.len() == 9 && w[0] == 'c' && w[1] == 'l' && w[2] == 'e' && w[3] == 'a' && w[4] == 'r' && w[5] == '_' && w[6] == 'e' && w[7] == 'r' && w[8] == 'r' {
        Some(Keyword::ClearEFlags)
    } else if w.len() == 14 && w[0] == 'c' && w[1] == 'l' && w[2] == 'e' && w[3] == 'a' && w[4] == 'r' && w[5] == '_' && w[6] == 'd' && w[7] == 'i' && w[8] == 'v' && w[9] == '_' && w[10] == 'z' && w[11] == 'e' && w[12] == 'r' && w[13] == 'o' {
        Some(Keyword::ClearDivZero)
    } else if w.len() == 14 && w[0] == 'c' && w[1] == 'l' && w[2] == 'e' && w[3] == 'a' && w[4] == 'r' && w[5] == '_' && w[6] == 'o' && w[7] == 'v' && w[8] == 'e' && w[9] == 'r' && w[10] == 'f' && w[11] == 'l' && w[12] == 'o' && w[13] == 'w' {
        Some(Keyword::ClearOverflow)
    } else if w.len() == 13 && w[0] == 'p' && w[1] == 'u' && w[2] == 's' && w[3] == 'h' && w[4] == '_' && w[5] == 'd' && w[6] == 'i' && w[7] == 'v' && w[8] == '_' && w[9] == 'z' && w[10] == 'e' && w[11] == 'r' && w[12] == 'o' {
        Some(Keyword::PushDivisionByZeroFlag)
    } else if w.len() == 13 && w[0] == 'p' && w[1] == 'u' && w[2] == 's' && w[3] == 'h' && w[4] == '_' && w[5] == 'o' && w[6] == 'v' && w[7] == 'e' && w[8] == 'r' && w[9] == 'f' && w[10] == 'l' && w[11] == 'o' && w[12] == 'w' {
        Some(Keyword::PushOverflowFlag)
    } else if w.len() == 4 && w[0] == 'c' && w[1] == 'a' && w[2] == 'l' && w[3] == 'l' {
        Some(Keyword::Call)
    } else if w.len() == 3 && w[0] == 'r' && w[1] == 'e' && w[2] == 't' {
        Some(Keyword::Ret)
    } else if w.len() == 2 && w[0] == 'o' && w[1] == 'r' {
        Some(Keyword::BitOr)
    } else if w.len() == 3 && w[0] == 'a' && w[1] == 'n' && w[2] == 'd' {
        Some(Keyword::BitAnd)
    } else if w.len() == 3 && w[0] == 'x' && w[1] == 'o' && w[2] == 'r' {
        Some(Keyword::BitXor)
    } else if w.len() == 3 && w[0] == 'n' && w[1] == 'o' && w[2] == 't' {
        Some(Keyword::BitNot)
    } else if w.len() == 4 && w[0] == 'p' && w[1] == 'i' && w[2] == 'c' && w[3] == 'k' {
        Some(Keyword::Pick)
    } else if w.len() == 4 && w[0] == 'm' && w[1] == 'o' && w[2] == 'v' && w[3] == 'e' {
        Some(Keyword::Move)
    } else if w.len() == 7 && w[0] == 's' && w[1] == 'y' && w[2] == 's' && w[3] == 'c' && w[4] == 'a' && w[5] == 'l' && w[6] == 'l' {
        Some(Keyword::Syscall)
    } else if w.len() == 4 && w[0] == 't' && w[1] == 'r' && w[2] == 'u' && w[3] == 'e' {
        Some(Keyword::True)
    } else if w.len() == 5 && w[0] == 'f' && w[1] == 'a' && w[2] == 'l' && w[3] == 's' && w[4] == 'e' {
        Some(Keyword::False)
    } else {
        None
    }
}

impl Keyword {
    /// The mnemonic of this keyword as a vector of chars
    fn text_chars(&self) -> (r: Vec<char>)
        ensures
            r@ == keyword_text(*self),
    {
        let r = match self {
            Keyword::Push => vec!['p', 'u', 's', 'h'],
            Keyword::Addu => vec!['a', 'd', 'd', 'u'],
            Keyword::Addc => vec!['a', 'd', 'd', 'c'],
            Keyword::Subu => vec!['s', 'u', 'b', 'u'],
            Keyword::Subc => vec!['s', 'u', 'b', 'c'],
            Keyword::Mulu => vec!['m', 'u', 'l', 'u'],
            Keyword::Mulc => vec!['m', 'u', 'l', 'c'],
            Keyword::Divc => vec!['d', 'i', 'v', 'c'],
            Keyword::Negu => vec!['n', 'e', 'g', 'u'],
            Keyword::Negc => vec!['n', 'e', 'g', 'c'],
            Keyword::Shl => vec!['s', 'h', 'l'],
            Keyword::Shr => vec!['s', 'h', 'r'],
            Keyword::Rotl => vec!['r', 'o', 't', 'l'],
            Keyword::Rotr => vec!['r', 'o', 't', 'r'],
            Keyword::Eq => vec!['e', 'q'],
            Keyword::Neq => vec!['n', 'e', 'q'],
            Keyword::Lt => vec!['l', 't'],
            Keyword::Gt => vec!['g', 't'],
            Keyword::Le => vec!['l', 't', 'e', 'q'],
            Keyword::Ge => vec!['g', 't', 'e', 'q'],
            Keyword::Swap => vec!['s', 'w', 'a', 'p'],
            Keyword::Pop => vec!['p', 'o', 'p'],
            Keyword::Dup => vec!['d', 'u', 'p'],
            Keyword::PopJump => vec!['p', 'o', 'p', 'j', 'u', 'm', 'p'],
            Keyword::Jump => vec!['j', 'm', 'p'],
            Keyword::JumpIfNotZero => vec!['j', 'n', 'z'],
            Keyword::JumpIfZero => vec!['j', 'z'],
            Keyword::JumpIfTrue => vec!['j', 't'],
            Keyword::JumpIfFalse => vec!['j', 'f'],
            Keyword::DebugStack => vec!['d', 'b', 'g', '_', 's', 't', 'a', 'c', 'k'],
            Keyword::Exit => vec!['e', 'x', 'i', 't'],
            Keyword::ClearEFlags => vec!['c', 'l', 'e', 'a', 'r', '_', 'e', 'r', 'r'],
            Keyword::ClearDivZero => vec!['c', 'l', 'e', 'a', 'r', '_', 'd', 'i', 'v', '_', 'z', 'e', 'r', 'o'],
            Keyword::ClearOverflow => vec!['c', 'l', 'e', 'a', 'r', '_', 'o', 'v', 'e', 'r', 'f', 'l', 'o', 'w'],
            Keyword::PushDivisionByZeroFlag => vec!['p', 'u', 's', 'h', '_', 'd', 'i', 'v', '_', 'z', 'e', 'r', 'o'],
            Keyword::PushOverflowFlag => vec!['p', 'u', 's', 'h', '_', 'o', 'v', 'e', 'r', 'f', 'l', 'o', 'w'],
            Keyword::Call => vec!['c', 'a', 'l', 'l'],
            Keyword::Ret => vec!['r', 'e', 't'],
            Keyword::BitOr => vec!['o', 'r'],
            Keyword::BitAnd => vec!['a', 'n', 'd'],
            Keyword::BitXor => vec!['x', 'o', 'r'],
            Keyword::BitNot => vec!['n', 'o', 't'],
            Keyword::Pick => vec!['p', 'i', 'c', 'k'],
            Keyword::Move => vec!['m', 'o', 'v', 'e'],
            Keyword::Syscall => vec!['s', 'y', 's', 'c', 'a', 'l', 'l'],
            Keyword::True => vec!['t', 'r', 'u', 'e'],
            Keyword::False => vec!['f', 'a', 'l', 's', 'e'],
        };
        assert(r@ =~= keyword_text(*self));
        r
    }

    /// The mnemonic of this keyword, as written in source text
    pub fn mnemonic(&self) -> (r: String)
        ensures
            r@ == keyword_text(*self),
    {
        let chars = self.text_chars();
        string_from_chars(&chars)
    }
}

/// The keyword whose mnemonic is `w`, if any
pub fn keyword_from_text(w: &Vec<char>) -> (r: Option<Keyword>)
    ensures
        r == keyword_lookup(w@),
{
    let n = w.len();
    if n == 4 && w[0] == 'p' && w[1] == 'u' && w[2] == 's' && w[3] == 'h' {
        Some(Keyword::Push)
    } else if n == 4 && w[0] == 'a' && w[1] == 'd' && w[2] == 'd' && w[3] == 'u' {
        Some(Keyword::Addu)
    } else if n == 4 && w[0] == 'a' && w[1] == 'd' && w[2] == 'd' && w[3] == 'c' {
        Some(Keyword::Addc)
    } else if n == 4 && w[0] == 's' && w[1] == 'u' && w[2] == 'b' && w[3] == 'u' {
        Some(Keyword::Subu)
    } else if n == 4 && w[0] == 's' && w[1] == 'u' && w[2] == 'b' && w[3] == 'c' {
        Some(Keyword::Subc)
    } else if n == 4 && w[0] == 'm' && w[1] == 'u' && w[2] == 'l' && w[3] == 'u' {
        Some(Keyword::Mulu)
    } else if n == 4 && w[0] == 'm' && w[1] == 'u' && w[2] == 'l' && w[3] == 'c' {
        Some(Keyword::Mulc)
    } else if n == 4 && w[0] == 'd' && w[1] == 'i' && w[2] == 'v' && w[3] == 'c' {
        Some(Keyword::Divc)
    } else if n == 4 && w[0] == 'n' && w[1] == 'e' && w[2] == 'g' && w[3] == 'u' {
        Some(Keyword::Negu)
    } else if n == 4 && w[0] == 'n' && w[1] == 'e' && w[2] == 'g' && w[3] == 'c' {
        Some(Keyword::Negc)
    } else if n == 3 && w[0] == 's' && w[1] == 'h' && w[2] == 'l' {
        Some(Keyword::Shl)
    } else if n == 3 && w[0] == 's' && w[1] == 'h' && w[2] == 'r' {
        Some(Keyword::Shr)
    } else if n == 4 && w[0] == 'r' && w[1] == 'o' && w[2] == 't' && w[3] == 'l' {
        Some(Keyword::Rotl)
    } else if n == 4 && w[0] == 'r' && w[1] == 'o' && w[2] == 't' && w[3] == 'r' {
        Some(Keyword::Rotr)
    } else if n == 2 && w[0] == 'e' && w[1] == 'q' {
        Some(Keyword::Eq)
    } else if n == 3 && w[0] == 'n' && w[1] == 'e' && w[2] == 'q' {
        Some(Keyword::Neq)
    } else if n == 2 && w[0] == 'l' && w[1] == 't' {
        Some(Keyword::Lt)
    } else if n == 2 && w[0] == 'g' && w[1] == 't' {
        Some(Keyword::Gt)
    } else if n == 4 && w[0] == 'l' && w[1] == 't' && w[2] == 'e' && w[3] == 'q' {
        Some(Keyword::Le)
    } else if n == 4 && w[0] == 'g' && w[1] == 't' && w[2] == 'e' && w[3] == 'q' {
        Some(Keyword::Ge)
    } else if n == 4 && w[0] == 's' && w[1] == 'w' && w[2] == 'a' && w[3] == 'p' {
        Some(Keyword::Swap)
    } else if n == 3 && w[0] == 'p' && w[1] == 'o' && w[2] == 'p' {
        Some(Keyword::Pop)
    } else if n == 3 && w[0] == 'd' && w[1] == 'u' && w[2] == 'p' {
        Some(Keyword::Dup)
    } else if n == 7 && w[0] == 'p' && w[1] == 'o' && w[2] == 'p' && w[3] == 'j' && w[4] == 'u' && w[5] == 'm' && w[6] == 'p' {
        Some(Keyword::PopJump)
    } else if n == 3 && w[0] == 'j' && w[1] == 'm' && w[2] == 'p' {
        Some(Keyword::Jump)
    } else if n == 3 && w[0] == 'j' && w[1] == 'n' && w[2] == 'z' {
        Some(Keyword::JumpIfNotZero)
    } else if n == 2 && w[0] == 'j' && w[1] == 'z' {
        Some(Keyword::JumpIfZero)
    } else if n == 2 && w[0] == 'j' && w[1] == 't' {
        Some(Keyword::JumpIfTrue)
    } else if n == 2 && w[0] == 'j' && w[1] == 'f' {
        Some(Keyword::JumpIfFalse)
    } else if n == 9 && w[0] == 'd' && w[1] == 'b' && w[2] == 'g' && w[3] == '_' && w[4] == 's' && w[5] == 't' && w[6] == 'a' && w[7] == 'c' && w[8] == 'k' {
        Some(Keyword::DebugStack)
    } else if n == 4 && w[0] == 'e' && w[1] == 'x' && w[2] == 'i' && w[3] == 't' {
        Some(Keyword::Exit)
    } else if n == 9 && w[0] == 'c' && w[1] == 'l' && w[2] == 'e' && w[3] == 'a' && w[4] == 'r' && w[5] == '_' && w[6] == 'e' && w[7] == 'r' && w[8] == 'r' {
        Some(Keyword::ClearEFlags)
    } else if n == 14 && w[0] == 'c' && w[1] == 'l' && w[2] == 'e' && w[3] == 'a' && w[4] == 'r' && w[5] == '_' && w[6] == 'd' && w[7] == 'i' && w[8] == 'v' && w[9] == '_' && w[10] == 'z' && w[11] == 'e' && w[12] == 'r' && w[13] == 'o' {
        Some(Keyword::ClearDivZero)
    } else if n == 14 && w[0] == 'c' && w[1] == 'l' && w[2] == 'e' && w[3] == 'a' && w[4] == 'r' && w[5] == '_' && w[6] == 'o' && w[7] == 'v' && w[8] == 'e' && w[9] == 'r' && w[10] == 'f' && w[11] == 'l' && w[12] == 'o' && w[13] == 'w' {
        Some(Keyword::ClearOverflow)
    } else if n == 13 && w[0] == 'p' && w[1] == 'u' && w[2] == 's' && w[3] == 'h' && w[4] == '_' && w[5] == 'd' && w[6] == 'i' && w[7] == 'v' && w[8] == '_' && w[9] == 'z' && w[10] == 'e' && w[11] == 'r' && w[12] == 'o' {
        Some(Keyword::PushDivisionByZeroFlag)
    } else if n == 13 && w[0] == 'p' && w[1] == 'u' && w[2] == 's' && w[3] == 'h' && w[4] == '_' && w[5] == 'o' && w[6] == 'v' && w[7] == 'e' && w[8] == 'r' && w[9] == 'f' && w[10] == 'l' && w[11] == 'o' && w[12] == 'w' {
        Some(Keyword::PushOverflowFlag)
    } else if n == 4 && w[0] == 'c' && w[1] == 'a' && w[2] == 'l' && w[3] == 'l' {
        Some(Keyword::Call)
    } else if n == 3 && w[0] == 'r' && w[1] == 'e' && w[2] == 't' {
        Some(Keyword::Ret)
    } else if n == 2 && w[0] == 'o' && w[1] == 'r' {
        Some(Keyword::BitOr)
    } else if n == 3 && w[0] == 'a' && w[1] == 'n' && w[2] == 'd' {
        Some(Keyword::BitAnd)
    } else if n == 3 && w[0] == 'x' && w[1] == 'o' && w[2] == 'r' {
        Some(Keyword::BitXor)
    } else if n == 3 && w[0] == 'n' && w[1] == 'o' && w[2] == 't' {
        Some(Keyword::BitNot)
    } else if n == 4 && w[0] == 'p' && w[1] == 'i' && w[2] == 'c' && w[3] == 'k' {
        Some(Keyword::Pick)
    } else if n == 4 && w[0] == 'm' && w[1] == 'o' && w[2] == 'v' && w[3] == 'e' {
        Some(Keyword::Move)
    } else if n == 7 && w[0] == 's' && w[1] == 'y' && w[2] == 's' && w[3] == 'c' && w[4] == 'a' && w[5] == 'l' && w[6] == 'l' {
        Some(Keyword::Syscall)
    } else if n == 4 && w[0] == 't' && w[1] == 'r' && w[2] == 'u' && w[3] == 'e' {
        Some(Keyword::True)
    } else if n == 5 && w[0] == 'f' && w[1] == 'a' && w[2] == 'l' && w[3] == 's' && w[4] == 'e' {
        Some(Keyword::False)
    } else {
        None
    }
}

/// Law: a keyword's mnemonic is looked up as that keyword, so no two keywords share a mnemonic.
pub proof fn lemma_keyword_text_lookup(k: Keyword)
    ensures
        keyword_lookup(keyword_text(k)) == Some(k),
{
}

/// Law: only a keyword's own mnemonic is looked up as that keyword.
pub proof fn lemma_keyword_lookup_sound(w: Seq<char>)
    requires
        keyword_lookup(w) is Some,
    ensures
        w == keyword_text(keyword_lookup(w)->0),
{
    assert(w =~= keyword_text(keyword_lookup(w)->0));
}

/// Law: the mnemonic table. Each mnemonic names the keyword of the same meaning (`jnz` is
/// `JumpIfNotZero`, `lteq` is `Le`, `dbg_stack` is `DebugStack`, ...).
pub proof fn lemma_mnemonic_table()
    ensures
        keyword_lookup(seq!['p', 'u', 's', 'h']) == Some(Keyword::Push),
        keyword_lookup(seq!['a', 'd', 'd', 'u']) == Some(Keyword::Addu),
        keyword_lookup(seq!['a', 'd', 'd', 'c']) == Some(Keyword::Addc),
        keyword_lookup(seq!['s', 'u', 'b', 'u']) == Some(Keyword::Subu),
        keyword_lookup(seq!['s', 'u', 'b', 'c']) == Some(Keyword::Subc),
        keyword_lookup(seq!['m', 'u', 'l', 'u']) == Some(Keyword::Mulu),
        keyword_lookup(seq!['m', 'u', 'l', 'c']) == Some(Keyword::Mulc),
        keyword_lookup(seq!['d', 'i', 'v', 'c']) == Some(Keyword::Divc),
        keyword_lookup(seq!['n', 'e', 'g', 'u']) == Some(Keyword::Negu),
        keyword_lookup(seq!['n', 'e', 'g', 'c']) == Some(Keyword::Negc),
        keyword_lookup(seq!['s', 'h', 'l']) == Some(Keyword::Shl),
        keyword_lookup(seq!['s', 'h', 'r']) == Some(Keyword::Shr),
        keyword_lookup(seq!['r', 'o', 't', 'l']) == Some(Keyword::Rotl),
        keyword_lookup(seq!['r', 'o', 't', 'r']) == Some(Keyword::Rotr),
        keyword_lookup(seq!['e', 'q']) == Some(Keyword::Eq),
        keyword_lookup(seq!['n', 'e', 'q']) == Some(Keyword::Neq),
        keyword_lookup(seq!['l', 't']) == Some(Keyword::Lt),
        keyword_lookup(seq!['g', 't']) == Some(Keyword::Gt),
        keyword_lookup(seq!['l', 't', 'e', 'q']) == Some(Keyword::Le),
        keyword_lookup(seq!['g', 't', 'e', 'q']) == Some(Keyword::Ge),
        keyword_lookup(seq!['s', 'w', 'a', 'p']) == Some(Keyword::Swap),
        keyword_lookup(seq!['p', 'o', 'p']) == Some(Keyword::Pop),
        keyword_lookup(seq!['d', 'u', 'p']) == Some(Keyword::Dup),
        keyword_lookup(seq!['p', 'o', 'p', 'j', 'u', 'm', 'p']) == Some(Keyword::PopJump),
        keyword_lookup(seq!['j', 'm', 'p']) == Some(Keyword::Jump),
        keyword_lookup(seq!['j', 'n', 'z']) == Some(Keyword::JumpIfNotZero),
        keyword_lookup(seq!['j', 'z']) == Some(Keyword::JumpIfZero),
        keyword_lookup(seq!['j', 't']) == Some(Keyword::JumpIfTrue),
        keyword_lookup(seq!['j', 'f']) == Some(Keyword::JumpIfFalse),
        keyword_lookup(seq!['d', 'b', 'g', '_', 's', 't', 'a', 'c', 'k']) == Some(Keyword::DebugStack),
        keyword_lookup(seq!['e', 'x', 'i', 't']) == Some(Keyword::Exit),
        keyword_lookup(seq!['c', 'l', 'e', 'a', 'r', '_', 'e', 'r', 'r']) == Some(Keyword::ClearEFlags),
        keyword_lookup(seq!['c', 'l', 'e', 'a', 'r', '_', 'd', 'i', 'v', '_', 'z', 'e', 'r', 'o']) == Some(Keyword::ClearDivZero),
        keyword_lookup(seq!['c', 'l', 'e', 'a', 'r', '_', 'o', 'v', 'e', 'r', 'f', 'l', 'o', 'w']) == Some(Keyword::ClearOverflow),
        keyword_lookup(seq!['p', 'u', 's', 'h', '_', 'd', 'i', 'v', '_', 'z', 'e', 'r', 'o']) == Some(Keyword::PushDivisionByZeroFlag),
        keyword_lookup(seq!['p', 'u', 's', 'h', '_', 'o', 'v', 'e', 'r', 'f', 'l', 'o', 'w']) == Some(Keyword::PushOverflowFlag),
        keyword_lookup(seq!['c', 'a', 'l', 'l']) == Some(Keyword::Call),
        keyword_lookup(seq!['r', 'e', 't']) == Some(Keyword::Ret),
        keyword_lookup(seq!['o', 'r']) == Some(Keyword::BitOr),
        keyword_lookup(seq!['a', 'n', 'd']) == Some(Keyword::BitAnd),
        keyword_lookup(seq!['x', 'o', 'r']) == Some(Keyword::BitXor),
        keyword_lookup(seq!['n', 'o', 't']) == Some(Keyword::BitNot),
        keyword_lookup(seq!['p', 'i', 'c', 'k']) == Some(Keyword::Pick),
        keyword_lookup(seq!['m', 'o', 'v', 'e']) == Some(Keyword::Move),
        keyword_lookup(seq!['s', 'y', 's', 'c', 'a', 'l', 'l']) == Some(Keyword::Syscall),
        keyword_lookup(seq!['t', 'r', 'u', 'e']) == Some(Keyword::True),
        keyword_lookup(seq!['f', 'a', 'l', 's', 'e']) == Some(Keyword::False),
{
}

/// The chars keyword mnemonics are made of: lower-case ASCII letters and `_`.
pub open spec fn is_mnemonic_char(c: char) -> bool {
    ('a' <= c <= 'z') || c == '_'
}

/// Every mnemonic starts with a lower-case letter and is made of mnemonic chars.
pub proof fn lemma_keyword_text_chars(k: Keyword)
    ensures
        keyword_text(k).len() > 0,
        'a' <= keyword_text(k)[0] <= 'z',
        forall|j: int| 0 <= j < keyword_text(k).len() ==> is_mnemonic_char(#[trigger] keyword_text(k)[j]),
{
    let w = keyword_text(k);
    assert(w.len() <= 14);
    assert forall|j: int| 0 <= j < w.len() implies is_mnemonic_char(#[trigger] w[j]) by {
        assert(0 <= j < 14);
    }
}

/// Trusted, not proved: std's `String::push` appends `ch` to the end of `text`, so the chars of
/// the string afterwards are the chars before it followed by `ch`, as its documentation states.
pub assume_specification[ std::string::String::push ](text: &mut std::string::String, ch: char)
    ensures
        final(text)@ == old(text)@.push(ch),
;

/// A string holding the given chars
pub fn string_from_chars(chars: &Vec<char>) -> (r: String)
    ensures
        r@ == chars@,
{
    let mut r = String::new();
    let mut k: usize = 0;
    while k < chars.len()
        invariant
            k <= chars@.len(),
            r@ == chars@.take(k as int),
        decreases chars@.len() - k,
    {
        r.push(chars[k]);
        k = k + 1;
        assert(r@ =~= chars@.take(k as int));
    }
    assert(chars@.take(chars@.len() as int) =~= chars@);
    r
}

} // verus!
