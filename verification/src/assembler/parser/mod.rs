//! Turning tokens into a program.
use crate::assembler::parser::error::{string_views, ParseError, ParseErrorView};
use crate::assembler::parser::syntax::{
    is_undefined_label, jump_instruction, label_address, lemma_parse_instruction_advances, link,
    main_label, parse_instruction, parse_result_matches, parse_tokens, resolve, retarget, scan, token_at,
    simple_instruction, undefined_labels, Labels, ParseOutcome, RawInstr,
};
use crate::assembler::tokenizer::token::{
    string_from_chars, Keyword, LiteralToken, Operator, Token, TokenView,
};
use crate::code::VMInstruction;
use crate::vm::Value;
use vstd::prelude::*;

pub mod error;
pub mod syntax;

verus! {

/// Reads a list of tokens into a program.
#[derive(Debug)]
pub struct Parser<'a> {
    tokens: &'a [Token],
    pos: usize,
    /// The labels defined so far, each with the index of the instruction it binds to; a list
    /// searched by name, since lookups by a `String` key in a hash map have no specification
    /// to prove against
    label_map: Vec<(String, usize)>,
    /// For each instruction read so far, the label its address is to be resolved to, if any
    fixup_list: Vec<Option<String>>,
}

/// The tokens as views.
pub open spec fn tokens_view(tokens: Seq<Token>) -> Seq<TokenView> {
    tokens.map_values(|t: Token| t@)
}

pub open spec fn labels_view(labels: Seq<(String, usize)>) -> Labels {
    labels.map_values(|p: (String, usize)| (p.0@, p.1))
}

pub open spec fn label_view(l: Option<String>) -> Option<Seq<char>> {
    match l {
        Some(s) => Some(s@),
        None => None,
    }
}

pub open spec fn raws_view(instrs: Seq<VMInstruction>, targets: Seq<Option<String>>) -> Seq<RawInstr> {
    Seq::new(instrs.len(), |k: int| (instrs[k], label_view(targets[k])))
}

/// A parse result with its error as a view.
pub open spec fn parse_result_view(r: Result<(Vec<VMInstruction>, usize), ParseError>) -> Result<
    (Seq<VMInstruction>, usize),
    ParseErrorView,
> {
    match r {
        Ok((p, e)) => Ok((p@, e)),
        Err(e) => Err(e@),
    }
}

fn simple_instruction_of(k: Keyword) -> (r: Option<VMInstruction>)
    ensures
        r == simple_instruction(k),
{
    match k {
        Keyword::Addu => Some(VMInstruction::AddUnchecked),
        Keyword::Addc => Some(VMInstruction::AddChecked),
        Keyword::Subu => Some(VMInstruction::SubUnchecked),
        Keyword::Subc => Some(VMInstruction::SubChecked),
        Keyword::Mulu => Some(VMInstruction::MulUnchecked),
        Keyword::Mulc => Some(VMInstruction::MulChecked),
        Keyword::Divc => Some(VMInstruction::DivChecked),
        Keyword::Negu => Some(VMInstruction::NegUnchecked),
        Keyword::Negc => Some(VMInstruction::NegChecked),
        Keyword::Eq => Some(VMInstruction::Eq),
        Keyword::Neq => Some(VMInstruction::Neq),
        Keyword::Lt => Some(VMInstruction::Lt),
        Keyword::Gt => Some(VMInstruction::Gt),
        Keyword::Le => Some(VMInstruction::LtEq),
        Keyword::Ge => Some(VMInstruction::GtEq),
        Keyword::Swap => Some(VMInstruction::Swap),
        Keyword::Pop => Some(VMInstruction::Pop),
        Keyword::Dup => Some(VMInstruction::Dup),
        Keyword::PopJump => Some(VMInstruction::PopJump),
        Keyword::DebugStack => Some(VMInstruction::DebugStack),
        Keyword::Exit => Some(VMInstruction::Exit),
        Keyword::ClearEFlags => Some(VMInstruction::ClearErrorFlags),
        Keyword::ClearDivZero => Some(VMInstruction::ClearDivisionByZero),
        Keyword::ClearOverflow => Some(VMInstruction::ClearOverflow),
        Keyword::PushDivisionByZeroFlag => Some(VMInstruction::PushDivisionByZeroFlag),
        Keyword::PushOverflowFlag => Some(VMInstruction::PushOverflowFlag),
        Keyword::Ret => Some(VMInstruction::Return),
        Keyword::BitAnd => Some(VMInstruction::BitAnd),
        Keyword::BitOr => Some(VMInstruction::BitOr),
        Keyword::BitXor => Some(VMInstruction::BitXor),
        Keyword::BitNot => Some(VMInstruction::BitNot),
        _ => None,
    }
}

impl<'a> Parser<'a> {
    /// The tokens being parsed
    pub closed spec fn tokens(&self) -> Seq<TokenView> {
        tokens_view(self.tokens@)
    }

    /// Whether no token has been read yet
    pub closed spec fn is_fresh(&self) -> bool {
        &&& self.pos == 0
        &&& self.label_map@.len() == 0
        &&& self.fixup_list@.len() == 0
    }

    closed spec fn wf(&self) -> bool {
        self.pos <= self.tokens@.len()
    }

    /// A parser for the given tokens
    pub fn new(tokens: &'a [Token]) -> (r: Self)
        ensures
            r.tokens() == tokens_view(tokens@),
            r.is_fresh(),
    {
        Self { tokens, pos: 0, label_map: Vec::new(), fixup_list: Vec::new() }
    }

    fn peek(&self) -> (r: Option<&'a Token>)
        requires
            self.wf(),
        ensures
            self.pos < self.tokens@.len() ==> r == Some(&self.tokens@[self.pos as int]),
            self.pos >= self.tokens@.len() ==> r is None,
    {
        if self.pos < self.tokens.len() {
            let t: &'a [Token] = self.tokens;
            Some(&t[self.pos])
        } else {
            None
        }
    }

    /// Consumes the next token in the stream and returns it while incrementing
    /// the position counter
    fn advance(&mut self) -> (r: Option<&'a Token>)
        requires
            old(self).wf(),
        ensures
            final(self).wf(),
            final(self).tokens == old(self).tokens,
            final(self).label_map == old(self).label_map,
            final(self).fixup_list == old(self).fixup_list,
            old(self).pos < old(self).tokens@.len() ==> r == Some(
                &old(self).tokens@[old(self).pos as int],
            ) && final(self).pos == old(self).pos + 1,
            old(self).pos >= old(self).tokens@.len() ==> r is None && final(self).pos == old(
                self,
            ).pos,
    {
        if self.pos < self.tokens.len() {
            let t: &'a [Token] = self.tokens;
            let tok = &t[self.pos];
            self.pos = self.pos + 1;
            Some(tok)
        } else {
            None
        }
    }

    /// Parses a single instruction; the next token is its keyword. Gives the instruction and,
    /// for a jump to a label, the label its address is to be resolved to
    fn parse_single_instruction(&mut self) -> (r: Result<(VMInstruction, Option<String>), ParseError>)
        requires
            old(self).wf(),
            old(self).pos < old(self).tokens@.len(),
        ensures
            final(self).wf(),
            final(self).tokens == old(self).tokens,
            final(self).label_map == old(self).label_map,
            final(self).fixup_list == old(self).fixup_list,
            match parse_instruction(old(self).tokens(), old(self).pos as int) {
                Ok((ri, e)) => r matches Ok((i, l)) && i == ri.0 && label_view(l) == ri.1
                    && final(self).pos == e,
                Err(e) => r matches Err(x) && x@ == e,
            },
    {
        let ghost toks = self.tokens();
        let ghost i = self.pos as int;
        let tok = match self.advance() {
            Some(t) => t,
            None => return Err(ParseError::UnexpectedEOF),
        };
        assert(toks[i] == tok@);
        let k = match tok {
            Token::Keyword(k) => *k,
            _ => return Err(ParseError::IllegalToken(tok.clone(), self.pos)),
        };
        match simple_instruction_of(k) {
            Some(instr) => return Ok((instr, None)),
            None => {},
        }
        if k == Keyword::Push {
            let operand = match self.advance() {
                Some(t) => t,
                None => return Err(ParseError::UnexpectedEOF),
            };
            assert(toks[i + 1] == operand@);
            match operand {
                Token::Literal(LiteralToken::Int(n)) => Ok((VMInstruction::PushImm(Value::Int(*n)), None)),
                Token::Literal(LiteralToken::Char(c)) => Ok(
                    (VMInstruction::PushImm(Value::Int(*c as i32)), None),
                ),
                Token::Keyword(Keyword::True) => Ok((VMInstruction::PushImm(Value::Bool(true)), None)),
                Token::Keyword(Keyword::False) => Ok(
                    (VMInstruction::PushImm(Value::Bool(false)), None),
                ),
                Token::Operator(Operator::Minus) => {
                    let next = match self.advance() {
                        Some(t) => t,
                        None => return Err(ParseError::UnexpectedEOF),
                    };
                    assert(toks[i + 2] == next@);
                    match next {
                        Token::Literal(LiteralToken::Int(n)) => Ok(
                            (VMInstruction::PushImm(Value::Int(0i32.wrapping_sub(*n))), None),
                        ),
                        _ => Err(ParseError::IllegalToken(next.clone(), self.pos)),
                    }
                },
                _ => Err(ParseError::IllegalToken(operand.clone(), self.pos)),
            }
        } else if k == Keyword::Shl || k == Keyword::Shr || k == Keyword::Rotl || k == Keyword::Rotr
            || k == Keyword::Pick || k == Keyword::Move {
            let operand = match self.advance() {
                Some(t) => t,
                None => return Err(ParseError::UnexpectedEOF),
            };
            assert(toks[i + 1] == operand@);
            match operand {
                Token::Literal(LiteralToken::Int(n)) => {
                    let n = *n;
                    if (k == Keyword::Shl || k == Keyword::Shr) && (n < 0 || n >= 256) {
                        // a shift amount that does not fit the instruction's byte
                        return Err(ParseError::IllegalToken(operand.clone(), self.pos));
                    }
                    let instr = match k {
                        Keyword::Shl => VMInstruction::ShiftL(n as u8),
                        Keyword::Shr => VMInstruction::ShiftR(n as u8),
                        Keyword::Rotl => VMInstruction::RotL(n as u8),
                        Keyword::Rotr => VMInstruction::RotR(n as u8),
                        Keyword::Pick => VMInstruction::Pick(n as u32),
                        _ => VMInstruction::Move(n as u32),
                    };
                    Ok((instr, None))
                },
                _ => Err(ParseError::IllegalToken(operand.clone(), self.pos)),
            }
        } else if k == Keyword::Jump || k == Keyword::JumpIfNotZero || k == Keyword::JumpIfZero
            || k == Keyword::JumpIfTrue || k == Keyword::JumpIfFalse || k == Keyword::Call {
            let operand = match self.advance() {
                Some(t) => t,
                None => return Err(ParseError::UnexpectedEOF),
            };
            assert(toks[i + 1] == operand@);
            match operand {
                Token::Identifier(loc) => {
                    // the address is filled in once all labels are known
                    Ok((Self::jump_to(k, 0xffff_ffff), Some(loc.clone())))
                },
                Token::Literal(LiteralToken::Int(n)) => {
                    if k == Keyword::Call {
                        Err(ParseError::IllegalToken(tok.clone(), self.pos))
                    } else {
                        Ok((Self::jump_to(k, *n as u32), None))
                    }
                },
                _ => Err(ParseError::IllegalToken(tok.clone(), self.pos)),
            }
        } else {
            Err(ParseError::IllegalToken(tok.clone(), self.pos))
        }
    }

    /// The jump or call instruction of keyword `k` with target `a`
    fn jump_to(k: Keyword, a: u32) -> (r: VMInstruction)
        ensures
            r == jump_instruction(k, a),
    {
        match k {
            Keyword::Jump => VMInstruction::Jump(a),
            Keyword::JumpIfNotZero => VMInstruction::JumpIfNotZero(a),
            Keyword::JumpIfZero => VMInstruction::JumpIfZero(a),
            Keyword::JumpIfTrue => VMInstruction::JumpIfTrue(a),
            Keyword::JumpIfFalse => VMInstruction::JumpIfFalse(a),
            _ => VMInstruction::Call(a),
        }
    }

    /// The address label `name` is bound to, if it is defined
    fn find_label(&self, name: &String) -> (r: Option<usize>)
        ensures
            r == label_address(labels_view(self.label_map@), name@),
    {
        let mut k: usize = self.label_map.len();
        assert(self.label_map@.take(k as int) =~= self.label_map@);
        while k > 0
            invariant
                k <= self.label_map@.len(),
                label_address(labels_view(self.label_map@), name@) == label_address(
                    labels_view(self.label_map@.take(k as int)),
                    name@,
                ),
            decreases k,
        {
            let ghost prefix = labels_view(self.label_map@.take(k as int));
            assert(labels_view(self.label_map@.take(k - 1)) =~= prefix.drop_last());
            if self.label_map[k - 1].0 == *name {
                return Some(self.label_map[k - 1].1);
            }
            k = k - 1;
        }
        assert(labels_view(self.label_map@.take(0)) =~= Seq::<(Seq<char>, usize)>::empty());
        None
    }

    /// Consumes this parser and returns a list of instructions, as well as the address of the main label
    pub fn parse(self) -> (r: Result<(Vec<VMInstruction>, usize), ParseError>)
        requires
            self.is_fresh(),
        ensures
            parse_result_matches(parse_result_view(r), parse_tokens(self.tokens())),
    {
        let ghost toks = self.tokens();
        let mut this = self;
        let mut instructions: Vec<VMInstruction> = Vec::new();
        assert(labels_view(this.label_map@) =~= Seq::<(Seq<char>, usize)>::empty());
        assert(raws_view(instructions@, this.fixup_list@) =~= Seq::<RawInstr>::empty());
        while this.pos < this.tokens.len()
            invariant
                this.wf(),
                this.tokens() == toks,
                self.tokens() == toks,
                this.fixup_list@.len() == instructions@.len(),
                scan(toks, 0, Seq::empty(), Seq::empty()) == scan(
                    toks,
                    this.pos as int,
                    labels_view(this.label_map@),
                    raws_view(instructions@, this.fixup_list@),
                ),
            decreases this.tokens@.len() - this.pos,
        {
            let ghost i = this.pos as int;
            let ghost labels = labels_view(this.label_map@);
            let ghost raws = raws_view(instructions@, this.fixup_list@);
            let all: &'a [Token] = this.tokens;
            let tok: &'a Token = &all[this.pos];
            assert(toks[i] == tok@);
            match tok {
                Token::NewLine => {
                    this.advance();
                },
                Token::Colon => {
                    this.advance();
                    match this.advance() {
                        Some(Token::Identifier(ident)) => {
                            assert(toks[i + 1] == Token::Identifier(*ident)@);
                            if this.find_label(ident).is_some() {
                                return Err(ParseError::LabelAlreadyDefined(ident.clone()));
                            }
                            let n = instructions.len();
                            this.label_map.push((ident.clone(), n));
                            assert(labels_view(this.label_map@) =~= labels.push((ident@, n)));
                        },
                        Some(t) => {
                            assert(toks[i + 1] == t@);
                            return Err(ParseError::IllegalToken(t.clone(), this.pos));
                        },
                        None => return Err(ParseError::UnexpectedEOF),
                    }
                },
                Token::Keyword(_) => {
                    proof {
                        lemma_parse_instruction_advances(toks, i);
                    }
                    let (instr, target) = match this.parse_single_instruction() {
                        Ok(p) => p,
                        Err(e) => return Err(e),
                    };
                    let ghost ri = (instr, label_view(target));
                    instructions.push(instr);
                    this.fixup_list.push(target);
                    assert(raws_view(instructions@, this.fixup_list@) =~= raws.push(ri));
                },
                _ => return Err(ParseError::IllegalToken(tok.clone(), this.pos)),
            }
        }
        this.finish(instructions)
    }

    /// Resolves every label reference and finds the entry point, once all tokens are read
    fn finish(self, instructions: Vec<VMInstruction>) -> (r: Result<(Vec<VMInstruction>, usize), ParseError>)
        requires
            self.fixup_list@.len() == instructions@.len(),
        ensures
            parse_result_matches(
                parse_result_view(r),
                link(labels_view(self.label_map@), raws_view(instructions@, self.fixup_list@)),
            ),
    {
        let ghost labels = labels_view(self.label_map@);
        let ghost raws = raws_view(instructions@, self.fixup_list@);
        let n = instructions.len();
        // the labels that are jumped to but never defined, each listed once
        let mut undefined: Vec<String> = Vec::new();
        let mut k: usize = 0;
        while k < n
            invariant
                n == instructions@.len(),
                n == self.fixup_list@.len(),
                labels == labels_view(self.label_map@),
                raws == raws_view(instructions@, self.fixup_list@),
                k <= n,
                string_views(undefined@).no_duplicates(),
                forall|l: Seq<char>|
                    string_views(undefined@).contains(l) <==> (label_address(
                        labels,
                        l,
                    ) is None && exists|j: int| 0 <= j < k && #[trigger] raws[j].1 == Some(l)),
            decreases n - k,
        {
            let ghost before = string_views(undefined@);
            assert(raws[k as int].1 == label_view(self.fixup_list@[k as int]));
            match &self.fixup_list[k] {
                Some(l) => {
                    let defined = self.find_label(l).is_some();
                    let listed = contains_string(&undefined, l);
                    let pushed = !defined && !listed;
                    if pushed {
                        undefined.push(l.clone());
                        assert(string_views(undefined@) =~= before.push(l@));
                    } else {
                        assert(string_views(undefined@) =~= before);
                    }
                    let ghost after = string_views(undefined@);
                    assert forall|m: Seq<char>|
                        after.contains(m) <==> (label_address(labels, m) is None
                            && exists|j: int| 0 <= j < k + 1 && #[trigger] raws[j].1 == Some(m)) by {
                        if after.contains(m) {
                            let x = choose|x: int| 0 <= x < after.len() && after[x] == m;
                            if x < before.len() {
                                assert(before[x] == m);
                                assert(before.contains(m));
                            } else {
                                assert(m == l@);
                                assert(raws[k as int].1 == Some(m));
                            }
                        }
                        if label_address(labels, m) is None && exists|j: int| 0 <= j < k + 1 && #[trigger] raws[j].1 == Some(m) {
                            let j = choose|j: int| 0 <= j < k + 1 && #[trigger] raws[j].1 == Some(m);
                            if j < k {
                                assert(before.contains(m));
                                let x = choose|x: int| 0 <= x < before.len() && before[x] == m;
                                assert(after[x] == m);
                            } else {
                                assert(m == l@);
                                if listed {
                                    let x = choose|x: int| 0 <= x < before.len() && before[x] == m;
                                    assert(after[x] == m);
                                } else {
                                    assert(after[after.len() - 1] == m);
                                }
                            }
                        }
                    }
                },
                None => {
                    assert forall|m: Seq<char>|
                        string_views(undefined@).contains(m) <==> (label_address(labels, m) is None
                            && exists|j: int| 0 <= j < k + 1 && #[trigger] raws[j].1 == Some(m)) by {
                        if exists|j: int| 0 <= j < k + 1 && #[trigger] raws[j].1 == Some(m) {
                            let j = choose|j: int| 0 <= j < k + 1 && #[trigger] raws[j].1 == Some(m);
                            assert(j < k);
                        }
                    }
                },
            }
            k = k + 1;
        }
        assert(string_views(undefined@).to_set() =~= undefined_labels(labels, raws));
        if undefined.len() > 0 {
            assert(undefined_labels(labels, raws).contains(string_views(undefined@)[0]));
            return Err(ParseError::UndefinedLabels(undefined));
        }
        assert(undefined_labels(labels, raws) =~= Set::<Seq<char>>::empty());
        let mut main_chars: Vec<char> = Vec::new();
        main_chars.push('m');
        main_chars.push('a');
        main_chars.push('i');
        main_chars.push('n');
        assert(main_chars@ =~= main_label());
        let main = string_from_chars(&main_chars);
        let entry = match self.find_label(&main) {
            Some(a) => a,
            None => return Err(ParseError::NoMainLabel),
        };
        let mut program: Vec<VMInstruction> = Vec::with_capacity(n);
        let mut k: usize = 0;
        while k < n
            invariant
                n == instructions@.len(),
                n == self.fixup_list@.len(),
                labels == labels_view(self.label_map@),
                raws == raws_view(instructions@, self.fixup_list@),
                undefined_labels(labels, raws) == Set::<Seq<char>>::empty(),
                k <= n,
                program@ == raws.take(k as int).map_values(|ri: RawInstr| resolve(labels, ri)),
            decreases n - k,
        {
            let instr = instructions[k];
            let resolved = match &self.fixup_list[k] {
                Some(l) => {
                    assert(raws[k as int].1 == Some(l@));
                    match self.find_label(l) {
                        Some(a) => retarget_to(instr, a as u32),
                        None => {
                            assert(undefined_labels(labels, raws).contains(l@));
                            instr
                        },
                    }
                },
                None => instr,
            };
            program.push(resolved);
            k = k + 1;
            assert(program@ =~= raws.take(k as int).map_values(|ri: RawInstr| resolve(labels, ri)));
        }
        assert(raws.take(n as int) =~= raws);
        Ok((program, entry))
    }
}

/// Jump or call instruction `i` with its target replaced by `a`
fn retarget_to(i: VMInstruction, a: u32) -> (r: VMInstruction)
    ensures
        r == retarget(i, a),
{
    match i {
        VMInstruction::Jump(_) => VMInstruction::Jump(a),
        VMInstruction::JumpIfNotZero(_) => VMInstruction::JumpIfNotZero(a),
        VMInstruction::JumpIfZero(_) => VMInstruction::JumpIfZero(a),
        VMInstruction::JumpIfTrue(_) => VMInstruction::JumpIfTrue(a),
        VMInstruction::JumpIfFalse(_) => VMInstruction::JumpIfFalse(a),
        VMInstruction::Call(_) => VMInstruction::Call(a),
        other => other,
    }
}

/// Whether `v` holds a string equal to `s`
fn contains_string(v: &Vec<String>, s: &String) -> (r: bool)
    ensures
        r == string_views(v@).contains(s@),
{
    let mut k: usize = 0;
    while k < v.len()
        invariant
            k <= v@.len(),
            forall|j: int| 0 <= j < k ==> v@[j]@ != s@,
        decreases v@.len() - k,
    {
        if v[k] == *s {
            assert(string_views(v@)[k as int] == s@);
            return true;
        }
        k = k + 1;
    }
    assert forall|j: int| 0 <= j < v@.len() implies #[trigger] string_views(v@)[j] != s@ by {}
    false
}

} // verus!
