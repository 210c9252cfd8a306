//! The grammar of SASM programs, stated over token views.
use crate::assembler::parser::error::ParseErrorView;
use crate::assembler::tokenizer::token::{Keyword, LiteralView, Operator, TokenView};
use crate::code::VMInstruction;
use crate::vm::Value;
use vstd::prelude::*;

verus! {

/// An instruction as parsed, before labels are resolved: the instruction (holding `u32::MAX`
/// where its operand is a label) and the label it jumps to, if any.
pub type RawInstr = (VMInstruction, Option<Seq<char>>);

/// The labels defined so far, each with the index of the instruction it binds to.
pub type Labels = Seq<(Seq<char>, usize)>;

/// The instruction a keyword without operand stands for.
pub open spec fn simple_instruction(k: Keyword) -> Option<VMInstruction> {
    match k {
        Keyword::Addu => Some(VMInstruction::AddUnchecked),
        Keyword::Addc => Some(VMInstruction::AddChecked),
        Keyword::Subu => Some(VMInstruction::SubUnchecked),
        Keyword::Subc => Some(VMInstruction::SubChecked),
        Keyword::Mulu => Some(VMInstruction::MulUnchecked),
        Keyword::Mulc => Some(VMInstruction::MulChecked),
        Keyword::Divc => Some(VMInstruction::DivChecked),
        Keyword::Negu => Some(VMInstruction::NegUnchecked),
        Keyword::Negc => Some(VMInstruction::NegChecked),
        Keyword::Eq => Some(VMInstruction::Eq),
        Keyword::Neq => Some(VMInstruction::Neq),
        Keyword::Lt => Some(VMInstruction::Lt),
        Keyword::Gt => Some(VMInstruction::Gt),
        Keyword::Le => Some(VMInstruction::LtEq),
        Keyword::Ge => Some(VMInstruction::GtEq),
        Keyword::Swap => Some(VMInstruction::Swap),
        Keyword::Pop => Some(VMInstruction::Pop),
        Keyword::Dup => Some(VMInstruction::Dup),
        Keyword::PopJump => Some(VMInstruction::PopJump),
        Keyword::DebugStack => Some(VMInstruction::DebugStack),
        Keyword::Exit => Some(VMInstruction::Exit),
        Keyword::ClearEFlags => Some(VMInstruction::ClearErrorFlags),
        Keyword::ClearDivZero => Some(VMInstruction::ClearDivisionByZero),
        Keyword::ClearOverflow => Some(VMInstruction::ClearOverflow),
        Keyword::PushDivisionByZeroFlag => Some(VMInstruction::PushDivisionByZeroFlag),
        Keyword::PushOverflowFlag => Some(VMInstruction::PushOverflowFlag),
        Keyword::Ret => Some(VMInstruction::Return),
        Keyword::BitAnd => Some(VMInstruction::BitAnd),
        Keyword::BitOr => Some(VMInstruction::BitOr),
        Keyword::BitXor => Some(VMInstruction::BitXor),
        Keyword::BitNot => Some(VMInstruction::BitNot),
        _ => None,
    }
}

/// The placeholder address of a jump whose label is not resolved yet.
pub open spec fn unresolved_address() -> u32 {
    u32::MAX
}

/// The jump or call instruction of keyword `k` with target `a`.
pub open spec fn jump_instruction(k: Keyword, a: u32) -> VMInstruction {
    match k {
        Keyword::Jump => VMInstruction::Jump(a),
        Keyword::JumpIfNotZero => VMInstruction::JumpIfNotZero(a),
        Keyword::JumpIfZero => VMInstruction::JumpIfZero(a),
        Keyword::JumpIfTrue => VMInstruction::JumpIfTrue(a),
        Keyword::JumpIfFalse => VMInstruction::JumpIfFalse(a),
        _ => VMInstruction::Call(a),
    }
}

pub open spec fn is_jump_keyword(k: Keyword) -> bool {
    matches!(k, Keyword::Jump | Keyword::JumpIfNotZero | Keyword::JumpIfZero | Keyword::JumpIfTrue
        | Keyword::JumpIfFalse | Keyword::Call)
}

/// The token at index `i`, if there is one.
pub open spec fn token_at(toks: Seq<TokenView>, i: int) -> Option<TokenView> {
    if 0 <= i < toks.len() {
        Some(toks[i])
    } else {
        None
    }
}

/// The operand of `push` starting at token `i`: an integer, a negated integer, a char (pushed as
/// its code point) or `true`/`false`; and the index after it.
pub open spec fn parse_push_operand(toks: Seq<TokenView>, i: int) -> Result<(Value, int), ParseErrorView> {
    match token_at(toks, i) {
        None => Err(ParseErrorView::UnexpectedEOF),
        Some(TokenView::Literal(LiteralView::Int(n))) => Ok((Value::Int(n), i + 1)),
        Some(TokenView::Literal(LiteralView::Char(c))) => Ok((Value::Int(c as i32), i + 1)),
        Some(TokenView::Keyword(Keyword::True)) => Ok((Value::Bool(true), i + 1)),
        Some(TokenView::Keyword(Keyword::False)) => Ok((Value::Bool(false), i + 1)),
        Some(TokenView::Operator(Operator::Minus)) => match token_at(toks, i + 1) {
            None => Err(ParseErrorView::UnexpectedEOF),
            Some(TokenView::Literal(LiteralView::Int(n))) => Ok(
                (Value::Int((0i32).wrapping_sub(n)), i + 2),
            ),
            Some(t) => Err(ParseErrorView::IllegalToken(t, (i + 2) as usize)),
        },
        Some(t) => Err(ParseErrorView::IllegalToken(t, (i + 1) as usize)),
    }
}

/// The integer operand at token `i`.
pub open spec fn parse_int_operand(toks: Seq<TokenView>, i: int) -> Result<i32, ParseErrorView> {
    match token_at(toks, i) {
        None => Err(ParseErrorView::UnexpectedEOF),
        Some(TokenView::Literal(LiteralView::Int(n))) => Ok(n),
        Some(t) => Err(ParseErrorView::IllegalToken(t, (i + 1) as usize)),
    }
}

/// The instruction whose keyword is token `i`, with the index after it.
pub open spec fn parse_instruction(toks: Seq<TokenView>, i: int) -> Result<(RawInstr, int), ParseErrorView> {
    let kt = toks[i];
    match kt {
        TokenView::Keyword(k) => {
            if simple_instruction(k) is Some {
                Ok(((simple_instruction(k)->0, None), i + 1))
            } else if k == Keyword::Push {
                match parse_push_operand(toks, i + 1) {
                    Ok((v, e)) => Ok(((VMInstruction::PushImm(v), None), e)),
                    Err(e) => Err(e),
                }
            } else if matches!(k, Keyword::Shl | Keyword::Shr | Keyword::Rotl | Keyword::Rotr) {
                match parse_int_operand(toks, i + 1) {
                    Ok(n) => if (k == Keyword::Shl || k == Keyword::Shr) && !(0 <= n < 256) {
                        // a shift amount that does not fit the instruction's byte is an error
                        // here; amounts from 32 on that fit fail when executed; rotations wrap
                        // modulo 32
                        Err(ParseErrorView::IllegalToken(toks[i + 1], (i + 2) as usize))
                    } else {
                        let b = n as u8;
                        let instr = match k {
                            Keyword::Shl => VMInstruction::ShiftL(b),
                            Keyword::Shr => VMInstruction::ShiftR(b),
                            Keyword::Rotl => VMInstruction::RotL(b),
                            _ => VMInstruction::RotR(b),
                        };
                        Ok(((instr, None), i + 2))
                    },
                    Err(e) => Err(e),
                }
            } else if k == Keyword::Pick || k == Keyword::Move {
                match parse_int_operand(toks, i + 1) {
                    Ok(n) => Ok(
                        (
                            (
                                if k == Keyword::Pick {
                                    VMInstruction::Pick(n as u32)
                                } else {
                                    VMInstruction::Move(n as u32)
                                },
                                None,
                            ),
                            i + 2,
                        ),
                    ),
                    Err(e) => Err(e),
                }
            } else if is_jump_keyword(k) {
                match token_at(toks, i + 1) {
                    None => Err(ParseErrorView::UnexpectedEOF),
                    Some(TokenView::Identifier(l)) => Ok(
                        ((jump_instruction(k, unresolved_address()), Some(l)), i + 2),
                    ),
                    Some(TokenView::Literal(LiteralView::Int(n))) => if k != Keyword::Call {
                        Ok(((jump_instruction(k, n as u32), None), i + 2))
                    } else {
                        Err(ParseErrorView::IllegalToken(kt, (i + 2) as usize))
                    },
                    Some(_) => Err(ParseErrorView::IllegalToken(kt, (i + 2) as usize)),
                }
            } else {
                Err(ParseErrorView::IllegalToken(kt, (i + 1) as usize))
            }
        },
        _ => Err(ParseErrorView::IllegalToken(kt, (i + 1) as usize)),
    }
}


/// An instruction takes at least its keyword, and no more than the tokens there are.
pub proof fn lemma_parse_instruction_advances(toks: Seq<TokenView>, i: int)
    requires
        0 <= i < toks.len(),
    ensures
        parse_instruction(toks, i) matches Ok((_, e)) ==> i < e <= toks.len(),
{
}

/// The address the label `l` binds to among `labels`, if it is defined.
pub open spec fn label_address(labels: Labels, l: Seq<char>) -> Option<usize>
    decreases labels.len(),
{
    if labels.len() == 0 {
        None
    } else if labels.last().0 == l {
        Some(labels.last().1)
    } else {
        label_address(labels.drop_last(), l)
    }
}

/// Reads the statements from token `i` on, given the labels and instructions read before:
/// blank lines, label definitions (`:` and a name) and instructions. Gives all labels and
/// instructions, or the first error in token order.
pub open spec fn scan(toks: Seq<TokenView>, i: int, labels: Labels, instrs: Seq<RawInstr>) -> Result<
    (Labels, Seq<RawInstr>),
    ParseErrorView,
>
    decreases toks.len() - i,
{
    if i < 0 || i >= toks.len() {
        Ok((labels, instrs))
    } else {
        match toks[i] {
            TokenView::NewLine => scan(toks, i + 1, labels, instrs),
            TokenView::Colon => match token_at(toks, i + 1) {
                None => Err(ParseErrorView::UnexpectedEOF),
                Some(TokenView::Identifier(l)) => if label_address(labels, l) is Some {
                    Err(ParseErrorView::LabelAlreadyDefined(l))
                } else {
                    scan(toks, i + 2, labels.push((l, instrs.len() as usize)), instrs)
                },
                Some(t) => Err(ParseErrorView::IllegalToken(t, (i + 2) as usize)),
            },
            TokenView::Keyword(_) => match parse_instruction(toks, i) {
                Ok((ri, e)) => {
                    proof {
                        lemma_parse_instruction_advances(toks, i);
                    }
                    scan(toks, e, labels, instrs.push(ri))
                },
                Err(err) => Err(err),
            },
            t => Err(ParseErrorView::IllegalToken(t, i as usize)),
        }
    }
}

/// Whether some instruction jumps to label `l` that `labels` does not define.
pub open spec fn is_undefined_label(labels: Labels, instrs: Seq<RawInstr>, l: Seq<char>) -> bool {
    label_address(labels, l) is None && exists|k: int|
        0 <= k < instrs.len() && #[trigger] instrs[k].1 == Some(l)
}

/// Jump or call instruction `i` with its target replaced by `a`.
pub open spec fn retarget(i: VMInstruction, a: u32) -> VMInstruction {
    match i {
        VMInstruction::Jump(_) => VMInstruction::Jump(a),
        VMInstruction::JumpIfNotZero(_) => VMInstruction::JumpIfNotZero(a),
        VMInstruction::JumpIfZero(_) => VMInstruction::JumpIfZero(a),
        VMInstruction::JumpIfTrue(_) => VMInstruction::JumpIfTrue(a),
        VMInstruction::JumpIfFalse(_) => VMInstruction::JumpIfFalse(a),
        VMInstruction::Call(_) => VMInstruction::Call(a),
        other => other,
    }
}

/// The instruction `ri` with its label replaced by the label's address.
pub open spec fn resolve(labels: Labels, ri: RawInstr) -> VMInstruction {
    match ri.1 {
        Some(l) => retarget(ri.0, label_address(labels, l)->0 as u32),
        None => ri.0,
    }
}

/// The name of the entry label.
pub open spec fn main_label() -> Seq<char> {
    seq!['m', 'a', 'i', 'n']
}

/// What parsing yields: the program and the address of `:main`, or the error. Undefined labels
/// are given as a set, since their order is not fixed.
pub enum ParseOutcome {
    Program(Seq<VMInstruction>, usize),
    Failed(ParseErrorView),
    UndefinedLabels(Set<Seq<char>>),
}

/// The labels that instructions jump to but that are not defined.
pub open spec fn undefined_labels(labels: Labels, instrs: Seq<RawInstr>) -> Set<Seq<char>> {
    Set::new(|l: Seq<char>| is_undefined_label(labels, instrs, l))
}

/// The program made of the labels and instructions read: every label resolved, and the
/// entry at `:main`.
pub open spec fn link(labels: Labels, instrs: Seq<RawInstr>) -> ParseOutcome {
    if !undefined_labels(labels, instrs).is_empty() {
        ParseOutcome::UndefinedLabels(undefined_labels(labels, instrs))
    } else {
        match label_address(labels, main_label()) {
            Some(entry) => ParseOutcome::Program(
                instrs.map_values(|ri: RawInstr| resolve(labels, ri)),
                entry,
            ),
            None => ParseOutcome::Failed(ParseErrorView::NoMainLabel),
        }
    }
}

/// The program that the tokens `toks` spell.
pub open spec fn parse_tokens(toks: Seq<TokenView>) -> ParseOutcome {
    match scan(toks, 0, Seq::empty(), Seq::empty()) {
        Err(e) => ParseOutcome::Failed(e),
        Ok((labels, instrs)) => link(labels, instrs),
    }
}

/// Whether a parse result is what `parse_tokens` says: the same program and entry, or the same
/// error, the undefined labels listed once each in some order.
pub open spec fn parse_result_matches(
    r: Result<(Seq<VMInstruction>, usize), ParseErrorView>,
    o: ParseOutcome,
) -> bool {
    match o {
        ParseOutcome::Program(p, entry) => r == Ok::<(Seq<VMInstruction>, usize), ParseErrorView>(
            (p, entry),
        ),
        ParseOutcome::Failed(e) => r == Err::<(Seq<VMInstruction>, usize), ParseErrorView>(e),
        ParseOutcome::UndefinedLabels(set) => r matches Err(ParseErrorView::UndefinedLabels(ls))
            && ls.to_set() == set && ls.no_duplicates(),
    }
}

/// Every label among `labels` binds to an index no greater than `n`.
pub open spec fn labels_within(labels: Labels, n: nat) -> bool {
    forall|k: int| 0 <= k < labels.len() ==> #[trigger] labels[k].1 <= n
}

proof fn lemma_label_address_within(labels: Labels, l: Seq<char>, n: nat)
    requires
        labels_within(labels, n),
    ensures
        label_address(labels, l) matches Some(a) ==> a <= n,
    decreases labels.len(),
{
    if labels.len() > 0 {
        assert(labels.last() == labels[labels.len() - 1]);
        lemma_label_address_within(labels.drop_last(), l, n);
    }
}

proof fn lemma_scan_labels_within(toks: Seq<TokenView>, i: int, labels: Labels, instrs: Seq<RawInstr>)
    requires
        labels_within(labels, instrs.len()),
    ensures
        scan(toks, i, labels, instrs) matches Ok((ls, is)) ==> labels_within(ls, is.len())
            && instrs.len() <= is.len(),
    decreases toks.len() - i,
{
    if 0 <= i < toks.len() {
        match toks[i] {
            TokenView::NewLine => lemma_scan_labels_within(toks, i + 1, labels, instrs),
            TokenView::Colon => match token_at(toks, i + 1) {
                Some(TokenView::Identifier(l)) => {
                    if label_address(labels, l) is None {
                        let ls = labels.push((l, instrs.len() as usize));
                        assert forall|k: int| 0 <= k < ls.len() implies #[trigger] ls[k].1 <= instrs.len() by {
                            if k < labels.len() {
                                assert(ls[k] == labels[k]);
                            }
                        }
                        lemma_scan_labels_within(toks, i + 2, ls, instrs);
                    }
                },
                _ => {},
            },
            TokenView::Keyword(_) => match parse_instruction(toks, i) {
                Ok((ri, e)) => {
                    lemma_parse_instruction_advances(toks, i);
                    let is = instrs.push(ri);
                    assert forall|k: int| 0 <= k < labels.len() implies #[trigger] labels[k].1 <= is.len() by {
                        assert(labels[k].1 <= instrs.len());
                    }
                    lemma_scan_labels_within(toks, e, labels, is);
                },
                Err(_) => {},
            },
            _ => {},
        }
    }
}

/// Law: a label binds to the index of the next instruction after it, so the entry point of a
/// parsed program, like every label, is at most one past its last instruction.
pub proof fn lemma_entry_within_program(toks: Seq<TokenView>)
    ensures
        parse_tokens(toks) matches ParseOutcome::Program(p, entry) ==> entry <= p.len(),
{
    lemma_scan_labels_within(toks, 0, Seq::empty(), Seq::empty());
    match scan(toks, 0, Seq::empty(), Seq::empty()) {
        Ok((labels, instrs)) => {
            lemma_label_address_within(labels, main_label(), instrs.len());
        },
        Err(_) => {},
    }
}

/// Law: rotations wrap modulo 32. The operand of a parsed `rotl`/`rotr` is kept in a byte,
/// which rotates by the same amount as the literal would: the literal modulo 32.
pub proof fn lemma_rotation_amount_wraps(n: i32)
    ensures
        ((n as u8) as u32) % 32 == (n as u32) % 32,
{
    assert(((n as u8) as u32) % 32 == (n as u32) % 32) by (bit_vector);
}

/// Law: each keyword without operand stands for the instruction of the same name (`lteq` and
/// `gteq` for `LtEq` and `GtEq`, `ret` for `Return`, `dbg_stack` for `DebugStack`, ...).
pub proof fn lemma_simple_keyword_table()
    ensures
        parse_instruction(seq![TokenView::Keyword(Keyword::Addu)], 0) == Ok::<(RawInstr, int), ParseErrorView>(((VMInstruction::AddUnchecked, None), 1)),
        parse_instruction(seq![TokenView::Keyword(Keyword::Addc)], 0) == Ok::<(RawInstr, int), ParseErrorView>(((VMInstruction::AddChecked, None), 1)),
        parse_instruction(seq![TokenView::Keyword(Keyword::Subu)], 0) == Ok::<(RawInstr, int), ParseErrorView>(((VMInstruction::SubUnchecked, None), 1)),
        parse_instruction(seq![TokenView::Keyword(Keyword::Subc)], 0) == Ok::<(RawInstr, int), ParseErrorView>(((VMInstruction::SubChecked, None), 1)),
        parse_instruction(seq![TokenView::Keyword(Keyword::Mulu)], 0) == Ok::<(RawInstr, int), ParseErrorView>(((VMInstruction::MulUnchecked, None), 1)),
        parse_instruction(seq![TokenView::Keyword(Keyword::Mulc)], 0) == Ok::<(RawInstr, int), ParseErrorView>(((VMInstruction::MulChecked, None), 1)),
        parse_instruction(seq![TokenView::Keyword(Keyword::Divc)], 0) == Ok::<(RawInstr, int), ParseErrorView>(((VMInstruction::DivChecked, None), 1)),
        parse_instruction(seq![TokenView::Keyword(Keyword::Negu)], 0) == Ok::<(RawInstr, int), ParseErrorView>(((VMInstruction::NegUnchecked, None), 1)),
        parse_instruction(seq![TokenView::Keyword(Keyword::Negc)], 0) == Ok::<(RawInstr, int), ParseErrorView>(((VMInstruction::NegChecked, None), 1)),
        parse_instruction(seq![TokenView::Keyword(Keyword::Eq)], 0) == Ok::<(RawInstr, int), ParseErrorView>(((VMInstruction::Eq, None), 1)),
        parse_instruction(seq![TokenView::Keyword(Keyword::Neq)], 0) == Ok::<(RawInstr, int), ParseErrorView>(((VMInstruction::Neq, None), 1)),
        parse_instruction(seq![TokenView::Keyword(Keyword::Lt)], 0) == Ok::<(RawInstr, int), ParseErrorView>(((VMInstruction::Lt, None), 1)),
        parse_instruction(seq![TokenView::Keyword(Keyword::Gt)], 0) == Ok::<(RawInstr, int), ParseErrorView>(((VMInstruction::Gt, None), 1)),
        parse_instruction(seq![TokenView::Keyword(Keyword::Le)], 0) == Ok::<(RawInstr, int), ParseErrorView>(((VMInstruction::LtEq, None), 1)),
        parse_instruction(seq![TokenView::Keyword(Keyword::Ge)], 0) == Ok::<(RawInstr, int), ParseErrorView>(((VMInstruction::GtEq, None), 1)),
        parse_instruction(seq![TokenView::Keyword(Keyword::Swap)], 0) == Ok::<(RawInstr, int), ParseErrorView>(((VMInstruction::Swap, None), 1)),
        parse_instruction(seq![TokenView::Keyword(Keyword::Pop)], 0) == Ok::<(RawInstr, int), ParseErrorView>(((VMInstruction::Pop, None), 1)),
        parse_instruction(seq![TokenView::Keyword(Keyword::Dup)], 0) == Ok::<(RawInstr, int), ParseErrorView>(((VMInstruction::Dup, None), 1)),
        parse_instruction(seq![TokenView::Keyword(Keyword::PopJump)], 0) == Ok::<(RawInstr, int), ParseErrorView>(((VMInstruction::PopJump, None), 1)),
        parse_instruction(seq![TokenView::Keyword(Keyword::DebugStack)], 0) == Ok::<(RawInstr, int), ParseErrorView>(((VMInstruction::DebugStack, None), 1)),
        parse_instruction(seq![TokenView::Keyword(Keyword::Exit)], 0) == Ok::<(RawInstr, int), ParseErrorView>(((VMInstruction::Exit, None), 1)),
        parse_instruction(seq![TokenView::Keyword(Keyword::ClearEFlags)], 0) == Ok::<(RawInstr, int), ParseErrorView>(((VMInstruction::ClearErrorFlags, None), 1)),
        parse_instruction(seq![TokenView::Keyword(Keyword::ClearDivZero)], 0) == Ok::<(RawInstr, int), ParseErrorView>(((VMInstruction::ClearDivisionByZero, None), 1)),
        parse_instruction(seq![TokenView::Keyword(Keyword::ClearOverflow)], 0) == Ok::<(RawInstr, int), ParseErrorView>(((VMInstruction::ClearOverflow, None), 1)),
        parse_instruction(seq![TokenView::Keyword(Keyword::PushDivisionByZeroFlag)], 0) == Ok::<(RawInstr, int), ParseErrorView>(((VMInstruction::PushDivisionByZeroFlag, None), 1)),
        parse_instruction(seq![TokenView::Keyword(Keyword::PushOverflowFlag)], 0) == Ok::<(RawInstr, int), ParseErrorView>(((VMInstruction::PushOverflowFlag, None), 1)),
        parse_instruction(seq![TokenView::Keyword(Keyword::Ret)], 0) == Ok::<(RawInstr, int), ParseErrorView>(((VMInstruction::Return, None), 1)),
        parse_instruction(seq![TokenView::Keyword(Keyword::BitAnd)], 0) == Ok::<(RawInstr, int), ParseErrorView>(((VMInstruction::BitAnd, None), 1)),
        parse_instruction(seq![TokenView::Keyword(Keyword::BitOr)], 0) == Ok::<(RawInstr, int), ParseErrorView>(((VMInstruction::BitOr, None), 1)),
        parse_instruction(seq![TokenView::Keyword(Keyword::BitXor)], 0) == Ok::<(RawInstr, int), ParseErrorView>(((VMInstruction::BitXor, None), 1)),
        parse_instruction(seq![TokenView::Keyword(Keyword::BitNot)], 0) == Ok::<(RawInstr, int), ParseErrorView>(((VMInstruction::BitNot, None), 1)),
{
}

/// Law: each jump keyword stands for the jump of the same name. Before a label of `l` is
/// resolved the instruction holds the placeholder address and the label; resolving puts the
/// label's address into the same instruction. An integer target is kept as the address (`call`
/// takes labels only).
pub proof fn lemma_jump_keyword_table(l: Seq<char>, n: i32, x: u32, a: u32)
    ensures
        parse_instruction(seq![TokenView::Keyword(Keyword::Jump), TokenView::Identifier(l)], 0)
            == Ok::<(RawInstr, int), ParseErrorView>(((VMInstruction::Jump(u32::MAX), Some(l)), 2)),
        retarget(VMInstruction::Jump(x), a) == VMInstruction::Jump(a),
        parse_instruction(seq![TokenView::Keyword(Keyword::JumpIfNotZero), TokenView::Identifier(l)], 0)
            == Ok::<(RawInstr, int), ParseErrorView>(((VMInstruction::JumpIfNotZero(u32::MAX), Some(l)), 2)),
        retarget(VMInstruction::JumpIfNotZero(x), a) == VMInstruction::JumpIfNotZero(a),
        parse_instruction(seq![TokenView::Keyword(Keyword::JumpIfZero), TokenView::Identifier(l)], 0)
            == Ok::<(RawInstr, int), ParseErrorView>(((VMInstruction::JumpIfZero(u32::MAX), Some(l)), 2)),
        retarget(VMInstruction::JumpIfZero(x), a) == VMInstruction::JumpIfZero(a),
        parse_instruction(seq![TokenView::Keyword(Keyword::JumpIfTrue), TokenView::Identifier(l)], 0)
            == Ok::<(RawInstr, int), ParseErrorView>(((VMInstruction::JumpIfTrue(u32::MAX), Some(l)), 2)),
        retarget(VMInstruction::JumpIfTrue(x), a) == VMInstruction::JumpIfTrue(a),
        parse_instruction(seq![TokenView::Keyword(Keyword::JumpIfFalse), TokenView::Identifier(l)], 0)
            == Ok::<(RawInstr, int), ParseErrorView>(((VMInstruction::JumpIfFalse(u32::MAX), Some(l)), 2)),
        retarget(VMInstruction::JumpIfFalse(x), a) == VMInstruction::JumpIfFalse(a),
        parse_instruction(seq![TokenView::Keyword(Keyword::Call), TokenView::Identifier(l)], 0)
            == Ok::<(RawInstr, int), ParseErrorView>(((VMInstruction::Call(u32::MAX), Some(l)), 2)),
        retarget(VMInstruction::Call(x), a) == VMInstruction::Call(a),
        parse_instruction(seq![TokenView::Keyword(Keyword::Jump), TokenView::Literal(LiteralView::Int(n))], 0)
            == Ok::<(RawInstr, int), ParseErrorView>(((VMInstruction::Jump(n as u32), None), 2)),
        parse_instruction(seq![TokenView::Keyword(Keyword::JumpIfNotZero), TokenView::Literal(LiteralView::Int(n))], 0)
            == Ok::<(RawInstr, int), ParseErrorView>(((VMInstruction::JumpIfNotZero(n as u32), None), 2)),
        parse_instruction(seq![TokenView::Keyword(Keyword::JumpIfZero), TokenView::Literal(LiteralView::Int(n))], 0)
            == Ok::<(RawInstr, int), ParseErrorView>(((VMInstruction::JumpIfZero(n as u32), None), 2)),
        parse_instruction(seq![TokenView::Keyword(Keyword::JumpIfTrue), TokenView::Literal(LiteralView::Int(n))], 0)
            == Ok::<(RawInstr, int), ParseErrorView>(((VMInstruction::JumpIfTrue(n as u32), None), 2)),
        parse_instruction(seq![TokenView::Keyword(Keyword::JumpIfFalse), TokenView::Literal(LiteralView::Int(n))], 0)
            == Ok::<(RawInstr, int), ParseErrorView>(((VMInstruction::JumpIfFalse(n as u32), None), 2)),
        parse_instruction(seq![TokenView::Keyword(Keyword::Call), TokenView::Literal(LiteralView::Int(n))], 0)
            is Err,
{
}

/// Law: the operands of `push`. An integer is pushed as itself, `-n` as the negation of `n`
/// (wrapping), a char as its code point, and `true`/`false` as booleans.
pub proof fn lemma_push_operand_table(n: i32, c: char)
    ensures
        parse_instruction(seq![TokenView::Keyword(Keyword::Push), TokenView::Literal(LiteralView::Int(n))], 0)
            == Ok::<(RawInstr, int), ParseErrorView>(((VMInstruction::PushImm(Value::Int(n)), None), 2)),
        parse_instruction(
            seq![TokenView::Keyword(Keyword::Push), TokenView::Operator(Operator::Minus), TokenView::Literal(LiteralView::Int(n))],
            0,
        ) == Ok::<(RawInstr, int), ParseErrorView>(((VMInstruction::PushImm(Value::Int((-n) as i32)), None), 3)),
        parse_instruction(seq![TokenView::Keyword(Keyword::Push), TokenView::Literal(LiteralView::Char(c))], 0)
            == Ok::<(RawInstr, int), ParseErrorView>(((VMInstruction::PushImm(Value::Int(c as i32)), None), 2)),
        parse_instruction(seq![TokenView::Keyword(Keyword::Push), TokenView::Keyword(Keyword::True)], 0)
            == Ok::<(RawInstr, int), ParseErrorView>(((VMInstruction::PushImm(Value::Bool(true)), None), 2)),
        parse_instruction(seq![TokenView::Keyword(Keyword::Push), TokenView::Keyword(Keyword::False)], 0)
            == Ok::<(RawInstr, int), ParseErrorView>(((VMInstruction::PushImm(Value::Bool(false)), None), 2)),
{
    assert((0i32).wrapping_sub(n) == (-n) as i32) by (bit_vector);
}

/// Law: the operands of shifts, rotations, `pick` and `move`. A shift or rotation takes an
/// amount that fits in a byte, `pick` and `move` take the integer as an index.
pub proof fn lemma_int_operand_table(n: i32)
    ensures
        0 <= n < 256 ==> parse_instruction(seq![TokenView::Keyword(Keyword::Shl), TokenView::Literal(LiteralView::Int(n))], 0)
            == Ok::<(RawInstr, int), ParseErrorView>(((VMInstruction::ShiftL(n as u8), None), 2)),
        0 <= n < 256 ==> parse_instruction(seq![TokenView::Keyword(Keyword::Shr), TokenView::Literal(LiteralView::Int(n))], 0)
            == Ok::<(RawInstr, int), ParseErrorView>(((VMInstruction::ShiftR(n as u8), None), 2)),
        parse_instruction(seq![TokenView::Keyword(Keyword::Rotl), TokenView::Literal(LiteralView::Int(n))], 0)
            == Ok::<(RawInstr, int), ParseErrorView>(((VMInstruction::RotL(n as u8), None), 2)),
        parse_instruction(seq![TokenView::Keyword(Keyword::Rotr), TokenView::Literal(LiteralView::Int(n))], 0)
            == Ok::<(RawInstr, int), ParseErrorView>(((VMInstruction::RotR(n as u8), None), 2)),
        parse_instruction(seq![TokenView::Keyword(Keyword::Pick), TokenView::Literal(LiteralView::Int(n))], 0)
            == Ok::<(RawInstr, int), ParseErrorView>(((VMInstruction::Pick(n as u32), None), 2)),
        parse_instruction(seq![TokenView::Keyword(Keyword::Move), TokenView::Literal(LiteralView::Int(n))], 0)
            == Ok::<(RawInstr, int), ParseErrorView>(((VMInstruction::Move(n as u32), None), 2)),
{
}

/// Law: labels and the entry point. A label binds to the index of the next instruction, a jump
/// to a label gets that index, and the program starts at the label `main`; a program without
/// `main` fails with `NoMainLabel`, a label defined twice with `LabelAlreadyDefined`, and a jump
/// to a label never defined with `UndefinedLabels` naming it.
pub proof fn lemma_label_resolution(l: Seq<char>)
    requires
        l != main_label(),
    ensures
        parse_tokens(
            seq![
                TokenView::Colon,
                TokenView::Identifier(l),
                TokenView::Keyword(Keyword::Dup),
                TokenView::Colon,
                TokenView::Identifier(main_label()),
                TokenView::Keyword(Keyword::JumpIfNotZero),
                TokenView::Identifier(l),
            ],
        ) == ParseOutcome::Program(
            seq![VMInstruction::Dup, VMInstruction::JumpIfNotZero(0)],
            1,
        ),
        parse_tokens(seq![TokenView::Colon, TokenView::Identifier(l), TokenView::Keyword(Keyword::Exit)])
            == ParseOutcome::Failed(ParseErrorView::NoMainLabel),
        parse_tokens(
            seq![TokenView::Colon, TokenView::Identifier(l), TokenView::Colon, TokenView::Identifier(l)],
        ) == ParseOutcome::Failed(ParseErrorView::LabelAlreadyDefined(l)),
        parse_tokens(
            seq![
                TokenView::Colon,
                TokenView::Identifier(main_label()),
                TokenView::Keyword(Keyword::Jump),
                TokenView::Identifier(l),
            ],
        ) == ParseOutcome::UndefinedLabels(set![l]),
        main_label() == seq!['m', 'a', 'i', 'n'],
{
    let m = main_label();
    // a program with `main` and a jump back to `l`
    let t1 = seq![
        TokenView::Colon,
        TokenView::Identifier(l),
        TokenView::Keyword(Keyword::Dup),
        TokenView::Colon,
        TokenView::Identifier(m),
        TokenView::Keyword(Keyword::JumpIfNotZero),
        TokenView::Identifier(l),
    ];
    let e: Labels = Seq::empty();
    let ni: Seq<RawInstr> = Seq::empty();
    let la = e.push((l, 0usize));
    let i1 = ni.push((VMInstruction::Dup, None::<Seq<char>>));
    let lb = la.push((m, 1usize));
    let i2 = i1.push((VMInstruction::JumpIfNotZero(u32::MAX), Some(l)));
    assert(la.drop_last() =~= e && la.last() == (l, 0usize));
    assert(lb.drop_last() =~= la && lb.last() == (m, 1usize));
    assert(label_address(e, m) is None && label_address(e, l) is None);
    assert(scan(t1, 7, lb, i2) == Ok::<(Labels, Seq<RawInstr>), ParseErrorView>((lb, i2)));
    assert(parse_instruction(t1, 5) == Ok::<(RawInstr, int), ParseErrorView>(((VMInstruction::JumpIfNotZero(u32::MAX), Some(l)), 7)));
    assert(scan(t1, 5, lb, i1) == scan(t1, 7, lb, i2));
    assert(label_address(la, m) is None);
    assert(scan(t1, 3, la, i1) == scan(t1, 5, lb, i1));
    assert(parse_instruction(t1, 2) == Ok::<(RawInstr, int), ParseErrorView>(((VMInstruction::Dup, None::<Seq<char>>), 3)));
    assert(scan(t1, 2, la, ni) == scan(t1, 3, la, i1));
    assert(scan(t1, 0, e, ni) == scan(t1, 2, la, ni));
    assert(label_address(lb, l) == Some(0usize));
    assert(label_address(lb, m) == Some(1usize));
    assert(undefined_labels(lb, i2) =~= Set::<Seq<char>>::empty()) by {
        assert forall|x: Seq<char>| !is_undefined_label(lb, i2, x) by {
            if x != l && x != m {
                assert(forall|k: int| 0 <= k < i2.len() ==> #[trigger] i2[k].1 != Some(x));
            }
        }
    }
    assert(i2.map_values(|ri: RawInstr| resolve(lb, ri)) =~= seq![VMInstruction::Dup, VMInstruction::JumpIfNotZero(0)]);
    // no `main`
    let t2 = seq![TokenView::Colon, TokenView::Identifier(l), TokenView::Keyword(Keyword::Exit)];
    let i3 = ni.push((VMInstruction::Exit, None::<Seq<char>>));
    assert(scan(t2, 3, la, i3) == Ok::<(Labels, Seq<RawInstr>), ParseErrorView>((la, i3)));
    assert(scan(t2, 2, la, ni) == scan(t2, 3, la, i3));
    assert(scan(t2, 0, e, ni) == scan(t2, 2, la, ni));
    assert(undefined_labels(la, i3) =~= Set::<Seq<char>>::empty()) by {
        assert forall|x: Seq<char>| !is_undefined_label(la, i3, x) by {
            assert(forall|k: int| 0 <= k < i3.len() ==> #[trigger] i3[k].1 != Some(x));
        }
    }
    assert(label_address(la, m) is None);
    // `l` twice
    let t3 = seq![TokenView::Colon, TokenView::Identifier(l), TokenView::Colon, TokenView::Identifier(l)];
    assert(label_address(la, l) is Some);
    assert(scan(t3, 0, e, ni) == scan(t3, 2, la, ni));
    // a jump to a label never defined
    let t4 = seq![
        TokenView::Colon,
        TokenView::Identifier(m),
        TokenView::Keyword(Keyword::Jump),
        TokenView::Identifier(l),
    ];
    let lm = e.push((m, 0usize));
    let i4 = ni.push((VMInstruction::Jump(u32::MAX), Some(l)));
    assert(lm.drop_last() =~= e && lm.last() == (m, 0usize));
    assert(scan(t4, 4, lm, i4) == Ok::<(Labels, Seq<RawInstr>), ParseErrorView>((lm, i4)));
    assert(parse_instruction(t4, 2) == Ok::<(RawInstr, int), ParseErrorView>(((VMInstruction::Jump(u32::MAX), Some(l)), 4)));
    assert(scan(t4, 2, lm, ni) == scan(t4, 4, lm, i4));
    assert(scan(t4, 0, e, ni) == scan(t4, 2, lm, ni));
    assert(label_address(lm, l) is None);
    assert(i4[0].1 == Some(l));
    assert(undefined_labels(lm, i4) =~= set![l]) by {
        assert(is_undefined_label(lm, i4, l));
        assert forall|x: Seq<char>| is_undefined_label(lm, i4, x) implies x == l by {
            let k = choose|k: int| 0 <= k < i4.len() && #[trigger] i4[k].1 == Some(x);
            assert(k == 0);
        }
    }
}

} // verus!
