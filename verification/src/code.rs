//! The VM's instruction set and its binary encoding.
use crate::le::{le_u32, lemma_u32_from_le_canonical, lemma_u32_le_roundtrip, read_u32_le, u32_from_le, u32_to_le};
use crate::vm::Value;
use vstd::prelude::*;

verus! {

/// One instruction of the VM.
#[derive(Debug, Clone, Copy, PartialEq, Eq, Structural)]
pub enum VMInstruction {
    // Arithmetic stuffs
    /// Pops 2 values from the stack and pushes their sum, wrapping on overflow and setting ErrorFlags.overflow if it occurs
    ///
    /// Given stack: [a, b], pushes [b + a]
    AddUnchecked,
    /// Pops 2 values from the stack and pushes their sum, acting as a runtime assert; raises an error and sets ErrorFlags.overflow if it overflows
    ///
    /// Given stack: [a, b], pushes [b + a]
    AddChecked,
    /// Pops 2 values from the stack and pushes their difference, wrapping on overflow and setting ErrorFlags.overflow if it occurs
    ///
    /// Given stack: [a, b], pushes [b - a]
    SubUnchecked,
    /// Pops 2 values from the stack and pushes their difference, acting as a runtime assert; raises an error and sets ErrorFlags.overflow if it overflows
    ///
    /// Given stack: [a, b], pushes [b - a]
    SubChecked,
    /// Pops 2 values from the stack and pushes their product, acting as a runtime assert; raises an error and sets ErrorFlags.overflow if it overflows
    MulChecked,
    /// Pops 2 values from the stack and pushes their product, wrapping on overflow and setting ErrorFlags.overflow if it occurs
    MulUnchecked,
    /// Pops 2 values from the stack and pushes their quotient, checking that the divisor is not zero setting ErrorFlags.division_by_zero if it is
    ///
    /// Given stack: [a, b], pushes [b / a]
    DivChecked,
    /// Pops a value from the stack and pushes its negation, wrapping on overflow and setting ErrorFlags.overflow if it occurs
    NegUnchecked,
    /// Pops a value from the stack and pushes its negation, acting as a runtime assert; raises an error and sets ErrorFlags.overflow if it overflows
    ///
    /// Note that this only applies to integer values, booleans will raise an error
    NegChecked,
    /// Pops a value from the stack and shifts it left by the given amount, then pushes the result
    ///
    /// Raises an error if the shift amount is >= 32; bits shifted out are lost without error
    ShiftL(u8),
    /// Pops a value from the stack and shifts it right (arithmetically) by the given amount, then pushes the result
    ///
    /// Raises an error if the shift amount is >= 32
    ShiftR(u8),
    /// Pops a value from the stack and rotates its bits left by the given amount (modulo 32), then pushes the result
    RotL(u8),
    /// Pops a value from the stack and rotates its bits right by the given amount (modulo 32), then pushes the result
    RotR(u8),
    /// Pops values `a, b` from the stack and pushes their bitwise `and`
    ///
    /// Both operands must be the same type; ints are combined bitwise and bools logically,
    /// mixed types raise an error
    BitAnd,
    /// Pops values `a, b` from the stack and pushes their bitwise `or`
    BitOr,
    /// Pops values `a, b` from the stack and pushes their bitwise `xor`
    BitXor,
    /// Pops a value `a` from the stack and pushes `!a`
    ///
    /// Ints are complemented bitwise and bools are negated logically
    BitNot,
    // Comparison stuffs
    /// Pops 2 values from the stack and pushes their equality (true or false)
    ///
    /// Equality also compares the types, so `Value::Bool(true) == Value::Int(1)` is false
    Eq,
    /// Pops 2 values from the stack and pushes their inequality (true or false)
    Neq,
    /// Pops 2 values and pushes whether the top one is less than the one below it; both must be ints
    Lt,
    /// Pops 2 values and pushes whether the top one is greater than the one below it; both must be ints
    Gt,
    /// Pops 2 values and pushes whether the top one is greater than or equal to the one below it; both must be ints
    GtEq,
    /// Pops 2 values and pushes whether the top one is less than or equal to the one below it; both must be ints
    LtEq,
    // stack operations
    /// Pops the top two values from the stack, swaps them, then pushes them back
    Swap,
    /// Pops a value from the stack and discards it
    Pop,
    /// Pops a value from the stack, then pushes 2 copies of that value back onto the stack
    Dup,
    /// Push an immediate value onto the stack
    PushImm(Value),
    /// Copies the nth item in the stack (counted from the top, starting at 0) to the top,
    /// so `[1,2,3]` and `pick 1` gives `[1,2,3,2]`; `pick 0` is the same as `dup`
    Pick(u32),
    /// Same as `pick`, but moves the value instead of copying
    Move(u32),
    // control flow stuffs
    /// Pops a value from the stack and sets the program counter to that value
    PopJump,
    /// Sets the program counter to the given value
    Jump(u32),
    /// Pops a value from the stack and jumps to the given value if the value is not zero
    JumpIfNotZero(u32),
    /// Pops a value from the stack and jumps to the given value if the value is zero
    JumpIfZero(u32),
    /// Pops a value from the stack and jumps to the given value if the value is true
    JumpIfTrue(u32),
    /// Pops a value from the stack and jumps to the given value if the value is false
    JumpIfFalse(u32),
    /// Pushes PC + 1 onto the return stack, then jumps to the given address
    Call(u32),
    /// Pops a value from the return stack and jumps to that value
    Return,
    // VM control stuffs
    /// Debug instruction, records the current state of the stack
    DebugStack,
    /// Pops a value from the stack and treats that value as the VM's "exit code"
    Exit,
    /// Clears all the error flags
    ClearErrorFlags,
    /// Clears the division by zero error flag
    ClearDivisionByZero,
    /// Clears the overflow error flag
    ClearOverflow,
    /// Pushes the division by zero flag as a boolean
    PushDivisionByZeroFlag,
    /// Pushes the overflow flag as a boolean
    PushOverflowFlag,
}

/// Why a byte sequence is not the encoding of an instruction.
#[derive(Debug, Clone, Copy, PartialEq, Eq, Structural)]
pub enum VMInstructionParseError {
    /// Not enough bytes
    TooShort,
    /// Invalid opcode
    InvalidOpcode,
    /// Invalid value
    InvalidValue,
}

/// The five bytes that encode a value: a type tag, then four payload bytes.
pub open spec fn value_bytes(v: Value) -> Seq<u8> {
    match v {
        Value::Int(n) => seq![0u8] + le_u32(n as u32),
        Value::Bool(b) => seq![1u8, if b { 1u8 } else { 0u8 }, 0u8, 0u8, 0u8],
    }
}

/// The value encoded by the first five bytes of `s`, if they encode one.
pub open spec fn decode_value(s: Seq<u8>) -> Option<Value>
    recommends
        s.len() >= 5,
{
    if s[0] == 0 {
        Some(Value::Int(u32_from_le(s[1], s[2], s[3], s[4]) as i32))
    } else if s[0] == 1 && (s[1] == 0 || s[1] == 1) && s[2] == 0 && s[3] == 0 && s[4] == 0 {
        Some(Value::Bool(s[1] == 1))
    } else {
        None
    }
}

impl Value {
    /// The binary encoding of this value, as used for `PushImm` operands
    pub fn as_bytes(&self) -> (r: Vec<u8>)
        ensures
            r@ == value_bytes(*self),
    {
        let mut v: Vec<u8> = Vec::new();
        match *self {
            Value::Int(n) => {
                v.push(0u8);
                let b = u32_to_le(n as u32);
                v.push(b[0]);
                v.push(b[1]);
                v.push(b[2]);
                v.push(b[3]);
            },
            Value::Bool(b) => {
                v.push(1u8);
                v.push(if b { 1u8 } else { 0u8 });
                v.push(0u8);
                v.push(0u8);
                v.push(0u8);
            },
        }
        assert(v@ =~= value_bytes(*self));
        v
    }

    /// Reads a value from the first five bytes of `bytes`; `None` if there are fewer than five
    /// bytes or they do not encode a value
    pub fn try_from_bytes(bytes: &[u8]) -> (r: Option<Value>)
        ensures
            bytes@.len() < 5 ==> r is None,
            bytes@.len() >= 5 ==> r == decode_value(bytes@),
    {
        if bytes.len() < 5 {
            None
        } else {
            Self::read_at(bytes, 0)
        }
    }

    fn read_at(bytes: &[u8], at: usize) -> (r: Option<Value>)
        requires
            at + 5 <= bytes@.len(),
        ensures
            r == decode_value(bytes@.skip(at as int)),
    {
        let ghost s = bytes@.skip(at as int);
        let tag = bytes[at];
        if tag == 0 {
            let n = read_u32_le(bytes, at + 1);
            Some(Value::Int(n as i32))
        } else if tag == 1 && (bytes[at + 1] == 0 || bytes[at + 1] == 1) && bytes[at + 2] == 0
            && bytes[at + 3] == 0 && bytes[at + 4] == 0 {
            Some(Value::Bool(bytes[at + 1] == 1))
        } else {
            None
        }
    }
}

/// Decoding the encoding of a value gives the value back.
pub proof fn lemma_value_roundtrip(v: Value, rest: Seq<u8>)
    ensures
        decode_value(value_bytes(v) + rest) == Some(v),
{
    let s = value_bytes(v) + rest;
    match v {
        Value::Int(n) => {
            lemma_u32_le_roundtrip(n as u32);
            assert(s[1] == le_u32(n as u32)[0]);
            assert(s[2] == le_u32(n as u32)[1]);
            assert(s[3] == le_u32(n as u32)[2]);
            assert(s[4] == le_u32(n as u32)[3]);
            assert((n as u32) as i32 == n) by (bit_vector);
        },
        Value::Bool(b) => {},
    }
}

/// A value is decoded only from its own encoding.
pub proof fn lemma_value_canonical(s: Seq<u8>)
    requires
        s.len() >= 5,
        decode_value(s) is Some,
    ensures
        s.take(5) == value_bytes(decode_value(s)->0),
{
    if s[0] == 0 {
        let u = u32_from_le(s[1], s[2], s[3], s[4]);
        lemma_u32_from_le_canonical(s[1], s[2], s[3], s[4]);
        assert((u as i32) as u32 == u) by (bit_vector);
        assert(s.take(5) =~= seq![0u8] + le_u32(u));
    } else {
        assert(s.take(5) =~= value_bytes(decode_value(s)->0));
    }
}


/// The two significant opcode bytes of an instruction (the opcode is four bytes; the last two are zero).
pub open spec fn opcode(i: VMInstruction) -> (u8, u8) {
    match i {
        VMInstruction::AddUnchecked => (0x10u8, 0x01u8),
        VMInstruction::AddChecked => (0x10u8, 0x11u8),
        VMInstruction::SubUnchecked => (0x10u8, 0x02u8),
        VMInstruction::SubChecked => (0x10u8, 0x12u8),
        VMInstruction::MulChecked => (0x10u8, 0x13u8),
        VMInstruction::MulUnchecked => (0x10u8, 0x03u8),
        VMInstruction::DivChecked => (0x10u8, 0x14u8),
        VMInstruction::NegUnchecked => (0x10u8, 0x05u8),
        VMInstruction::NegChecked => (0x10u8, 0x15u8),
        VMInstruction::BitAnd => (0x03u8, 0x04u8),
        VMInstruction::BitOr => (0x03u8, 0x05u8),
        VMInstruction::BitXor => (0x03u8, 0x06u8),
        VMInstruction::BitNot => (0x03u8, 0x07u8),
        VMInstruction::Eq => (0x04u8, 0x00u8),
        VMInstruction::Neq => (0x04u8, 0x01u8),
        VMInstruction::Lt => (0x04u8, 0x02u8),
        VMInstruction::Gt => (0x04u8, 0x03u8),
        VMInstruction::GtEq => (0x04u8, 0x04u8),
        VMInstruction::LtEq => (0x04u8, 0x05u8),
        VMInstruction::Swap => (0x06u8, 0x00u8),
        VMInstruction::Pop => (0x06u8, 0x01u8),
        VMInstruction::Dup => (0x06u8, 0x02u8),
        VMInstruction::PopJump => (0x0Fu8, 0x00u8),
        VMInstruction::Return => (0x0Fu8, 0xFFu8),
        VMInstruction::ClearErrorFlags => (0x20u8, 0x00u8),
        VMInstruction::ClearDivisionByZero => (0x20u8, 0x01u8),
        VMInstruction::ClearOverflow => (0x20u8, 0x02u8),
        VMInstruction::PushDivisionByZeroFlag => (0x20u8, 0x03u8),
        VMInstruction::PushOverflowFlag => (0x20u8, 0x04u8),
        VMInstruction::Exit => (0xFFu8, 0x00u8),
        VMInstruction::DebugStack => (0xFFu8, 0x01u8),
        VMInstruction::ShiftL(_) => (0x03u8, 0x00u8),
        VMInstruction::ShiftR(_) => (0x03u8, 0x01u8),
        VMInstruction::RotL(_) => (0x03u8, 0x02u8),
        VMInstruction::RotR(_) => (0x03u8, 0x03u8),
        VMInstruction::Pick(_) => (0x06u8, 0x14u8),
        VMInstruction::Move(_) => (0x06u8, 0x15u8),
        VMInstruction::Jump(_) => (0x0Fu8, 0x01u8),
        VMInstruction::JumpIfNotZero(_) => (0x0Fu8, 0x02u8),
        VMInstruction::JumpIfZero(_) => (0x0Fu8, 0x03u8),
        VMInstruction::JumpIfTrue(_) => (0x0Fu8, 0x04u8),
        VMInstruction::JumpIfFalse(_) => (0x0Fu8, 0x05u8),
        VMInstruction::Call(_) => (0x0Fu8, 0x06u8),
        VMInstruction::PushImm(_) => (0x06u8, 0x13u8),
    }
}

/// The instruction without operands whose opcode bytes are `a, b`, if there is one.
pub open spec fn no_arg_instruction(a: u8, b: u8) -> Option<VMInstruction> {
    if a == 0x10 && b == 0x01 {
        Some(VMInstruction::AddUnchecked)
    } else if a == 0x10 && b == 0x11 {
        Some(VMInstruction::AddChecked)
    } else if a == 0x10 && b == 0x02 {
        Some(VMInstruction::SubUnchecked)
    } else if a == 0x10 && b == 0x12 {
        Some(VMInstruction::SubChecked)
    } else if a == 0x10 && b == 0x13 {
        Some(VMInstruction::MulChecked)
    } else if a == 0x10 && b == 0x03 {
        Some(VMInstruction::MulUnchecked)
    } else if a == 0x10 && b == 0x14 {
        Some(VMInstruction::DivChecked)
    } else if a == 0x10 && b == 0x05 {
        Some(VMInstruction::NegUnchecked)
    } else if a == 0x10 && b == 0x15 {
        Some(VMInstruction::NegChecked)
    } else if a == 0x03 && b == 0x04 {
        Some(VMInstruction::BitAnd)
    } else if a == 0x03 && b == 0x05 {
        Some(VMInstruction::BitOr)
    } else if a == 0x03 && b == 0x06 {
        Some(VMInstruction::BitXor)
    } else if a == 0x03 && b == 0x07 {
        Some(VMInstruction::BitNot)
    } else if a == 0x04 && b == 0x00 {
        Some(VMInstruction::Eq)
    } else if a == 0x04 && b == 0x01 {
        Some(VMInstruction::Neq)
    } else if a == 0x04 && b == 0x02 {
        Some(VMInstruction::Lt)
    } else if a == 0x04 && b == 0x03 {
        Some(VMInstruction::Gt)
    } else if a == 0x04 && b == 0x04 {
        Some(VMInstruction::GtEq)
    } else if a == 0x04 && b == 0x05 {
        Some(VMInstruction::LtEq)
    } else if a == 0x06 && b == 0x00 {
        Some(VMInstruction::Swap)
    } else if a == 0x06 && b == 0x01 {
        Some(VMInstruction::Pop)
    } else if a == 0x06 && b == 0x02 {
        Some(VMInstruction::Dup)
    } else if a == 0x0F && b == 0x00 {
        Some(VMInstruction::PopJump)
    } else if a == 0x0F && b == 0xFF {
        Some(VMInstruction::Return)
    } else if a == 0x20 && b == 0x00 {
        Some(VMInstruction::ClearErrorFlags)
    } else if a == 0x20 && b == 0x01 {
        Some(VMInstruction::ClearDivisionByZero)
    } else if a == 0x20 && b == 0x02 {
        Some(VMInstruction::ClearOverflow)
    } else if a == 0x20 && b == 0x03 {
        Some(VMInstruction::PushDivisionByZeroFlag)
    } else if a == 0x20 && b == 0x04 {
        Some(VMInstruction::PushOverflowFlag)
    } else if a == 0xFF && b == 0x00 {
        Some(VMInstruction::Exit)
    } else if a == 0xFF && b == 0x01 {
        Some(VMInstruction::DebugStack)
    } else {
        None
    }
}

/// The instruction with a one-byte operand whose second opcode byte is `b` (the first is `0x03`).
pub open spec fn byte_arg_instruction(b: u8, n: u8) -> VMInstruction {
    if b == 0x00 {
        VMInstruction::ShiftL(n)
    } else if b == 0x01 {
        VMInstruction::ShiftR(n)
    } else if b == 0x02 {
        VMInstruction::RotL(n)
    } else {
        VMInstruction::RotR(n)
    }
}

/// Whether `a, b` is the opcode of an instruction with a four-byte operand.
pub open spec fn is_word_arg_opcode(a: u8, b: u8) -> bool {
    (a == 0x06 && (b == 0x14 || b == 0x15)) || (a == 0x0F && 0x01 <= b <= 0x06)
}

/// The instruction with a four-byte operand `x` whose opcode bytes are `a, b`.
pub open spec fn word_arg_instruction(a: u8, b: u8, x: u32) -> VMInstruction {
    if a == 0x06 && b == 0x14 {
        VMInstruction::Pick(x)
    } else if a == 0x06 && b == 0x15 {
        VMInstruction::Move(x)
    } else if a == 0x0F && b == 0x01 {
        VMInstruction::Jump(x)
    } else if a == 0x0F && b == 0x02 {
        VMInstruction::JumpIfNotZero(x)
    } else if a == 0x0F && b == 0x03 {
        VMInstruction::JumpIfZero(x)
    } else if a == 0x0F && b == 0x04 {
        VMInstruction::JumpIfTrue(x)
    } else if a == 0x0F && b == 0x05 {
        VMInstruction::JumpIfFalse(x)
    } else {
        VMInstruction::Call(x)
    }
}

/// The operand bytes that follow the opcode in the encoding of `i`.
pub open spec fn operand_bytes(i: VMInstruction) -> Seq<u8> {
    match i {
        VMInstruction::ShiftL(n) => seq![n],
        VMInstruction::ShiftR(n) => seq![n],
        VMInstruction::RotL(n) => seq![n],
        VMInstruction::RotR(n) => seq![n],
        VMInstruction::PushImm(v) => value_bytes(v),
        VMInstruction::Pick(x) => le_u32(x),
        VMInstruction::Move(x) => le_u32(x),
        VMInstruction::Jump(x) => le_u32(x),
        VMInstruction::JumpIfNotZero(x) => le_u32(x),
        VMInstruction::JumpIfZero(x) => le_u32(x),
        VMInstruction::JumpIfTrue(x) => le_u32(x),
        VMInstruction::JumpIfFalse(x) => le_u32(x),
        VMInstruction::Call(x) => le_u32(x),
        _ => Seq::empty(),
    }
}

/// The binary encoding of an instruction: its four opcode bytes, then its operand.
pub open spec fn instruction_bytes(i: VMInstruction) -> Seq<u8> {
    seq![opcode(i).0, opcode(i).1, 0u8, 0u8] + operand_bytes(i)
}

/// The instruction encoded at the start of `s` and the number of bytes its encoding takes,
/// or why `s` does not start with the encoding of an instruction.
pub open spec fn decode_instruction(s: Seq<u8>) -> Result<(VMInstruction, nat), VMInstructionParseError> {
    if s.len() < 4 {
        Err(VMInstructionParseError::TooShort)
    } else if s[2] != 0 || s[3] != 0 {
        Err(VMInstructionParseError::InvalidOpcode)
    } else {
        let a = s[0];
        let b = s[1];
        match no_arg_instruction(a, b) {
            Some(i) => Ok((i, 4)),
            None => if a == 0x03 && b <= 0x03 {
                if s.len() < 5 {
                    Err(VMInstructionParseError::TooShort)
                } else {
                    Ok((byte_arg_instruction(b, s[4]), 5))
                }
            } else if is_word_arg_opcode(a, b) {
                if s.len() < 8 {
                    Err(VMInstructionParseError::TooShort)
                } else {
                    Ok((word_arg_instruction(a, b, u32_from_le(s[4], s[5], s[6], s[7])), 8))
                }
            } else if a == 0x06 && b == 0x13 {
                if s.len() < 9 {
                    Err(VMInstructionParseError::TooShort)
                } else {
                    match decode_value(s.skip(4)) {
                        Some(v) => Ok((VMInstruction::PushImm(v), 9)),
                        None => Err(VMInstructionParseError::InvalidValue),
                    }
                }
            } else {
                Err(VMInstructionParseError::InvalidOpcode)
            },
        }
    }
}

impl VMInstruction {
    /// The four opcode bytes of this instruction
    fn get_opcode(&self) -> (r: [u8; 4])
        ensures
            r@ == seq![opcode(*self).0, opcode(*self).1, 0u8, 0u8],
    {
        let (a, b): (u8, u8) = match self {
            VMInstruction::AddUnchecked => (0x10, 0x01),
            VMInstruction::AddChecked => (0x10, 0x11),
            VMInstruction::SubUnchecked => (0x10, 0x02),
            VMInstruction::SubChecked => (0x10, 0x12),
            VMInstruction::MulChecked => (0x10, 0x13),
            VMInstruction::MulUnchecked => (0x10, 0x03),
            VMInstruction::DivChecked => (0x10, 0x14),
            VMInstruction::NegUnchecked => (0x10, 0x05),
            VMInstruction::NegChecked => (0x10, 0x15),
            VMInstruction::BitAnd => (0x03, 0x04),
            VMInstruction::BitOr => (0x03, 0x05),
            VMInstruction::BitXor => (0x03, 0x06),
            VMInstruction::BitNot => (0x03, 0x07),
            VMInstruction::Eq => (0x04, 0x00),
            VMInstruction::Neq => (0x04, 0x01),
            VMInstruction::Lt => (0x04, 0x02),
            VMInstruction::Gt => (0x04, 0x03),
            VMInstruction::GtEq => (0x04, 0x04),
            VMInstruction::LtEq => (0x04, 0x05),
            VMInstruction::Swap => (0x06, 0x00),
            VMInstruction::Pop => (0x06, 0x01),
            VMInstruction::Dup => (0x06, 0x02),
            VMInstruction::PopJump => (0x0F, 0x00),
            VMInstruction::Return => (0x0F, 0xFF),
            VMInstruction::ClearErrorFlags => (0x20, 0x00),
            VMInstruction::ClearDivisionByZero => (0x20, 0x01),
            VMInstruction::ClearOverflow => (0x20, 0x02),
            VMInstruction::PushDivisionByZeroFlag => (0x20, 0x03),
            VMInstruction::PushOverflowFlag => (0x20, 0x04),
            VMInstruction::Exit => (0xFF, 0x00),
            VMInstruction::DebugStack => (0xFF, 0x01),
            VMInstruction::ShiftL(_) => (0x03, 0x00),
            VMInstruction::ShiftR(_) => (0x03, 0x01),
            VMInstruction::RotL(_) => (0x03, 0x02),
            VMInstruction::RotR(_) => (0x03, 0x03),
            VMInstruction::Pick(_) => (0x06, 0x14),
            VMInstruction::Move(_) => (0x06, 0x15),
            VMInstruction::Jump(_) => (0x0F, 0x01),
            VMInstruction::JumpIfNotZero(_) => (0x0F, 0x02),
            VMInstruction::JumpIfZero(_) => (0x0F, 0x03),
            VMInstruction::JumpIfTrue(_) => (0x0F, 0x04),
            VMInstruction::JumpIfFalse(_) => (0x0F, 0x05),
            VMInstruction::Call(_) => (0x0F, 0x06),
            VMInstruction::PushImm(_) => (0x06, 0x13),
        };
        let r = [a, b, 0u8, 0u8];
        assert(r@ =~= seq![opcode(*self).0, opcode(*self).1, 0u8, 0u8]);
        r
    }

    fn no_arg_from_opcode(a: u8, b: u8) -> (r: Option<VMInstruction>)
        ensures
            r == no_arg_instruction(a, b),
    {
        if a == 0x10 && b == 0x01 {
            Some(VMInstruction::AddUnchecked)
        } else if a == 0x10 && b == 0x11 {
            Some(VMInstruction::AddChecked)
        } else if a == 0x10 && b == 0x02 {
            Some(VMInstruction::SubUnchecked)
        } else if a == 0x10 && b == 0x12 {
            Some(VMInstruction::SubChecked)
        } else if a == 0x10 && b == 0x13 {
            Some(VMInstruction::MulChecked)
        } else if a == 0x10 && b == 0x03 {
            Some(VMInstruction::MulUnchecked)
        } else if a == 0x10 && b == 0x14 {
            Some(VMInstruction::DivChecked)
        } else if a == 0x10 && b == 0x05 {
            Some(VMInstruction::NegUnchecked)
        } else if a == 0x10 && b == 0x15 {
            Some(VMInstruction::NegChecked)
        } else if a == 0x03 && b == 0x04 {
            Some(VMInstruction::BitAnd)
        } else if a == 0x03 && b == 0x05 {
            Some(VMInstruction::BitOr)
        } else if a == 0x03 && b == 0x06 {
            Some(VMInstruction::BitXor)
        } else if a == 0x03 && b == 0x07 {
            Some(VMInstruction::BitNot)
        } else if a == 0x04 && b == 0x00 {
            Some(VMInstruction::Eq)
        } else if a == 0x04 && b == 0x01 {
            Some(VMInstruction::Neq)
        } else if a == 0x04 && b == 0x02 {
            Some(VMInstruction::Lt)
        } else if a == 0x04 && b == 0x03 {
            Some(VMInstruction::Gt)
        } else if a == 0x04 && b == 0x04 {
            Some(VMInstruction::GtEq)
        } else if a == 0x04 && b == 0x05 {
            Some(VMInstruction::LtEq)
        } else if a == 0x06 && b == 0x00 {
            Some(VMInstruction::Swap)
        } else if a == 0x06 && b == 0x01 {
            Some(VMInstruction::Pop)
        } else if a == 0x06 && b == 0x02 {
            Some(VMInstruction::Dup)
        } else if a == 0x0F && b == 0x00 {
            Some(VMInstruction::PopJump)
        } else if a == 0x0F && b == 0xFF {
            Some(VMInstruction::Return)
        } else if a == 0x20 && b == 0x00 {
            Some(VMInstruction::ClearErrorFlags)
        } else if a == 0x20 && b == 0x01 {
            Some(VMInstruction::ClearDivisionByZero)
        } else if a == 0x20 && b == 0x02 {
            Some(VMInstruction::ClearOverflow)
        } else if a == 0x20 && b == 0x03 {
            Some(VMInstruction::PushDivisionByZeroFlag)
        } else if a == 0x20 && b == 0x04 {
            Some(VMInstruction::PushOverflowFlag)
        } else if a == 0xFF && b == 0x00 {
            Some(VMInstruction::Exit)
        } else if a == 0xFF && b == 0x01 {
            Some(VMInstruction::DebugStack)
        } else {
            None
        }
    }

    fn word_arg_from_opcode(a: u8, b: u8, x: u32) -> (r: VMInstruction)
        ensures
            r == word_arg_instruction(a, b, x),
    {
        if a == 0x06 && b == 0x14 {
            VMInstruction::Pick(x)
        } else if a == 0x06 && b == 0x15 {
            VMInstruction::Move(x)
        } else if a == 0x0F && b == 0x01 {
            VMInstruction::Jump(x)
        } else if a == 0x0F && b == 0x02 {
            VMInstruction::JumpIfNotZero(x)
        } else if a == 0x0F && b == 0x03 {
            VMInstruction::JumpIfZero(x)
        } else if a == 0x0F && b == 0x04 {
            VMInstruction::JumpIfTrue(x)
        } else if a == 0x0F && b == 0x05 {
            VMInstruction::JumpIfFalse(x)
        } else {
            VMInstruction::Call(x)
        }
    }

    /// The binary encoding of this instruction: four opcode bytes followed by its operand, if any
    pub fn as_bytes(&self) -> (r: Vec<u8>)
        ensures
            r@ == instruction_bytes(*self),
    {
        let op: [u8; 4] = self.get_opcode();
        let mut v: Vec<u8> = Vec::with_capacity(9);
        v.push(op[0]);
        v.push(op[1]);
        v.push(op[2]);
        v.push(op[3]);
        let ghost head = v@;
        assert(head =~= seq![opcode(*self).0, opcode(*self).1, 0u8, 0u8]);
        match *self {
            VMInstruction::ShiftL(n) => v.push(n),
            VMInstruction::ShiftR(n) => v.push(n),
            VMInstruction::RotL(n) => v.push(n),
            VMInstruction::RotR(n) => v.push(n),
            VMInstruction::PushImm(value) => {
                let mut b = value.as_bytes();
                v.append(&mut b);
            },
            VMInstruction::Pick(x) => Self::push_word(&mut v, x),
            VMInstruction::Move(x) => Self::push_word(&mut v, x),
            VMInstruction::Jump(x) => Self::push_word(&mut v, x),
            VMInstruction::JumpIfNotZero(x) => Self::push_word(&mut v, x),
            VMInstruction::JumpIfZero(x) => Self::push_word(&mut v, x),
            VMInstruction::JumpIfTrue(x) => Self::push_word(&mut v, x),
            VMInstruction::JumpIfFalse(x) => Self::push_word(&mut v, x),
            VMInstruction::Call(x) => Self::push_word(&mut v, x),
            _ => {},
        }
        assert(v@ =~= instruction_bytes(*self));
        v
    }

    fn push_word(v: &mut Vec<u8>, x: u32)
        ensures
            final(v)@ == old(v)@ + le_u32(x),
    {
        let b = u32_to_le(x);
        v.push(b[0]);
        v.push(b[1]);
        v.push(b[2]);
        v.push(b[3]);
        assert(v@ =~= old(v)@ + le_u32(x));
    }

    /// Tries to construct an instruction from a byte slice, if successful returns the
    /// instruction and the number of bytes that instruction took
    pub fn try_from_bytes(bytes: &[u8]) -> (r: Result<(Self, u8), VMInstructionParseError>)
        ensures
            r matches Ok((i, n)) ==> decode_instruction(bytes@) == Ok::<(VMInstruction, nat), VMInstructionParseError>((i, n as nat)),
            r matches Err(e) ==> decode_instruction(bytes@) == Err::<(VMInstruction, nat), VMInstructionParseError>(e),
    {
        assert(bytes@.skip(0) =~= bytes@);
        Self::try_from_bytes_at(bytes, 0)
    }

    /// Same as `try_from_bytes`, reading from `bytes[start..]`
    pub fn try_from_bytes_at(bytes: &[u8], start: usize) -> (r: Result<(Self, u8), VMInstructionParseError>)
        requires
            start <= bytes@.len(),
        ensures
            r matches Ok((i, n)) ==> decode_instruction(bytes@.skip(start as int)) == Ok::<(VMInstruction, nat), VMInstructionParseError>((i, n as nat)),
            r matches Err(e) ==> decode_instruction(bytes@.skip(start as int)) == Err::<(VMInstruction, nat), VMInstructionParseError>(e),
    {
        let ghost s = bytes@.skip(start as int);
        let avail = bytes.len() - start;
        if avail < 4 {
            return Err(VMInstructionParseError::TooShort);
        }
        if bytes[start + 2] != 0 || bytes[start + 3] != 0 {
            return Err(VMInstructionParseError::InvalidOpcode);
        }
        let a = bytes[start];
        let b = bytes[start + 1];
        match Self::no_arg_from_opcode(a, b) {
            Some(i) => Ok((i, 4)),
            None => {
                if a == 0x03 && b <= 0x03 {
                    if avail < 5 {
                        Err(VMInstructionParseError::TooShort)
                    } else {
                        let n = bytes[start + 4];
                        let i = if b == 0x00 {
                            VMInstruction::ShiftL(n)
                        } else if b == 0x01 {
                            VMInstruction::ShiftR(n)
                        } else if b == 0x02 {
                            VMInstruction::RotL(n)
                        } else {
                            VMInstruction::RotR(n)
                        };
                        Ok((i, 5))
                    }
                } else if (a == 0x06 && (b == 0x14 || b == 0x15)) || (a == 0x0F && 0x01 <= b
                    && b <= 0x06) {
                    if avail < 8 {
                        Err(VMInstructionParseError::TooShort)
                    } else {
                        let x = read_u32_le(bytes, start + 4);
                        Ok((Self::word_arg_from_opcode(a, b, x), 8))
                    }
                } else if a == 0x06 && b == 0x13 {
                    if avail < 9 {
                        Err(VMInstructionParseError::TooShort)
                    } else {
                        assert(s.skip(4) =~= bytes@.skip(start + 4));
                        match Value::read_at(bytes, start + 4) {
                            Some(v) => Ok((VMInstruction::PushImm(v), 9)),
                            None => Err(VMInstructionParseError::InvalidValue),
                        }
                    }
                } else {
                    Err(VMInstructionParseError::InvalidOpcode)
                }
            },
        }
    }
}


/// Law: decoding the encoding of an instruction, whatever bytes follow it, gives the
/// instruction back together with the length of its encoding.
pub proof fn lemma_instruction_roundtrip(i: VMInstruction, rest: Seq<u8>)
    ensures
        decode_instruction(instruction_bytes(i) + rest) == Ok::<(VMInstruction, nat), VMInstructionParseError>((i, instruction_bytes(i).len())),
{
    let s = instruction_bytes(i) + rest;
    assert(s[0] == opcode(i).0 && s[1] == opcode(i).1 && s[2] == 0 && s[3] == 0);
    match i {
        VMInstruction::PushImm(v) => {
            assert(s.skip(4) =~= value_bytes(v) + rest);
            lemma_value_roundtrip(v, rest);
        },
        VMInstruction::Pick(x) => { lemma_u32_le_roundtrip(x); },
        VMInstruction::Move(x) => { lemma_u32_le_roundtrip(x); },
        VMInstruction::Jump(x) => { lemma_u32_le_roundtrip(x); },
        VMInstruction::JumpIfNotZero(x) => { lemma_u32_le_roundtrip(x); },
        VMInstruction::JumpIfZero(x) => { lemma_u32_le_roundtrip(x); },
        VMInstruction::JumpIfTrue(x) => { lemma_u32_le_roundtrip(x); },
        VMInstruction::JumpIfFalse(x) => { lemma_u32_le_roundtrip(x); },
        VMInstruction::Call(x) => { lemma_u32_le_roundtrip(x); },
        _ => {},
    }
}

/// Law: an instruction is decoded only from its own encoding, so the encoding is canonical.
pub proof fn lemma_instruction_canonical(s: Seq<u8>)
    requires
        decode_instruction(s) is Ok,
    ensures
        ({
            let (i, n) = decode_instruction(s)->Ok_0;
            n == instruction_bytes(i).len() && n <= s.len() && s.take(n as int) == instruction_bytes(i)
        }),
{
    let (i, n) = decode_instruction(s)->Ok_0;
    let a = s[0];
    let b = s[1];
    if no_arg_instruction(a, b) is Some {
        assert(opcode(i) == (a, b));
        assert(s.take(4) =~= instruction_bytes(i));
    } else if a == 0x03 && b <= 0x03 {
        assert(s.take(5) =~= instruction_bytes(i));
    } else if is_word_arg_opcode(a, b) {
        lemma_u32_from_le_canonical(s[4], s[5], s[6], s[7]);
        assert(s.take(8) =~= instruction_bytes(i));
    } else {
        lemma_value_canonical(s.skip(4));
        assert(s.skip(4).take(5) =~= s.subrange(4, 9));
        assert(s.take(9) =~= instruction_bytes(i));
    }
}

/// The instruction with the same variant as `i` and every operand zero.
pub open spec fn without_operand(i: VMInstruction) -> VMInstruction {
    match i {
        VMInstruction::ShiftL(_) => VMInstruction::ShiftL(0),
        VMInstruction::ShiftR(_) => VMInstruction::ShiftR(0),
        VMInstruction::RotL(_) => VMInstruction::RotL(0),
        VMInstruction::RotR(_) => VMInstruction::RotR(0),
        VMInstruction::PushImm(_) => VMInstruction::PushImm(Value::Int(0)),
        VMInstruction::Pick(_) => VMInstruction::Pick(0),
        VMInstruction::Move(_) => VMInstruction::Move(0),
        VMInstruction::Jump(_) => VMInstruction::Jump(0),
        VMInstruction::JumpIfNotZero(_) => VMInstruction::JumpIfNotZero(0),
        VMInstruction::JumpIfZero(_) => VMInstruction::JumpIfZero(0),
        VMInstruction::JumpIfTrue(_) => VMInstruction::JumpIfTrue(0),
        VMInstruction::JumpIfFalse(_) => VMInstruction::JumpIfFalse(0),
        VMInstruction::Call(_) => VMInstruction::Call(0),
        other => other,
    }
}

/// The opcode bytes of `i` followed by five zero bytes.
spec fn opcode_probe(i: VMInstruction) -> Seq<u8> {
    seq![opcode(i).0, opcode(i).1, 0u8, 0u8, 0u8, 0u8, 0u8, 0u8, 0u8]
}

proof fn lemma_opcode_probe(a: VMInstruction)
    ensures
        decode_instruction(opcode_probe(a)) matches Ok((i, _)) && i == without_operand(a),
{
    let w = without_operand(a);
    assert(opcode(w) == opcode(a));
    assert((0u32 & 0xff) as u8 == 0u8 && ((0u32 >> 8u32) & 0xff) as u8 == 0u8 && ((0u32
        >> 16u32) & 0xff) as u8 == 0u8 && ((0u32 >> 24u32) & 0xff) as u8 == 0u8) by (bit_vector);
    assert(le_u32(0u32) =~= seq![0u8, 0u8, 0u8, 0u8]);
    assert(value_bytes(Value::Int(0)) =~= seq![0u8, 0u8, 0u8, 0u8, 0u8]);
    let b = instruction_bytes(w);
    assert(b.len() <= 9);
    assert(forall|k: int| 4 <= k < b.len() ==> b[k] == 0u8);
    let rest = Seq::new((9 - b.len()) as nat, |k: int| 0u8);
    assert(b + rest =~= opcode_probe(a));
    lemma_instruction_roundtrip(w, rest);
}

/// Law: the opcode names the variant. Two instructions have the same opcode exactly when they
/// are the same variant, whatever their operands; the two bytes after the opcode in every
/// encoding are zero (see `instruction_bytes`).
pub proof fn lemma_opcode_identifies_variant(a: VMInstruction, b: VMInstruction)
    ensures
        opcode(a) == opcode(b) <==> without_operand(a) == without_operand(b),
{
    lemma_opcode_probe(a);
    lemma_opcode_probe(b);
    assert(opcode(without_operand(a)) == opcode(a));
    assert(opcode(without_operand(b)) == opcode(b));
    if opcode(a) == opcode(b) {
        assert(opcode_probe(a) == opcode_probe(b));
    }
}

/// Law: the opcode table. Each instruction is encoded as its two opcode bytes, two zero bytes,
/// then its operand: a byte for shifts and rotations, a value for `PushImm`, and a
/// little-endian 32-bit word for `pick`, `move`, jumps and `call`.
pub proof fn lemma_opcode_table(n: u8, x: u32, v: Value)
    ensures
        instruction_bytes(VMInstruction::AddUnchecked) == seq![0x10u8, 0x01u8, 0u8, 0u8],
        instruction_bytes(VMInstruction::AddChecked) == seq![0x10u8, 0x11u8, 0u8, 0u8],
        instruction_bytes(VMInstruction::SubUnchecked) == seq![0x10u8, 0x02u8, 0u8, 0u8],
        instruction_bytes(VMInstruction::SubChecked) == seq![0x10u8, 0x12u8, 0u8, 0u8],
        instruction_bytes(VMInstruction::MulChecked) == seq![0x10u8, 0x13u8, 0u8, 0u8],
        instruction_bytes(VMInstruction::MulUnchecked) == seq![0x10u8, 0x03u8, 0u8, 0u8],
        instruction_bytes(VMInstruction::DivChecked) == seq![0x10u8, 0x14u8, 0u8, 0u8],
        instruction_bytes(VMInstruction::NegUnchecked) == seq![0x10u8, 0x05u8, 0u8, 0u8],
        instruction_bytes(VMInstruction::NegChecked) == seq![0x10u8, 0x15u8, 0u8, 0u8],
        instruction_bytes(VMInstruction::BitAnd) == seq![0x03u8, 0x04u8, 0u8, 0u8],
        instruction_bytes(VMInstruction::BitOr) == seq![0x03u8, 0x05u8, 0u8, 0u8],
        instruction_bytes(VMInstruction::BitXor) == seq![0x03u8, 0x06u8, 0u8, 0u8],
        instruction_bytes(VMInstruction::BitNot) == seq![0x03u8, 0x07u8, 0u8, 0u8],
        instruction_bytes(VMInstruction::Eq) == seq![0x04u8, 0x00u8, 0u8, 0u8],
        instruction_bytes(VMInstruction::Neq) == seq![0x04u8, 0x01u8, 0u8, 0u8],
        instruction_bytes(VMInstruction::Lt) == seq![0x04u8, 0x02u8, 0u8, 0u8],
        instruction_bytes(VMInstruction::Gt) == seq![0x04u8, 0x03u8, 0u8, 0u8],
        instruction_bytes(VMInstruction::GtEq) == seq![0x04u8, 0x04u8, 0u8, 0u8],
        instruction_bytes(VMInstruction::LtEq) == seq![0x04u8, 0x05u8, 0u8, 0u8],
        instruction_bytes(VMInstruction::Swap) == seq![0x06u8, 0x00u8, 0u8, 0u8],
        instruction_bytes(VMInstruction::Pop) == seq![0x06u8, 0x01u8, 0u8, 0u8],
        instruction_bytes(VMInstruction::Dup) == seq![0x06u8, 0x02u8, 0u8, 0u8],
        instruction_bytes(VMInstruction::PopJump) == seq![0x0Fu8, 0x00u8, 0u8, 0u8],
        instruction_bytes(VMInstruction::Return) == seq![0x0Fu8, 0xFFu8, 0u8, 0u8],
        instruction_bytes(VMInstruction::ClearErrorFlags) == seq![0x20u8, 0x00u8, 0u8, 0u8],
        instruction_bytes(VMInstruction::ClearDivisionByZero) == seq![0x20u8, 0x01u8, 0u8, 0u8],
        instruction_bytes(VMInstruction::ClearOverflow) == seq![0x20u8, 0x02u8, 0u8, 0u8],
        instruction_bytes(VMInstruction::PushDivisionByZeroFlag) == seq![0x20u8, 0x03u8, 0u8, 0u8],
        instruction_bytes(VMInstruction::PushOverflowFlag) == seq![0x20u8, 0x04u8, 0u8, 0u8],
        instruction_bytes(VMInstruction::Exit) == seq![0xFFu8, 0x00u8, 0u8, 0u8],
        instruction_bytes(VMInstruction::DebugStack) == seq![0xFFu8, 0x01u8, 0u8, 0u8],
        instruction_bytes(VMInstruction::ShiftL(n)) == seq![0x03u8, 0x00u8, 0u8, 0u8, n],
        instruction_bytes(VMInstruction::ShiftR(n)) == seq![0x03u8, 0x01u8, 0u8, 0u8, n],
        instruction_bytes(VMInstruction::RotL(n)) == seq![0x03u8, 0x02u8, 0u8, 0u8, n],
        instruction_bytes(VMInstruction::RotR(n)) == seq![0x03u8, 0x03u8, 0u8, 0u8, n],
        instruction_bytes(VMInstruction::Pick(x)) == seq![0x06u8, 0x14u8, 0u8, 0u8] + le_u32(x),
        instruction_bytes(VMInstruction::Move(x)) == seq![0x06u8, 0x15u8, 0u8, 0u8] + le_u32(x),
        instruction_bytes(VMInstruction::Jump(x)) == seq![0x0Fu8, 0x01u8, 0u8, 0u8] + le_u32(x),
        instruction_bytes(VMInstruction::JumpIfNotZero(x)) == seq![0x0Fu8, 0x02u8, 0u8, 0u8] + le_u32(x),
        instruction_bytes(VMInstruction::JumpIfZero(x)) == seq![0x0Fu8, 0x03u8, 0u8, 0u8] + le_u32(x),
        instruction_bytes(VMInstruction::JumpIfTrue(x)) == seq![0x0Fu8, 0x04u8, 0u8, 0u8] + le_u32(x),
        instruction_bytes(VMInstruction::JumpIfFalse(x)) == seq![0x0Fu8, 0x05u8, 0u8, 0u8] + le_u32(x),
        instruction_bytes(VMInstruction::Call(x)) == seq![0x0Fu8, 0x06u8, 0u8, 0u8] + le_u32(x),
        instruction_bytes(VMInstruction::PushImm(v)) == seq![0x06u8, 0x13u8, 0u8, 0u8] + value_bytes(v),
{
}

/// Law: the value encoding. An integer is the tag byte 0 and its 32 bits little-endian; a
/// boolean is the tag byte 1, then 1 or 0, then three zero bytes.
pub proof fn lemma_value_encoding_table(n: i32, b: bool)
    ensures
        value_bytes(Value::Int(n)) == seq![0u8] + le_u32(n as u32),
        value_bytes(Value::Bool(b)) == seq![1u8, if b { 1u8 } else { 0u8 }, 0u8, 0u8, 0u8],
{
}

} // verus!
