//! The meaning of each instruction, as a function from machine state to machine state.
use crate::code::VMInstruction;
use crate::vm::{VMError, Value};
use vstd::prelude::*;

verus! {

/// The error flags of a machine state.
pub struct FlagsState {
    pub overflow: bool,
    pub division_by_zero: bool,
}

/// The whole state of a VM.
pub struct VmState {
    /// The operand stack; its last element is the top.
    pub stack: Seq<Value>,
    /// The loaded program.
    pub program: Seq<VMInstruction>,
    /// The index of the next instruction.
    pub pc: usize,
    /// The sticky error flags.
    pub flags: FlagsState,
    /// The return addresses pushed by `call`; the last one is the innermost.
    pub returns: Seq<usize>,
    /// Each `dbg_stack` executed so far: the program counter and the stack at that moment.
    pub debug_log: Seq<(usize, Seq<Value>)>,
}

/// What one step yields: `Ok(None)` to go on, `Ok(Some(v))` when the program exits with `v`,
/// `Err(e)` when the instruction failed.
pub type StepResult = Result<Option<Value>, VMError>;

impl VmState {
    pub open spec fn with_stack(self, stack: Seq<Value>) -> VmState {
        VmState { stack, ..self }
    }

    pub open spec fn with_pc(self, pc: usize) -> VmState {
        VmState { pc, ..self }
    }

    pub open spec fn with_flags(self, overflow: bool, division_by_zero: bool) -> VmState {
        VmState { flags: FlagsState { overflow, division_by_zero }, ..self }
    }

    /// Moves on to the next instruction.
    pub open spec fn next(self) -> VmState {
        self.with_pc((self.pc + 1) as usize)
    }

    /// Leaves the given stack and continues with the next instruction.
    pub open spec fn continue_with(self, stack: Seq<Value>) -> (VmState, StepResult) {
        (self.with_stack(stack).next(), Ok(None))
    }

    /// Fails with `e`, the stack having become `stack` by the pops made before the failure.
    pub open spec fn fail_with(self, stack: Seq<Value>, e: VMError) -> (VmState, StepResult) {
        (self.with_stack(stack), Err(e))
    }
}

/// Pops any value.
pub open spec fn pop_value(st: Seq<Value>) -> (Seq<Value>, Result<Value, VMError>) {
    if st.len() == 0 {
        (st, Err(VMError::StackExhausted))
    } else {
        (st.drop_last(), Ok(st.last()))
    }
}

/// Pops an integer; the popped value is gone even when it is not an integer.
pub open spec fn pop_int(st: Seq<Value>) -> (Seq<Value>, Result<i32, VMError>) {
    if st.len() == 0 {
        (st, Err(VMError::StackExhausted))
    } else {
        (
            st.drop_last(),
            match st.last() {
                Value::Int(n) => Ok(n),
                Value::Bool(_) => Err(VMError::ExpectedInt),
            },
        )
    }
}

/// Pops a boolean; the popped value is gone even when it is not a boolean.
pub open spec fn pop_bool(st: Seq<Value>) -> (Seq<Value>, Result<bool, VMError>) {
    if st.len() == 0 {
        (st, Err(VMError::StackExhausted))
    } else {
        (
            st.drop_last(),
            match st.last() {
                Value::Bool(b) => Ok(b),
                Value::Int(_) => Err(VMError::ExpectedBool),
            },
        )
    }
}

pub open spec fn out_of_i32(x: int) -> bool {
    x < i32::MIN || x > i32::MAX
}

/// Rotates the 32 bits of `a` left by `k` (taken modulo 32).
pub open spec fn rotate_left_32(a: i32, k: u32) -> i32 {
    let r = k % 32;
    let u = a as u32;
    if r == 0 {
        a
    } else {
        ((u << r) | (u >> ((32 - r) as u32))) as i32
    }
}

/// Rotates the 32 bits of `a` right by `k` (taken modulo 32).
pub open spec fn rotate_right_32(a: i32, k: u32) -> i32 {
    let r = k % 32;
    let u = a as u32;
    if r == 0 {
        a
    } else {
        ((u >> r) | (u << ((32 - r) as u32))) as i32
    }
}

/// The arithmetic instructions that pop two integers.
pub open spec fn is_int_binop(i: VMInstruction) -> bool {
    matches!(i, VMInstruction::AddUnchecked | VMInstruction::AddChecked | VMInstruction::SubUnchecked
        | VMInstruction::SubChecked | VMInstruction::MulUnchecked | VMInstruction::MulChecked
        | VMInstruction::DivChecked)
}

/// For an arithmetic instruction with top operand `a` and second operand `b`: the result,
/// whether the overflow flag is raised, and whether the division-by-zero flag is raised.
pub open spec fn int_binop(i: VMInstruction, a: i32, b: i32) -> (Result<i32, VMError>, bool, bool) {
    match i {
        VMInstruction::AddUnchecked => (Ok(a.wrapping_add(b)), out_of_i32(a + b), false),
        VMInstruction::AddChecked => if out_of_i32(a + b) {
            (Err(VMError::Overflow), true, false)
        } else {
            (Ok((a + b) as i32), false, false)
        },
        VMInstruction::SubUnchecked => (Ok(a.wrapping_sub(b)), out_of_i32(a - b), false),
        VMInstruction::SubChecked => if out_of_i32(a - b) {
            (Err(VMError::Overflow), true, false)
        } else {
            (Ok((a - b) as i32), false, false)
        },
        VMInstruction::MulUnchecked => (Ok(a.wrapping_mul(b)), out_of_i32(a * b), false),
        VMInstruction::MulChecked => if out_of_i32(a * b) {
            (Err(VMError::Overflow), true, false)
        } else {
            (Ok((a * b) as i32), false, false)
        },
        _ => {
            // DivChecked: `a / b`, truncating
            if b == 0 {
                (Err(VMError::DivisionByZero), false, true)
            } else {
                match a.checked_div(b) {
                    Some(q) => (Ok(q), false, false),
                    None => (Err(VMError::Overflow), true, false),
                }
            }
        },
    }
}

/// The instructions that pop one integer and push one.
pub open spec fn is_int_unop(i: VMInstruction) -> bool {
    matches!(i, VMInstruction::NegUnchecked | VMInstruction::NegChecked | VMInstruction::ShiftL(_)
        | VMInstruction::ShiftR(_) | VMInstruction::RotL(_) | VMInstruction::RotR(_))
}

/// For an instruction that pops one integer `a`: the result and whether the overflow flag is raised.
pub open spec fn int_unop(i: VMInstruction, a: i32) -> (Result<i32, VMError>, bool) {
    match i {
        VMInstruction::NegUnchecked => (Ok((0i32).wrapping_sub(a)), a == i32::MIN),
        VMInstruction::NegChecked => if a == i32::MIN {
            (Err(VMError::Overflow), true)
        } else {
            (Ok((-a) as i32), false)
        },
        VMInstruction::ShiftL(n) => if n < 32 {
            (Ok(a.wrapping_shl(n as u32)), false)
        } else {
            (Err(VMError::InvalidShiftAmount), false)
        },
        VMInstruction::ShiftR(n) => if n < 32 {
            (Ok(a.wrapping_shr(n as u32)), false)
        } else {
            (Err(VMError::InvalidShiftAmount), false)
        },
        VMInstruction::RotL(n) => (Ok(rotate_left_32(a, n as u32)), false),
        VMInstruction::RotR(n) => (Ok(rotate_right_32(a, n as u32)), false),
        _ => (Ok(a), false),
    }
}

/// The bitwise instructions that pop two values of one type.
pub open spec fn is_bit_binop(i: VMInstruction) -> bool {
    matches!(i, VMInstruction::BitAnd | VMInstruction::BitOr | VMInstruction::BitXor)
}

/// For a bitwise instruction with top operand `a` and second operand `b`: ints are combined
/// bitwise, bools logically, and mixed operands are an error.
pub open spec fn bit_binop(i: VMInstruction, a: Value, b: Value) -> Result<Value, VMError> {
    match (a, b) {
        (Value::Int(x), Value::Int(y)) => Ok(
            Value::Int(
                match i {
                    VMInstruction::BitAnd => x & y,
                    VMInstruction::BitOr => x | y,
                    _ => x ^ y,
                },
            ),
        ),
        (Value::Bool(x), Value::Bool(y)) => Ok(
            Value::Bool(
                match i {
                    VMInstruction::BitAnd => x && y,
                    VMInstruction::BitOr => x || y,
                    _ => x != y,
                },
            ),
        ),
        _ => Err(VMError::MismatchedOperands),
    }
}

/// The comparison instructions.
pub open spec fn is_comparison(i: VMInstruction) -> bool {
    matches!(i, VMInstruction::Eq | VMInstruction::Neq | VMInstruction::Lt | VMInstruction::Gt
        | VMInstruction::GtEq | VMInstruction::LtEq)
}

/// For a comparison with top operand `a` and second operand `b`: equality compares value and
/// type; the ordered comparisons need two ints and test `a` against `b`.
pub open spec fn comparison(i: VMInstruction, a: Value, b: Value) -> Result<bool, VMError> {
    match i {
        VMInstruction::Eq => Ok(a == b),
        VMInstruction::Neq => Ok(a != b),
        _ => match (a, b) {
            (Value::Int(x), Value::Int(y)) => Ok(
                match i {
                    VMInstruction::Lt => x < y,
                    VMInstruction::Gt => x > y,
                    VMInstruction::GtEq => x >= y,
                    _ => x <= y,
                },
            ),
            _ => Err(VMError::MismatchedOperands),
        },
    }
}

/// One step of an arithmetic instruction that pops two integers.
pub open spec fn int_binop_step(s: VmState, i: VMInstruction) -> (VmState, StepResult) {
    let (st1, ra) = pop_int(s.stack);
    match ra {
        Err(e) => s.fail_with(st1, e),
        Ok(a) => {
            let (st2, rb) = pop_int(st1);
            match rb {
                Err(e) => s.fail_with(st2, e),
                Ok(b) => {
                    let (r, ov, dz) = int_binop(i, a, b);
                    let s2 = s.with_flags(s.flags.overflow || ov, s.flags.division_by_zero || dz);
                    match r {
                        Ok(v) => s2.continue_with(st2.push(Value::Int(v))),
                        Err(e) => s2.fail_with(st2, e),
                    }
                },
            }
        },
    }
}

/// One step of an instruction that pops one integer and pushes one.
pub open spec fn int_unop_step(s: VmState, i: VMInstruction) -> (VmState, StepResult) {
    let (st1, ra) = pop_int(s.stack);
    match ra {
        Err(e) => s.fail_with(st1, e),
        Ok(a) => {
            let (r, ov) = int_unop(i, a);
            let s2 = s.with_flags(s.flags.overflow || ov, s.flags.division_by_zero);
            match r {
                Ok(v) => s2.continue_with(st1.push(Value::Int(v))),
                Err(e) => s2.fail_with(st1, e),
            }
        },
    }
}

/// One step of an instruction that pops two values and pushes one computed from them.
pub open spec fn pair_step(s: VmState, i: VMInstruction) -> (VmState, StepResult) {
    let (st1, ra) = pop_value(s.stack);
    match ra {
        Err(e) => s.fail_with(st1, e),
        Ok(a) => {
            let (st2, rb) = pop_value(st1);
            match rb {
                Err(e) => s.fail_with(st2, e),
                Ok(b) => {
                    let r = if is_bit_binop(i) {
                        bit_binop(i, a, b)
                    } else {
                        match comparison(i, a, b) {
                            Ok(c) => Ok(Value::Bool(c)),
                            Err(e) => Err(e),
                        }
                    };
                    match r {
                        Ok(v) => s.continue_with(st2.push(v)),
                        Err(e) => s.fail_with(st2, e),
                    }
                },
            }
        },
    }
}

/// Jumps to `target` when `cond` holds, else moves on.
pub open spec fn branch(s: VmState, stack: Seq<Value>, cond: bool, target: u32) -> (VmState, StepResult) {
    if cond {
        (s.with_stack(stack).with_pc(target as usize), Ok(None))
    } else {
        s.continue_with(stack)
    }
}

/// One step that executes instruction `i` in state `s`.
pub open spec fn step_instruction(s: VmState, i: VMInstruction) -> (VmState, StepResult) {
    if is_int_binop(i) {
        int_binop_step(s, i)
    } else if is_int_unop(i) {
        int_unop_step(s, i)
    } else if is_bit_binop(i) || is_comparison(i) {
        pair_step(s, i)
    } else {
        match i {
            VMInstruction::BitNot => {
                let (st1, ra) = pop_value(s.stack);
                match ra {
                    Err(e) => s.fail_with(st1, e),
                    Ok(Value::Int(x)) => s.continue_with(st1.push(Value::Int(!x))),
                    Ok(Value::Bool(x)) => s.continue_with(st1.push(Value::Bool(!x))),
                }
            },
            VMInstruction::Swap => {
                let (st1, ra) = pop_value(s.stack);
                match ra {
                    Err(e) => s.fail_with(st1, e),
                    Ok(a) => {
                        let (st2, rb) = pop_value(st1);
                        match rb {
                            Err(e) => s.fail_with(st2, e),
                            Ok(b) => s.continue_with(st2.push(a).push(b)),
                        }
                    },
                }
            },
            VMInstruction::Pop => {
                let (st1, ra) = pop_value(s.stack);
                match ra {
                    Err(e) => s.fail_with(st1, e),
                    Ok(_) => s.continue_with(st1),
                }
            },
            VMInstruction::Dup => {
                let (st1, ra) = pop_value(s.stack);
                match ra {
                    Err(e) => s.fail_with(st1, e),
                    Ok(a) => s.continue_with(st1.push(a).push(a)),
                }
            },
            VMInstruction::PushImm(v) => s.continue_with(s.stack.push(v)),
            VMInstruction::Pick(n) => {
                if n < s.stack.len() {
                    s.continue_with(s.stack.push(s.stack[s.stack.len() - 1 - n]))
                } else {
                    s.fail_with(s.stack, VMError::StackExhausted)
                }
            },
            VMInstruction::Move(n) => {
                if n < s.stack.len() {
                    let k = s.stack.len() - 1 - n;
                    s.continue_with(s.stack.remove(k).push(s.stack[k]))
                } else {
                    s.fail_with(s.stack, VMError::StackExhausted)
                }
            },
            VMInstruction::PopJump => {
                let (st1, ra) = pop_int(s.stack);
                match ra {
                    Err(e) => s.fail_with(st1, e),
                    Ok(a) => (s.with_stack(st1).with_pc(a as usize), Ok(None)),
                }
            },
            VMInstruction::Jump(x) => (s.with_pc(x as usize), Ok(None)),
            VMInstruction::JumpIfNotZero(x) => {
                let (st1, ra) = pop_int(s.stack);
                match ra {
                    Err(e) => s.fail_with(st1, e),
                    Ok(a) => branch(s, st1, a != 0, x),
                }
            },
            VMInstruction::JumpIfZero(x) => {
                let (st1, ra) = pop_int(s.stack);
                match ra {
                    Err(e) => s.fail_with(st1, e),
                    Ok(a) => branch(s, st1, a == 0, x),
                }
            },
            VMInstruction::JumpIfTrue(x) => {
                let (st1, ra) = pop_bool(s.stack);
                match ra {
                    Err(e) => s.fail_with(st1, e),
                    Ok(a) => branch(s, st1, a, x),
                }
            },
            VMInstruction::JumpIfFalse(x) => {
                let (st1, ra) = pop_bool(s.stack);
                match ra {
                    Err(e) => s.fail_with(st1, e),
                    Ok(a) => branch(s, st1, !a, x),
                }
            },
            VMInstruction::Call(x) => (
                VmState { returns: s.returns.push((s.pc + 1) as usize), pc: x as usize, ..s },
                Ok(None),
            ),
            VMInstruction::Return => {
                if s.returns.len() == 0 {
                    (s, Err(VMError::StackExhausted))
                } else {
                    (
                        VmState { returns: s.returns.drop_last(), pc: s.returns.last(), ..s },
                        Ok(None),
                    )
                }
            },
            VMInstruction::DebugStack => (
                VmState { debug_log: s.debug_log.push((s.pc, s.stack)), ..s }.next(),
                Ok(None),
            ),
            VMInstruction::Exit => {
                let (st1, ra) = pop_value(s.stack);
                match ra {
                    Err(e) => s.fail_with(st1, e),
                    Ok(a) => (s.with_stack(st1), Ok(Some(a))),
                }
            },
            VMInstruction::ClearErrorFlags => (s.with_flags(false, false).next(), Ok(None)),
            VMInstruction::ClearDivisionByZero => (
                s.with_flags(s.flags.overflow, false).next(),
                Ok(None),
            ),
            VMInstruction::ClearOverflow => (
                s.with_flags(false, s.flags.division_by_zero).next(),
                Ok(None),
            ),
            VMInstruction::PushDivisionByZeroFlag => s.continue_with(
                s.stack.push(Value::Bool(s.flags.division_by_zero)),
            ),
            _ => s.continue_with(s.stack.push(Value::Bool(s.flags.overflow))),
        }
    }
}

/// One step of the machine: executes the instruction at the program counter, or fails when
/// the program counter is outside the program.
pub open spec fn step(s: VmState) -> (VmState, StepResult) {
    if s.pc < s.program.len() {
        step_instruction(s, s.program[s.pc as int])
    } else {
        (s, Err(VMError::InvalidPCAddress))
    }
}

} // verus!
