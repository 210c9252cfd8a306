//! The virtual machine: its state, one step of execution, and running to completion.
use crate::code::VMInstruction;
use vstd::prelude::*;

pub mod laws;
pub mod trace_laws;
pub mod semantics;
pub mod value;

use semantics::{
    int_binop_step, int_unop_step, is_bit_binop, is_comparison, is_int_binop, is_int_unop,
    pair_step, pop_bool, pop_int, pop_value, rotate_left_32, rotate_right_32, step, step_instruction,
    FlagsState,
    StepResult, VmState,
};
pub use value::Value;

verus! {

/// Why an instruction could not be executed.
#[derive(Debug, Clone, Copy, PartialEq, Eq, Structural)]
pub enum VMError {
    /// Invalid instruction pointer address
    InvalidPCAddress,
    /// Stack exhausted
    StackExhausted,
    /// Division by zero
    DivisionByZero,
    /// Overflow
    Overflow,
    /// Expected stack value to be an integer
    ExpectedInt,
    /// Invalid shift amount
    InvalidShiftAmount,
    /// Expected stack value to be a boolean
    ExpectedBool,
    /// Mismatched operands
    MismatchedOperands,
    /// `run` gave up: the program did not exit within `u64::MAX` steps
    StepLimitExceeded,
}

/// The VM's sticky error flags.
#[derive(Debug)]
pub struct ErrorFlags {
    division_by_zero: bool,
    overflow: bool,
}

impl View for ErrorFlags {
    type V = FlagsState;

    closed spec fn view(&self) -> FlagsState {
        FlagsState { overflow: self.overflow, division_by_zero: self.division_by_zero }
    }
}

impl Default for ErrorFlags {
    fn default() -> (r: Self)
        ensures
            !r@.overflow && !r@.division_by_zero,
    {
        ErrorFlags { division_by_zero: false, overflow: false }
    }
}

impl ErrorFlags {
    /// Returns whether an arithmetic overflow has occurred since the flags were last cleared
    pub fn overflow(&self) -> (r: bool)
        ensures
            r == self@.overflow,
    {
        self.overflow
    }

    /// Returns whether a division by zero has been attempted since the flags were last cleared
    pub fn division_by_zero(&self) -> (r: bool)
        ensures
            r == self@.division_by_zero,
    {
        self.division_by_zero
    }
}

/// What a `dbg_stack` instruction recorded: the program counter and the operand stack.
#[derive(Debug)]
pub struct DebugSnapshot {
    pub pc: usize,
    pub stack: Vec<Value>,
}

/// The virtual machine.
#[derive(Debug)]
pub struct VM {
    stack: Vec<Value>,
    program: Vec<VMInstruction>,
    pc: usize,
    error_flags: ErrorFlags,
    return_stack: Vec<usize>,
    debug_log: Vec<DebugSnapshot>,
}

/// The state of a VM that has just been given `program`, starting at `entry`.
pub open spec fn loaded_state(program: Seq<VMInstruction>, entry: usize) -> VmState {
    VmState {
        stack: Seq::empty(),
        program,
        pc: entry,
        flags: FlagsState { overflow: false, division_by_zero: false },
        returns: Seq::empty(),
        debug_log: Seq::empty(),
    }
}

/// What `run` yields from state `s` within `fuel` steps: the final state and the exit value,
/// the first error, or `StepLimitExceeded` when `fuel` steps went by without either.
pub open spec fn run_within(s: VmState, fuel: nat) -> (VmState, Result<Value, VMError>)
    decreases fuel,
{
    if fuel == 0 {
        (s, Err(VMError::StepLimitExceeded))
    } else {
        let (s2, r) = step(s);
        match r {
            Err(e) => (s2, Err(e)),
            Ok(Some(v)) => (s2, Ok(v)),
            Ok(None) => run_within(s2, (fuel - 1) as nat),
        }
    }
}

pub open spec fn snapshot_view(d: DebugSnapshot) -> (usize, Seq<Value>) {
    (d.pc, d.stack@)
}

spec fn is_stack_op(i: VMInstruction) -> bool {
    matches!(i, VMInstruction::BitNot | VMInstruction::Swap | VMInstruction::Pop | VMInstruction::Dup
        | VMInstruction::PushImm(_) | VMInstruction::Pick(_) | VMInstruction::Move(_))
}

spec fn is_control_op(i: VMInstruction) -> bool {
    matches!(i, VMInstruction::PopJump | VMInstruction::Jump(_) | VMInstruction::JumpIfNotZero(_)
        | VMInstruction::JumpIfZero(_) | VMInstruction::JumpIfTrue(_) | VMInstruction::JumpIfFalse(_)
        | VMInstruction::Call(_) | VMInstruction::Return | VMInstruction::Exit)
}

spec fn is_machine_control_op(i: VMInstruction) -> bool {
    matches!(i, VMInstruction::DebugStack | VMInstruction::ClearErrorFlags
        | VMInstruction::ClearDivisionByZero | VMInstruction::ClearOverflow
        | VMInstruction::PushDivisionByZeroFlag | VMInstruction::PushOverflowFlag)
}

impl View for VM {
    type V = VmState;

    closed spec fn view(&self) -> VmState {
        VmState {
            stack: self.stack@,
            program: self.program@,
            pc: self.pc,
            flags: self.error_flags@,
            returns: self.return_stack@,
            debug_log: self.debug_log@.map_values(|d: DebugSnapshot| snapshot_view(d)),
        }
    }
}

impl VM {
    /// The program, the operand stack and the return stack of a VM each hold at most
    /// `usize::MAX` items, so a program counter inside the program can always move on by one.
    pub proof fn lemma_view_fits_usize(&self)
        ensures
            self@.program.len() <= usize::MAX,
            self@.stack.len() <= usize::MAX,
            self@.returns.len() <= usize::MAX,
            self@.pc < self@.program.len() ==> self@.pc + 1 <= usize::MAX,
    {
        assert(self.program.len() == self.program@.len());
        assert(self.stack.len() == self.stack@.len());
        assert(self.return_stack.len() == self.return_stack@.len());
    }

    /// A VM with no program loaded
    pub fn new() -> (r: Self)
        ensures
            r@ == loaded_state(Seq::empty(), 0),
    {
        let r = Self {
            stack: Vec::new(),
            program: Vec::new(),
            pc: 0,
            error_flags: Default::default(),
            return_stack: Vec::new(),
            debug_log: Vec::new(),
        };
        assert(r@.debug_log =~= Seq::<(usize, Seq<Value>)>::empty());
        r
    }

    /// Loads a program into the virtual machine, overwriting any existing program and state;
    /// execution starts at `entry`
    pub fn load_program(&mut self, program: Vec<VMInstruction>, entry: usize)
        ensures
            final(self)@ == loaded_state(program@, entry),
    {
        self.stack.clear();
        self.error_flags = Default::default();
        self.program = program;
        self.pc = entry;
        self.return_stack.clear();
        self.debug_log = Vec::new();
        assert(self@.debug_log =~= Seq::<(usize, Seq<Value>)>::empty());
    }

    /// Returns the VM's error flags
    pub fn error_flags(&self) -> (r: &ErrorFlags)
        ensures
            r@ == self@.flags,
    {
        &self.error_flags
    }

    /// Hands out, oldest first, what the `dbg_stack` instructions executed since the last call
    /// recorded, and forgets it
    pub fn take_debug_log(&mut self) -> (r: Vec<DebugSnapshot>)
        ensures
            r@.map_values(|d: DebugSnapshot| snapshot_view(d)) == old(self)@.debug_log,
            final(self)@ == (VmState { debug_log: Seq::empty(), ..old(self)@ }),
    {
        let mut r: Vec<DebugSnapshot> = Vec::new();
        std::mem::swap(&mut r, &mut self.debug_log);
        assert(self@.debug_log =~= Seq::<(usize, Seq<Value>)>::empty());
        r
    }

    fn pop_checked(&mut self) -> (r: Result<Value, VMError>)
        ensures
            (final(self)@.stack, r) == pop_value(old(self)@.stack),
            final(self)@ == old(self)@.with_stack(final(self)@.stack),
    {
        match self.stack.pop() {
            Some(v) => Ok(v),
            None => Err(VMError::StackExhausted),
        }
    }

    fn pop_checked_int(&mut self) -> (r: Result<i32, VMError>)
        ensures
            (final(self)@.stack, r) == pop_int(old(self)@.stack),
            final(self)@ == old(self)@.with_stack(final(self)@.stack),
    {
        match self.stack.pop() {
            Some(Value::Int(n)) => Ok(n),
            Some(Value::Bool(_)) => Err(VMError::ExpectedInt),
            None => Err(VMError::StackExhausted),
        }
    }

    fn pop_checked_bool(&mut self) -> (r: Result<bool, VMError>)
        ensures
            (final(self)@.stack, r) == pop_bool(old(self)@.stack),
            final(self)@ == old(self)@.with_stack(final(self)@.stack),
    {
        match self.stack.pop() {
            Some(Value::Bool(b)) => Ok(b),
            Some(Value::Int(_)) => Err(VMError::ExpectedBool),
            None => Err(VMError::StackExhausted),
        }
    }

    /// Leaves `v` on the stack and moves on to the next instruction.
    fn push_and_advance(&mut self, v: Value) -> (r: StepResult)
        requires
            old(self)@.pc < old(self)@.program.len(),
        ensures
            (final(self)@, r) == old(self)@.continue_with(old(self)@.stack.push(v)),
    {
        let len = self.program.len();
        assert(self.pc < len);
        self.stack.push(v);
        self.pc = self.pc + 1;
        Ok(None)
    }

    fn exec_int_binop(&mut self, i: VMInstruction) -> (r: StepResult)
        requires
            is_int_binop(i),
            old(self)@.pc < old(self)@.program.len(),
        ensures
            (final(self)@, r) == int_binop_step(old(self)@, i),
    {
        let a = match self.pop_checked_int() {
            Ok(a) => a,
            Err(e) => return Err(e),
        };
        let b = match self.pop_checked_int() {
            Ok(b) => b,
            Err(e) => return Err(e),
        };
        let (r, ov, dz): (Result<i32, VMError>, bool, bool) = match i {
            VMInstruction::AddUnchecked => (Ok(a.wrapping_add(b)), a.checked_add(b).is_none(), false),
            VMInstruction::AddChecked => match a.checked_add(b) {
                Some(x) => (Ok(x), false, false),
                None => (Err(VMError::Overflow), true, false),
            },
            VMInstruction::SubUnchecked => (Ok(a.wrapping_sub(b)), a.checked_sub(b).is_none(), false),
            VMInstruction::SubChecked => match a.checked_sub(b) {
                Some(x) => (Ok(x), false, false),
                None => (Err(VMError::Overflow), true, false),
            },
            VMInstruction::MulUnchecked => (Ok(a.wrapping_mul(b)), a.checked_mul(b).is_none(), false),
            VMInstruction::MulChecked => match a.checked_mul(b) {
                Some(x) => (Ok(x), false, false),
                None => (Err(VMError::Overflow), true, false),
            },
            _ => {
                if b == 0 {
                    (Err(VMError::DivisionByZero), false, true)
                } else {
                    match a.checked_div(b) {
                        Some(q) => (Ok(q), false, false),
                        None => (Err(VMError::Overflow), true, false),
                    }
                }
            },
        };
        if ov {
            self.error_flags.overflow = true;
        }
        if dz {
            self.error_flags.division_by_zero = true;
        }
        match r {
            Ok(v) => self.push_and_advance(Value::Int(v)),
            Err(e) => Err(e),
        }
    }

    fn exec_int_unop(&mut self, i: VMInstruction) -> (r: StepResult)
        requires
            is_int_unop(i),
            old(self)@.pc < old(self)@.program.len(),
        ensures
            (final(self)@, r) == int_unop_step(old(self)@, i),
    {
        let a = match self.pop_checked_int() {
            Ok(a) => a,
            Err(e) => return Err(e),
        };
        let (r, ov): (Result<i32, VMError>, bool) = match i {
            VMInstruction::NegUnchecked => (Ok(0i32.wrapping_sub(a)), a == i32::MIN),
            VMInstruction::NegChecked => {
                if a == i32::MIN {
                    (Err(VMError::Overflow), true)
                } else {
                    (Ok(-a), false)
                }
            },
            VMInstruction::ShiftL(n) => {
                if n < 32 {
                    (Ok(a.wrapping_shl(n as u32)), false)
                } else {
                    (Err(VMError::InvalidShiftAmount), false)
                }
            },
            VMInstruction::ShiftR(n) => {
                if n < 32 {
                    (Ok(a.wrapping_shr(n as u32)), false)
                } else {
                    (Err(VMError::InvalidShiftAmount), false)
                }
            },
            VMInstruction::RotL(n) => (Ok(rotate_left(a, n as u32)), false),
            VMInstruction::RotR(n) => (Ok(rotate_right(a, n as u32)), false),
            _ => (Ok(a), false),
        };
        if ov {
            self.error_flags.overflow = true;
        }
        match r {
            Ok(v) => self.push_and_advance(Value::Int(v)),
            Err(e) => Err(e),
        }
    }

    fn exec_pair(&mut self, i: VMInstruction) -> (r: StepResult)
        requires
            is_bit_binop(i) || is_comparison(i),
            old(self)@.pc < old(self)@.program.len(),
        ensures
            (final(self)@, r) == pair_step(old(self)@, i),
    {
        let a = match self.pop_checked() {
            Ok(a) => a,
            Err(e) => return Err(e),
        };
        let b = match self.pop_checked() {
            Ok(b) => b,
            Err(e) => return Err(e),
        };
        let r: Result<Value, VMError> = match i {
            VMInstruction::BitAnd | VMInstruction::BitOr | VMInstruction::BitXor => {
                match (a, b) {
                    (Value::Int(x), Value::Int(y)) => Ok(
                        Value::Int(
                            match i {
                                VMInstruction::BitAnd => x & y,
                                VMInstruction::BitOr => x | y,
                                _ => x ^ y,
                            },
                        ),
                    ),
                    (Value::Bool(x), Value::Bool(y)) => Ok(
                        Value::Bool(
                            match i {
                                VMInstruction::BitAnd => x && y,
                                VMInstruction::BitOr => x || y,
                                _ => x != y,
                            },
                        ),
                    ),
                    _ => Err(VMError::MismatchedOperands),
                }
            },
            VMInstruction::Eq => Ok(Value::Bool(a == b)),
            VMInstruction::Neq => Ok(Value::Bool(a != b)),
            _ => {
                match (a, b) {
                    (Value::Int(x), Value::Int(y)) => Ok(
                        Value::Bool(
                            match i {
                                VMInstruction::Lt => x < y,
                                VMInstruction::Gt => x > y,
                                VMInstruction::GtEq => x >= y,
                                _ => x <= y,
                            },
                        ),
                    ),
                    _ => Err(VMError::MismatchedOperands),
                }
            },
        };
        match r {
            Ok(v) => self.push_and_advance(v),
            Err(e) => Err(e),
        }
    }
}

impl VM {
    /// Runs a single instruction, an `Err` return means that an error occurred when executing the instruction,
    /// and the `Ok(None)` return means that the program has not yet exited, and a `Ok(Some(x))` return means
    /// that the program has exited with exit code `x`
    pub fn single_step(&mut self) -> (r: Result<Option<Value>, VMError>)
        ensures
            (final(self)@, r) == step(old(self)@),
    {
        let len = self.program.len();
        if self.pc >= len {
            return Err(VMError::InvalidPCAddress);
        }
        let instr = self.program[self.pc];
        assert(step(old(self)@) == step_instruction(old(self)@, instr));
        match instr {
            VMInstruction::AddUnchecked
            | VMInstruction::AddChecked
            | VMInstruction::SubUnchecked
            | VMInstruction::SubChecked
            | VMInstruction::MulUnchecked
            | VMInstruction::MulChecked
            | VMInstruction::DivChecked => self.exec_int_binop(instr),
            VMInstruction::NegUnchecked
            | VMInstruction::NegChecked
            | VMInstruction::ShiftL(_)
            | VMInstruction::ShiftR(_)
            | VMInstruction::RotL(_)
            | VMInstruction::RotR(_) => self.exec_int_unop(instr),
            VMInstruction::BitAnd
            | VMInstruction::BitOr
            | VMInstruction::BitXor
            | VMInstruction::Eq
            | VMInstruction::Neq
            | VMInstruction::Lt
            | VMInstruction::Gt
            | VMInstruction::GtEq
            | VMInstruction::LtEq => self.exec_pair(instr),
            VMInstruction::BitNot
            | VMInstruction::Swap
            | VMInstruction::Pop
            | VMInstruction::Dup
            | VMInstruction::PushImm(_)
            | VMInstruction::Pick(_)
            | VMInstruction::Move(_) => self.exec_stack_op(instr),
            VMInstruction::PopJump
            | VMInstruction::Jump(_)
            | VMInstruction::JumpIfNotZero(_)
            | VMInstruction::JumpIfZero(_)
            | VMInstruction::JumpIfTrue(_)
            | VMInstruction::JumpIfFalse(_)
            | VMInstruction::Call(_)
            | VMInstruction::Return
            | VMInstruction::Exit => self.exec_control(instr),
            _ => self.exec_machine_control(instr),
        }
    }


    fn exec_stack_op(&mut self, i: VMInstruction) -> (r: StepResult)
        requires
            is_stack_op(i),
            old(self)@.pc < old(self)@.program.len(),
        ensures
            (final(self)@, r) == step_instruction(old(self)@, i),
    {
        let len = self.program.len();
        assert(self.pc < len);
        match i {
            VMInstruction::BitNot => match self.pop_checked() {
                Ok(Value::Int(x)) => self.push_and_advance(Value::Int(!x)),
                Ok(Value::Bool(x)) => self.push_and_advance(Value::Bool(!x)),
                Err(e) => Err(e),
            },
            VMInstruction::Swap => {
                let a = match self.pop_checked() {
                    Ok(a) => a,
                    Err(e) => return Err(e),
                };
                let b = match self.pop_checked() {
                    Ok(b) => b,
                    Err(e) => return Err(e),
                };
                self.stack.push(a);
                self.push_and_advance(b)
            },
            VMInstruction::Pop => match self.pop_checked() {
                Ok(_) => {
                    self.pc = self.pc + 1;
                    Ok(None)
                },
                Err(e) => Err(e),
            },
            VMInstruction::Dup => match self.pop_checked() {
                Ok(a) => {
                    self.stack.push(a);
                    self.push_and_advance(a)
                },
                Err(e) => Err(e),
            },
            VMInstruction::PushImm(v) => self.push_and_advance(v),
            VMInstruction::Pick(n) => {
                let depth = self.stack.len();
                if (n as usize) < depth {
                    let v = self.stack[depth - 1 - n as usize];
                    self.push_and_advance(v)
                } else {
                    Err(VMError::StackExhausted)
                }
            },
            VMInstruction::Move(n) => {
                let depth = self.stack.len();
                if (n as usize) < depth {
                    let v = self.stack.remove(depth - 1 - n as usize);
                    self.push_and_advance(v)
                } else {
                    Err(VMError::StackExhausted)
                }
            },
            _ => Err(VMError::StackExhausted),
        }
    }

    fn exec_control(&mut self, i: VMInstruction) -> (r: StepResult)
        requires
            is_control_op(i),
            old(self)@.pc < old(self)@.program.len(),
        ensures
            (final(self)@, r) == step_instruction(old(self)@, i),
    {
        let len = self.program.len();
        assert(self.pc < len);
        match i {
            VMInstruction::PopJump => match self.pop_checked_int() {
                Ok(a) => {
                    self.pc = a as usize;
                    Ok(None)
                },
                Err(e) => Err(e),
            },
            VMInstruction::Jump(addr) => {
                self.pc = addr as usize;
                Ok(None)
            },
            VMInstruction::JumpIfNotZero(addr) => match self.pop_checked_int() {
                Ok(a) => self.branch(a != 0, addr),
                Err(e) => Err(e),
            },
            VMInstruction::JumpIfZero(addr) => match self.pop_checked_int() {
                Ok(a) => self.branch(a == 0, addr),
                Err(e) => Err(e),
            },
            VMInstruction::JumpIfTrue(addr) => match self.pop_checked_bool() {
                Ok(a) => self.branch(a, addr),
                Err(e) => Err(e),
            },
            VMInstruction::JumpIfFalse(addr) => match self.pop_checked_bool() {
                Ok(a) => self.branch(!a, addr),
                Err(e) => Err(e),
            },
            VMInstruction::Call(addr) => {
                self.return_stack.push(self.pc + 1);
                self.pc = addr as usize;
                Ok(None)
            },
            VMInstruction::Return => match self.return_stack.pop() {
                Some(ret) => {
                    self.pc = ret;
                    Ok(None)
                },
                None => Err(VMError::StackExhausted),
            },
            VMInstruction::Exit => match self.pop_checked() {
                Ok(a) => Ok(Some(a)),
                Err(e) => Err(e),
            },
            _ => Err(VMError::StackExhausted),
        }
    }

    fn exec_machine_control(&mut self, i: VMInstruction) -> (r: StepResult)
        requires
            is_machine_control_op(i),
            old(self)@.pc < old(self)@.program.len(),
        ensures
            (final(self)@, r) == step_instruction(old(self)@, i),
    {
        let len = self.program.len();
        assert(self.pc < len);
        match i {
            VMInstruction::DebugStack => {
                let snapshot = DebugSnapshot { pc: self.pc, stack: copy_values(&self.stack) };
                let ghost before = self.debug_log@;
                self.debug_log.push(snapshot);
                assert(self.debug_log@.map_values(|d: DebugSnapshot| snapshot_view(d))
                    =~= old(self)@.debug_log.push((old(self)@.pc, old(self)@.stack)));
                self.pc = self.pc + 1;
                Ok(None)
            },
            VMInstruction::ClearErrorFlags => {
                self.error_flags = Default::default();
                self.pc = self.pc + 1;
                Ok(None)
            },
            VMInstruction::ClearDivisionByZero => {
                self.error_flags.division_by_zero = false;
                self.pc = self.pc + 1;
                Ok(None)
            },
            VMInstruction::ClearOverflow => {
                self.error_flags.overflow = false;
                self.pc = self.pc + 1;
                Ok(None)
            },
            VMInstruction::PushDivisionByZeroFlag => {
                let f = self.error_flags.division_by_zero;
                self.push_and_advance(Value::Bool(f))
            },
            VMInstruction::PushOverflowFlag => {
                let f = self.error_flags.overflow;
                self.push_and_advance(Value::Bool(f))
            },
            _ => Err(VMError::StackExhausted),
        }
    }

    /// Jumps to `target` when `cond` holds, else moves on to the next instruction.
    fn branch(&mut self, cond: bool, target: u32) -> (r: StepResult)
        requires
            old(self)@.pc < old(self)@.program.len(),
        ensures
            (final(self)@, r) == semantics::branch(old(self)@, old(self)@.stack, cond, target),
    {
        if cond {
            self.pc = target as usize;
        } else {
            let len = self.program.len();
            assert(self.pc < len);
            self.pc = self.pc + 1;
        }
        Ok(None)
    }

    /// Runs the virtual machine until the program exits or an error occurs, giving up with
    /// `StepLimitExceeded` after `u64::MAX` steps
    pub fn run(&mut self) -> (r: Result<Value, VMError>)
        ensures
            (final(self)@, r) == run_within(old(self)@, u64::MAX as nat),
    {
        let mut fuel: u64 = u64::MAX;
        loop
            invariant
                run_within(self@, fuel as nat) == run_within(old(self)@, u64::MAX as nat),
            decreases fuel,
        {
            if fuel == 0 {
                return Err(VMError::StepLimitExceeded);
            }
            match self.single_step() {
                Err(e) => return Err(e),
                Ok(Some(v)) => return Ok(v),
                Ok(None) => {},
            }
            fuel = fuel - 1;
        }
    }
}

/// A copy of a stack of values.
fn copy_values(v: &Vec<Value>) -> (r: Vec<Value>)
    ensures
        r@ == v@,
{
    let mut r: Vec<Value> = Vec::with_capacity(v.len());
    let mut k: usize = 0;
    while k < v.len()
        invariant
            k <= v@.len(),
            r@ == v@.take(k as int),
        decreases v@.len() - k,
    {
        r.push(v[k]);
        k = k + 1;
        assert(r@ =~= v@.take(k as int));
    }
    assert(v@.take(v@.len() as int) =~= v@);
    r
}

/// Rotates the 32 bits of `a` left by `k` (modulo 32)
fn rotate_left(a: i32, k: u32) -> (r: i32)
    ensures
        r == rotate_left_32(a, k),
{
    let s = k % 32;
    let u = a as u32;
    if s == 0 {
        a
    } else {
        ((u << s) | (u >> (32 - s))) as i32
    }
}

/// Rotates the 32 bits of `a` right by `k` (modulo 32)
fn rotate_right(a: i32, k: u32) -> (r: i32)
    ensures
        r == rotate_right_32(a, k),
{
    let s = k % 32;
    let u = a as u32;
    if s == 0 {
        a
    } else {
        ((u >> s) | (u << (32 - s))) as i32
    }
}

} // verus!
