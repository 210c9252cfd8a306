//! Properties of the instruction semantics that hold for every machine state.
use crate::code::VMInstruction;
use crate::vm::semantics::{
    int_binop, int_unop, out_of_i32, rotate_left_32, rotate_right_32, step, step_instruction,
    FlagsState, VmState,
};
use crate::vm::{VMError, Value};
use vstd::prelude::*;

verus! {

/// The instructions that clear error flags.
pub open spec fn clears_flags(i: VMInstruction) -> bool {
    matches!(i, VMInstruction::ClearErrorFlags | VMInstruction::ClearDivisionByZero
        | VMInstruction::ClearOverflow)
}

/// Law: the error flags are sticky. A step that does not execute one of the clearing
/// instructions never clears a flag, whether the instruction succeeds or fails.
pub proof fn lemma_flags_sticky(s: VmState)
    requires
        !(s.pc < s.program.len() && clears_flags(s.program[s.pc as int])),
    ensures
        s.flags.overflow ==> step(s).0.flags.overflow,
        s.flags.division_by_zero ==> step(s).0.flags.division_by_zero,
{
}

/// Law: a step changes neither the loaded program nor, but for `dbg_stack`, the debug record.
pub proof fn lemma_step_keeps_program(s: VmState)
    ensures
        step(s).0.program == s.program,
        !(s.pc < s.program.len() && s.program[s.pc as int] == VMInstruction::DebugStack) ==> step(
            s,
        ).0.debug_log == s.debug_log,
{
}

/// Law: a failed step leaves the program counter where it was, at the failing instruction.
pub proof fn lemma_failed_step_keeps_pc(s: VmState)
    requires
        step(s).1 is Err,
    ensures
        step(s).0.pc == s.pc,
{
}

/// Law: checked and unchecked addition, subtraction and multiplication agree. The checked form
/// fails with `Overflow` exactly when the unchecked form raises the overflow flag; otherwise both
/// give the same (exact) result and neither raises a flag.
pub proof fn lemma_checked_agrees_with_unchecked(a: i32, b: i32)
    ensures
        ({
            let pairs = seq![
                (VMInstruction::AddChecked, VMInstruction::AddUnchecked),
                (VMInstruction::SubChecked, VMInstruction::SubUnchecked),
                (VMInstruction::MulChecked, VMInstruction::MulUnchecked),
            ];
            forall|k: int|
                0 <= k < 3 ==> {
                    let (c, u) = #[trigger] pairs[k];
                    let (rc, oc, _) = int_binop(c, a, b);
                    let (ru, ou, du) = int_binop(u, a, b);
                    &&& !du
                    &&& (rc == Err::<i32, VMError>(VMError::Overflow) <==> ou)
                    &&& oc == ou
                    &&& (!ou ==> rc == ru)
                }
        }),
{
    let pairs = seq![
        (VMInstruction::AddChecked, VMInstruction::AddUnchecked),
        (VMInstruction::SubChecked, VMInstruction::SubUnchecked),
        (VMInstruction::MulChecked, VMInstruction::MulUnchecked),
    ];
    assert forall|k: int| 0 <= k < 3 implies {
        let (c, u) = #[trigger] pairs[k];
        let (rc, oc, _) = int_binop(c, a, b);
        let (ru, ou, du) = int_binop(u, a, b);
        &&& !du
        &&& (rc == Err::<i32, VMError>(VMError::Overflow) <==> ou)
        &&& oc == ou
        &&& (!ou ==> rc == ru)
    } by {
        if k == 0 {
            assert(pairs[0] == (VMInstruction::AddChecked, VMInstruction::AddUnchecked));
        } else if k == 1 {
            assert(pairs[1] == (VMInstruction::SubChecked, VMInstruction::SubUnchecked));
        } else {
            assert(pairs[2] == (VMInstruction::MulChecked, VMInstruction::MulUnchecked));
        }
    }
}

/// Law: checked and unchecked negation agree in the same way.
pub proof fn lemma_checked_negation_agrees(a: i32)
    ensures
        int_unop(VMInstruction::NegChecked, a).1 == int_unop(VMInstruction::NegUnchecked, a).1,
        int_unop(VMInstruction::NegChecked, a).0 == Err::<i32, VMError>(VMError::Overflow)
            <==> int_unop(VMInstruction::NegUnchecked, a).1,
        !int_unop(VMInstruction::NegUnchecked, a).1 ==> int_unop(VMInstruction::NegChecked, a).0
            == int_unop(VMInstruction::NegUnchecked, a).0,
{
}

/// Law: `pick 0` is the same as `dup`, in every state.
pub proof fn lemma_pick_zero_is_dup(s: VmState)
    ensures
        step_instruction(s, VMInstruction::Pick(0)) == step_instruction(s, VMInstruction::Dup),
{
    if s.stack.len() > 0 {
        assert(s.stack.drop_last().push(s.stack.last()) =~= s.stack);
    }
}

/// Law: `move 0` leaves the stack as it is and only moves on (or fails on an empty stack).
pub proof fn lemma_move_zero_keeps_stack(s: VmState)
    requires
        s.stack.len() > 0,
    ensures
        step_instruction(s, VMInstruction::Move(0)) == s.continue_with(s.stack),
{
    let k = s.stack.len() - 1;
    assert(s.stack.remove(k).push(s.stack[k]) =~= s.stack);
}

/// Law: `swap` twice gives back the stack it started from.
pub proof fn lemma_swap_twice(s: VmState)
    requires
        s.stack.len() >= 2,
    ensures
        ({
            let (s1, r1) = step_instruction(s, VMInstruction::Swap);
            let (s2, r2) = step_instruction(s1, VMInstruction::Swap);
            r1 == Ok::<Option<Value>, VMError>(None) && r2 == Ok::<Option<Value>, VMError>(None)
                && s2.stack == s.stack
        }),
{
    let st = s.stack;
    let n = st.len();
    let (s1, r1) = step_instruction(s, VMInstruction::Swap);
    assert(s1.stack =~= st.drop_last().drop_last().push(st[n - 1]).push(st[n - 2]));
    let (s2, r2) = step_instruction(s1, VMInstruction::Swap);
    assert(s2.stack =~= st);
}

/// The state after a step that succeeded with operand stack `stack` and moved on to the next
/// instruction.
pub open spec fn moved_on(s: VmState, stack: Seq<Value>) -> VmState {
    VmState { stack, pc: (s.pc + 1) as usize, ..s }
}

/// Law: comparing two integers. With `x` on top of `y`, each comparison pops both and pushes
/// whether `x` stands in that relation to `y` (`gt` pushes `x > y`, false on equal operands).
pub proof fn lemma_integer_comparisons(s: VmState, x: i32, y: i32)
    requires
        s.stack.len() >= 2,
        s.stack.last() == Value::Int(x),
        s.stack[s.stack.len() - 2] == Value::Int(y),
    ensures
        ({
            let rest = s.stack.take(s.stack.len() - 2);
            let ok = Ok::<Option<Value>, VMError>(None);
            &&& step_instruction(s, VMInstruction::Eq) == (moved_on(s, rest.push(Value::Bool(x == y))), ok)
            &&& step_instruction(s, VMInstruction::Neq) == (moved_on(s, rest.push(Value::Bool(x != y))), ok)
            &&& step_instruction(s, VMInstruction::Lt) == (moved_on(s, rest.push(Value::Bool(x < y))), ok)
            &&& step_instruction(s, VMInstruction::Gt) == (moved_on(s, rest.push(Value::Bool(x > y))), ok)
            &&& step_instruction(s, VMInstruction::LtEq) == (moved_on(s, rest.push(Value::Bool(x <= y))), ok)
            &&& step_instruction(s, VMInstruction::GtEq) == (moved_on(s, rest.push(Value::Bool(x >= y))), ok)
        }),
{
    assert(s.stack.drop_last().drop_last() =~= s.stack.take(s.stack.len() - 2));
    assert(s.stack.drop_last().last() == s.stack[s.stack.len() - 2]);
}

/// Law: equality compares type and value. With `a` on top of `b`, `eq` pushes whether they are
/// the same value of the same type and `neq` the opposite; an int never equals a bool.
pub proof fn lemma_equality_of_values(s: VmState, a: Value, b: Value)
    requires
        s.stack.len() >= 2,
        s.stack.last() == a,
        s.stack[s.stack.len() - 2] == b,
    ensures
        ({
            let rest = s.stack.take(s.stack.len() - 2);
            let ok = Ok::<Option<Value>, VMError>(None);
            let same = match (a, b) {
                (Value::Int(x), Value::Int(y)) => x == y,
                (Value::Bool(x), Value::Bool(y)) => x == y,
                _ => false,
            };
            &&& step_instruction(s, VMInstruction::Eq) == (moved_on(s, rest.push(Value::Bool(same))), ok)
            &&& step_instruction(s, VMInstruction::Neq) == (moved_on(s, rest.push(Value::Bool(!same))), ok)
        }),
{
    assert(s.stack.drop_last().drop_last() =~= s.stack.take(s.stack.len() - 2));
    assert(s.stack.drop_last().last() == s.stack[s.stack.len() - 2]);
}

/// Law: checked arithmetic on two integers. With `x` on top of `y`, `addc`, `subc` and `mulc`
/// push `x + y`, `x - y` and `x * y` when the exact result fits in `i32`; otherwise they fail
/// with `Overflow`, leaving both operands popped and the overflow flag set.
pub proof fn lemma_checked_arithmetic(s: VmState, x: i32, y: i32)
    requires
        s.stack.len() >= 2,
        s.stack.last() == Value::Int(x),
        s.stack[s.stack.len() - 2] == Value::Int(y),
    ensures
        ({
            let rest = s.stack.take(s.stack.len() - 2);
            let ok = Ok::<Option<Value>, VMError>(None);
            let failed = (
                VmState { stack: rest, flags: FlagsState { overflow: true, ..s.flags }, ..s },
                Err::<Option<Value>, VMError>(VMError::Overflow),
            );
            &&& step_instruction(s, VMInstruction::AddChecked) == if i32::MIN <= x + y <= i32::MAX {
                (moved_on(s, rest.push(Value::Int((x + y) as i32))), ok)
            } else {
                failed
            }
            &&& step_instruction(s, VMInstruction::SubChecked) == if i32::MIN <= x - y <= i32::MAX {
                (moved_on(s, rest.push(Value::Int((x - y) as i32))), ok)
            } else {
                failed
            }
            &&& step_instruction(s, VMInstruction::MulChecked) == if i32::MIN <= x * y <= i32::MAX {
                (moved_on(s, rest.push(Value::Int((x * y) as i32))), ok)
            } else {
                failed
            }
        }),
{
    assert(s.stack.drop_last().drop_last() =~= s.stack.take(s.stack.len() - 2));
    assert(s.stack.drop_last().last() == s.stack[s.stack.len() - 2]);
}

/// Law: unchecked arithmetic on two integers. With `x` on top of `y`, `addu`, `subu` and `mulu`
/// push the exact result reduced to 32 bits, and raise the overflow flag exactly when the exact
/// result does not fit in `i32`.
pub proof fn lemma_unchecked_arithmetic(s: VmState, x: i32, y: i32)
    requires
        s.stack.len() >= 2,
        s.stack.last() == Value::Int(x),
        s.stack[s.stack.len() - 2] == Value::Int(y),
    ensures
        ({
            let rest = s.stack.take(s.stack.len() - 2);
            let ok = Ok::<Option<Value>, VMError>(None);
            let after = |r: int| (
                VmState {
                    stack: rest.push(Value::Int(r as i32)),
                    pc: (s.pc + 1) as usize,
                    flags: FlagsState { overflow: s.flags.overflow || r < i32::MIN || r > i32::MAX, ..s.flags },
                    ..s
                },
                ok,
            );
            &&& step_instruction(s, VMInstruction::AddUnchecked) == after(x + y)
            &&& step_instruction(s, VMInstruction::SubUnchecked) == after(x - y)
            &&& step_instruction(s, VMInstruction::MulUnchecked) == after(x * y)
        }),
{
    assert(s.stack.drop_last().drop_last() =~= s.stack.take(s.stack.len() - 2));
    assert(s.stack.drop_last().last() == s.stack[s.stack.len() - 2]);
    assert(x.wrapping_add(y) == (x + y) as i32) by (bit_vector);
    assert(x.wrapping_sub(y) == (x - y) as i32) by (bit_vector);
    assert(x.wrapping_mul(y) == (x * y) as i32) by (bit_vector);
}

/// Law: conditional jumps on an integer. With `x` on top, `jz a` and `jnz a` pop it and jump to
/// `a` when `x` is respectively zero and non-zero, and otherwise move on.
pub proof fn lemma_integer_jumps(s: VmState, x: i32, a: u32)
    requires
        s.stack.len() >= 1,
        s.stack.last() == Value::Int(x),
    ensures
        ({
            let rest = s.stack.drop_last();
            let ok = Ok::<Option<Value>, VMError>(None);
            let jumped = VmState { stack: rest, pc: a as usize, ..s };
            &&& step_instruction(s, VMInstruction::JumpIfZero(a)) == (if x == 0 { jumped } else { moved_on(s, rest) }, ok)
            &&& step_instruction(s, VMInstruction::JumpIfNotZero(a)) == (if x != 0 { jumped } else { moved_on(s, rest) }, ok)
        }),
{
}

/// Law: conditional jumps on a boolean. With `b` on top, `jt a` and `jf a` pop it and jump to
/// `a` when `b` is respectively true and false, and otherwise move on.
pub proof fn lemma_boolean_jumps(s: VmState, b: bool, a: u32)
    requires
        s.stack.len() >= 1,
        s.stack.last() == Value::Bool(b),
    ensures
        ({
            let rest = s.stack.drop_last();
            let ok = Ok::<Option<Value>, VMError>(None);
            let jumped = VmState { stack: rest, pc: a as usize, ..s };
            &&& step_instruction(s, VMInstruction::JumpIfTrue(a)) == (if b { jumped } else { moved_on(s, rest) }, ok)
            &&& step_instruction(s, VMInstruction::JumpIfFalse(a)) == (if !b { jumped } else { moved_on(s, rest) }, ok)
        }),
{
}

/// Whether `q` is `x / y` rounded toward zero: the remainder `x - q * y` is smaller than `y` in
/// size and is zero or has the sign of `x`.
pub open spec fn is_truncated_quotient(x: int, y: int, q: int) -> bool {
    let r = x - q * y;
    &&& (if r < 0 { -r } else { r }) < (if y < 0 { -y } else { y })
    &&& (r == 0 || (r < 0) == (x < 0))
}

proof fn lemma_checked_div_truncates(a: i32, b: i32)
    requires
        b != 0,
        !(a == i32::MIN && b == -1),
    ensures
        a.checked_div(b) matches Some(q) && is_truncated_quotient(a as int, b as int, q as int),
{
    crate::vm::trace_laws::lemma_checked_div_fails(a, b);
    let x = a as int;
    let d = b as int;
    if x > 0 && d > 0 {
        assert(0 <= x - (x / d) * d < d) by (nonlinear_arith)
            requires
                x > 0,
                d > 0,
        ;
    } else if x < 0 && d < 0 {
        let q = (x * -1) / (d * -1);
        assert(0 <= (x * -1) - q * (d * -1) < d * -1) by (nonlinear_arith)
            requires
                x < 0,
                d < 0,
                q == (x * -1) / (d * -1),
        ;
        assert(x - q * d == -((x * -1) - q * (d * -1))) by (nonlinear_arith);
    } else if x < 0 {
        let q0 = (x * -1) / d;
        assert(0 <= (x * -1) - q0 * d < d) by (nonlinear_arith)
            requires
                x < 0,
                d > 0,
                q0 == (x * -1) / d,
        ;
        assert(x - (q0 * -1) * d == -((x * -1) - q0 * d)) by (nonlinear_arith);
    } else if x > 0 {
        let q0 = x / (d * -1);
        assert(0 <= x - q0 * (d * -1) < d * -1) by (nonlinear_arith)
            requires
                x > 0,
                d < 0,
                q0 == x / (d * -1),
        ;
        assert(x - (q0 * -1) * d == x - q0 * (d * -1)) by (nonlinear_arith);
    }
}

/// Law: checked division. With `x` on top of `y`, `divc` fails with `DivisionByZero` and raises
/// that flag when `y` is zero, fails with `Overflow` and raises that flag on `i32::MIN / -1`, and
/// otherwise pushes `x / y` rounded toward zero.
pub proof fn lemma_checked_division(s: VmState, x: i32, y: i32)
    requires
        s.stack.len() >= 2,
        s.stack.last() == Value::Int(x),
        s.stack[s.stack.len() - 2] == Value::Int(y),
    ensures
        ({
            let rest = s.stack.take(s.stack.len() - 2);
            let r = step_instruction(s, VMInstruction::DivChecked);
            &&& y == 0 ==> r == (
                VmState { stack: rest, flags: FlagsState { division_by_zero: true, ..s.flags }, ..s },
                Err::<Option<Value>, VMError>(VMError::DivisionByZero),
            )
            &&& (x == i32::MIN && y == -1) ==> r == (
                VmState { stack: rest, flags: FlagsState { overflow: true, ..s.flags }, ..s },
                Err::<Option<Value>, VMError>(VMError::Overflow),
            )
            &&& (y != 0 && !(x == i32::MIN && y == -1)) ==> (r.1 == Ok::<Option<Value>, VMError>(None)
                && r.0.stack.len() > 0 && r.0 == moved_on(s, rest.push(r.0.stack.last()))
                && (r.0.stack.last() matches Value::Int(q) && is_truncated_quotient(x as int, y as int, q as int)))
        }),
{
    assert(s.stack.drop_last().drop_last() =~= s.stack.take(s.stack.len() - 2));
    assert(s.stack.drop_last().last() == s.stack[s.stack.len() - 2]);
    if y != 0 {
        crate::vm::trace_laws::lemma_checked_div_fails(x, y);
        if !(x == i32::MIN && y == -1) {
            lemma_checked_div_truncates(x, y);
        }
    }
}

/// Law: negation. With `x` on top, `negc` pushes `-x`, failing with `Overflow` (and raising the
/// flag) on `i32::MIN`; `negu` pushes `-x` reduced to 32 bits (so `i32::MIN` stays itself) and
/// raises the overflow flag on `i32::MIN`.
pub proof fn lemma_negation(s: VmState, x: i32)
    requires
        s.stack.len() >= 1,
        s.stack.last() == Value::Int(x),
    ensures
        ({
            let rest = s.stack.drop_last();
            let ok = Ok::<Option<Value>, VMError>(None);
            &&& step_instruction(s, VMInstruction::NegChecked) == if x == i32::MIN {
                (
                    VmState { stack: rest, flags: FlagsState { overflow: true, ..s.flags }, ..s },
                    Err::<Option<Value>, VMError>(VMError::Overflow),
                )
            } else {
                (moved_on(s, rest.push(Value::Int((-x) as i32))), ok)
            }
            &&& step_instruction(s, VMInstruction::NegUnchecked) == (
                VmState {
                    stack: rest.push(Value::Int((-x) as i32)),
                    pc: (s.pc + 1) as usize,
                    flags: FlagsState { overflow: s.flags.overflow || x == i32::MIN, ..s.flags },
                    ..s
                },
                ok,
            )
        }),
{
    assert((0i32).wrapping_sub(x) == (-x) as i32) by (bit_vector);
}

/// Law: shifts. With `x` on top, `shl n` and `shr n` push `x` shifted left, and shifted right
/// arithmetically, by `n` bits when `n < 32`, and fail with `InvalidShiftAmount` otherwise.
pub proof fn lemma_shifts(s: VmState, x: i32, n: u8)
    requires
        s.stack.len() >= 1,
        s.stack.last() == Value::Int(x),
    ensures
        ({
            let rest = s.stack.drop_last();
            let ok = Ok::<Option<Value>, VMError>(None);
            let bad = (VmState { stack: rest, ..s }, Err::<Option<Value>, VMError>(VMError::InvalidShiftAmount));
            &&& step_instruction(s, VMInstruction::ShiftL(n)) == if n < 32 {
                (moved_on(s, rest.push(Value::Int(x << n))), ok)
            } else {
                bad
            }
            &&& step_instruction(s, VMInstruction::ShiftR(n)) == if n < 32 {
                (moved_on(s, rest.push(Value::Int(x >> n))), ok)
            } else {
                bad
            }
        }),
{
    if n < 32 {
        assert((n as u32) % 32 == n as u32);
    }
}

/// Law: bitwise operations. With `a` on top of `b`, `and`, `or` and `xor` combine two integers
/// bit by bit and two booleans logically, and fail with `MismatchedOperands` on an integer and a
/// boolean; `not` flips every bit of an integer, or a boolean.
pub proof fn lemma_bitwise(s: VmState, a: Value, b: Value)
    requires
        s.stack.len() >= 2,
        s.stack.last() == a,
        s.stack[s.stack.len() - 2] == b,
    ensures
        ({
            let rest = s.stack.take(s.stack.len() - 2);
            let ok = Ok::<Option<Value>, VMError>(None);
            let mismatched = (VmState { stack: rest, ..s }, Err::<Option<Value>, VMError>(VMError::MismatchedOperands));
            &&& step_instruction(s, VMInstruction::BitAnd) == match (a, b) {
                (Value::Int(x), Value::Int(y)) => (moved_on(s, rest.push(Value::Int(x & y))), ok),
                (Value::Bool(x), Value::Bool(y)) => (moved_on(s, rest.push(Value::Bool(x && y))), ok),
                _ => mismatched,
            }
            &&& step_instruction(s, VMInstruction::BitOr) == match (a, b) {
                (Value::Int(x), Value::Int(y)) => (moved_on(s, rest.push(Value::Int(x | y))), ok),
                (Value::Bool(x), Value::Bool(y)) => (moved_on(s, rest.push(Value::Bool(x || y))), ok),
                _ => mismatched,
            }
            &&& step_instruction(s, VMInstruction::BitXor) == match (a, b) {
                (Value::Int(x), Value::Int(y)) => (moved_on(s, rest.push(Value::Int(x ^ y))), ok),
                (Value::Bool(x), Value::Bool(y)) => (moved_on(s, rest.push(Value::Bool(x != y))), ok),
                _ => mismatched,
            }
            &&& step_instruction(s, VMInstruction::BitNot) == match a {
                Value::Int(x) => (moved_on(s, s.stack.drop_last().push(Value::Int(!x))), ok),
                Value::Bool(x) => (moved_on(s, s.stack.drop_last().push(Value::Bool(!x))), ok),
            }
        }),
{
    assert(s.stack.drop_last().drop_last() =~= s.stack.take(s.stack.len() - 2));
    assert(s.stack.drop_last().last() == s.stack[s.stack.len() - 2]);
}

/// Law: stack operations. With `x` on top of `y`: `swap` exchanges them, `dup` pushes `x` again,
/// `pop` drops `x`, `push v` pushes `v`; `pick n` pushes a copy of the value `n` places below the
/// top, and `move n` takes that value out and puts it on top, both failing with
/// `StackExhausted` when the stack has no such value.
pub proof fn lemma_stack_operations(s: VmState, x: Value, y: Value, v: Value, n: u32)
    requires
        s.stack.len() >= 2,
        s.stack.last() == x,
        s.stack[s.stack.len() - 2] == y,
    ensures
        ({
            let len = s.stack.len();
            let rest = s.stack.take(len - 2);
            let ok = Ok::<Option<Value>, VMError>(None);
            let k = len - 1 - n;
            &&& step_instruction(s, VMInstruction::Swap) == (moved_on(s, rest.push(x).push(y)), ok)
            &&& step_instruction(s, VMInstruction::Dup) == (moved_on(s, s.stack.push(x)), ok)
            &&& step_instruction(s, VMInstruction::Pop) == (moved_on(s, rest.push(y)), ok)
            &&& step_instruction(s, VMInstruction::PushImm(v)) == (moved_on(s, s.stack.push(v)), ok)
            &&& step_instruction(s, VMInstruction::Pick(n)) == if n < len {
                (moved_on(s, s.stack.push(s.stack[k])), ok)
            } else {
                (s, Err::<Option<Value>, VMError>(VMError::StackExhausted))
            }
            &&& step_instruction(s, VMInstruction::Move(n)) == if n < len {
                (moved_on(s, s.stack.take(k) + s.stack.skip(k + 1) + seq![s.stack[k]]), ok)
            } else {
                (s, Err::<Option<Value>, VMError>(VMError::StackExhausted))
            }
        }),
{
    let len = s.stack.len();
    assert(s.stack.drop_last().drop_last() =~= s.stack.take(len - 2));
    assert(s.stack.drop_last().last() == s.stack[len - 2]);
    assert(s.stack.drop_last() =~= s.stack.take(len - 2).push(y));
    assert(s.stack.drop_last().push(x) =~= s.stack);
    if n < len {
        let k = len - 1 - n;
        assert(s.stack.remove(k).push(s.stack[k]) =~= s.stack.take(k) + s.stack.skip(k + 1) + seq![s.stack[k]]);
    }
}

/// Law: control flow. `jmp a` goes to `a`; `call a` goes to `a` and saves the address after the
/// call, which `ret` goes back to (failing with `StackExhausted` when none is saved); `exit` pops
/// the top value and returns it as the program's result; `popjump` pops an integer and goes there.
pub proof fn lemma_control_flow(s: VmState, a: u32)
    ensures
        step_instruction(s, VMInstruction::Jump(a)) == (VmState { pc: a as usize, ..s }, Ok::<Option<Value>, VMError>(None)),
        step_instruction(s, VMInstruction::Call(a)) == (
            VmState { pc: a as usize, returns: s.returns.push((s.pc + 1) as usize), ..s },
            Ok::<Option<Value>, VMError>(None),
        ),
        s.returns.len() > 0 ==> step_instruction(s, VMInstruction::Return) == (
            VmState { pc: s.returns.last(), returns: s.returns.drop_last(), ..s },
            Ok::<Option<Value>, VMError>(None),
        ),
        s.returns.len() == 0 ==> step_instruction(s, VMInstruction::Return) == (s, Err::<Option<Value>, VMError>(VMError::StackExhausted)),
        s.stack.len() > 0 ==> step_instruction(s, VMInstruction::Exit) == (
            VmState { stack: s.stack.drop_last(), ..s },
            Ok::<Option<Value>, VMError>(Some(s.stack.last())),
        ),
        s.stack.len() > 0 && s.stack.last() is Int ==> step_instruction(s, VMInstruction::PopJump) == (
            VmState { stack: s.stack.drop_last(), pc: (s.stack.last()->Int_0) as usize, ..s },
            Ok::<Option<Value>, VMError>(None),
        ),
{
}

/// Law: the flag instructions. `push_overflow` and `push_div_zero` push the flag as a boolean;
/// `clear_overflow` and `clear_div_zero` clear their flag and `clear_err` both; `dbg_stack`
/// records the program counter and the stack. Each then moves on.
pub proof fn lemma_flag_instructions(s: VmState)
    ensures
        step_instruction(s, VMInstruction::PushOverflowFlag) == (moved_on(s, s.stack.push(Value::Bool(s.flags.overflow))), Ok::<Option<Value>, VMError>(None)),
        step_instruction(s, VMInstruction::PushDivisionByZeroFlag) == (moved_on(s, s.stack.push(Value::Bool(s.flags.division_by_zero))), Ok::<Option<Value>, VMError>(None)),
        step_instruction(s, VMInstruction::ClearOverflow) == (
            VmState { pc: (s.pc + 1) as usize, flags: FlagsState { overflow: false, ..s.flags }, ..s },
            Ok::<Option<Value>, VMError>(None),
        ),
        step_instruction(s, VMInstruction::ClearDivisionByZero) == (
            VmState { pc: (s.pc + 1) as usize, flags: FlagsState { division_by_zero: false, ..s.flags }, ..s },
            Ok::<Option<Value>, VMError>(None),
        ),
        step_instruction(s, VMInstruction::ClearErrorFlags) == (
            VmState { pc: (s.pc + 1) as usize, flags: FlagsState { overflow: false, division_by_zero: false }, ..s },
            Ok::<Option<Value>, VMError>(None),
        ),
        step_instruction(s, VMInstruction::DebugStack) == (
            VmState { pc: (s.pc + 1) as usize, debug_log: s.debug_log.push((s.pc, s.stack)), ..s },
            Ok::<Option<Value>, VMError>(None),
        ),
{
}

/// Law: rotations. `rotl n` and `rotr n` replace the integer on top by its bits rotated by `n`
/// (modulo 32). Rotating by 0 keeps the bits, rotating left by one moves the top bit to the
/// bottom, rotating by `k + 1` is rotating by `k` then by one, and rotating right undoes rotating
/// left.
pub proof fn lemma_rotations(s: VmState, x: i32, n: u8, k: u32)
    requires
        s.stack.len() >= 1,
        s.stack.last() == Value::Int(x),
    ensures
        step_instruction(s, VMInstruction::RotL(n)) == (
            moved_on(s, s.stack.drop_last().push(Value::Int(rotate_left_32(x, n as u32)))),
            Ok::<Option<Value>, VMError>(None),
        ),
        step_instruction(s, VMInstruction::RotR(n)) == (
            moved_on(s, s.stack.drop_last().push(Value::Int(rotate_right_32(x, n as u32)))),
            Ok::<Option<Value>, VMError>(None),
        ),
        rotate_left_32(x, 0) == x,
        rotate_left_32(x, k) == rotate_left_32(x, k % 32),
        rotate_left_32(x, 1) == ((((x as u32) as int * 2) % 0x1_0000_0000 + (x as u32) as int / 0x8000_0000) as u32) as i32,
        k < 31 ==> rotate_left_32(x, (k + 1) as u32) == rotate_left_32(rotate_left_32(x, k), 1),
        rotate_right_32(rotate_left_32(x, k), k) == x,
{
    assert(rotate_left_32(x, 0) == x) by (bit_vector);
    assert(rotate_left_32(x, k) == rotate_left_32(x, k % 32)) by (bit_vector);
    assert(rotate_left_32(x, 1) == ((((x as u32) * 2) % 0x1_0000_0000 + (x as u32) / 0x8000_0000) as u32) as i32) by (bit_vector);
    assert(k < 31 ==> rotate_left_32(x, (k + 1) as u32) == rotate_left_32(rotate_left_32(x, k), 1)) by (bit_vector);
    assert(rotate_right_32(rotate_left_32(x, k), k) == x) by (bit_vector);
}

/// Law: a step executes the instruction at the program counter, and fails with
/// `InvalidPCAddress`, changing nothing, when the program counter is outside the program.
pub proof fn lemma_step_fetches(s: VmState)
    ensures
        s.pc < s.program.len() ==> step(s) == step_instruction(s, s.program[s.pc as int]),
        s.pc >= s.program.len() ==> step(s) == (s, Err::<Option<Value>, VMError>(VMError::InvalidPCAddress)),
{
}

} // verus!
