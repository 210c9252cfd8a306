//! Properties of runs: sequences of steps from a machine state.
use crate::code::VMInstruction;
use crate::vm::run_within;
use crate::vm::semantics::{
    int_binop, int_unop, is_int_binop, out_of_i32, step, StepResult, VmState,
};
use crate::vm::{VMError, Value};
use vstd::prelude::*;

verus! {

/// The state after `n` steps from `s`, whatever each step returned (as after `n` calls of
/// `VM::single_step`).
pub open spec fn steps(s: VmState, n: nat) -> VmState
    decreases n,
{
    if n == 0 {
        s
    } else {
        step(steps(s, (n - 1) as nat)).0
    }
}

/// Whether step `n` from `s` is the first one that does not return `Ok(None)`.
pub open spec fn stops_at(s: VmState, n: nat) -> bool {
    &&& step(steps(s, n)).1 != Ok::<Option<Value>, VMError>(None)
    &&& forall|j: nat| j < n ==> #[trigger] step(steps(s, j)).1 == Ok::<Option<Value>, VMError>(None)
}

/// What `run` returns for the step result that stopped it.
pub open spec fn run_result(r: StepResult) -> Result<Value, VMError> {
    match r {
        Ok(Some(v)) => Ok(v),
        Err(e) => Err(e),
        Ok(None) => Err(VMError::StepLimitExceeded),
    }
}

proof fn lemma_steps_shift(s: VmState, j: nat)
    ensures
        steps(step(s).0, j) == steps(s, j + 1),
    decreases j,
{
    assert(steps(s, 0) == s);
    assert(steps(s, 1) == step(steps(s, 0)).0);
    if j > 0 {
        lemma_steps_shift(s, (j - 1) as nat);
        assert(steps(step(s).0, j) == step(steps(step(s).0, (j - 1) as nat)).0);
        assert(steps(s, j + 1) == step(steps(s, j)).0);
    }
}

/// Law: running is stepping repeatedly. Within `fuel` steps, `run_within` stops at the first
/// step that does not return `Ok(None)`, in the state that step leaves and with its exit value
/// or error; when every one of the `fuel` steps returns `Ok(None)`, it gives up in the state they
/// leave. (`VM::run` is `run_within` with `u64::MAX` steps.)
pub proof fn lemma_run_is_repeated_steps(s: VmState, fuel: nat)
    ensures
        forall|n: nat|
            n < fuel && #[trigger] stops_at(s, n) ==> run_within(s, fuel) == (
                step(steps(s, n)).0,
                run_result(step(steps(s, n)).1),
            ),
        (forall|j: nat| j < fuel ==> #[trigger] step(steps(s, j)).1 == Ok::<Option<Value>, VMError>(None))
            ==> run_within(s, fuel) == (steps(s, fuel), Err::<Value, VMError>(VMError::StepLimitExceeded)),
    decreases fuel,
{
    if fuel > 0 {
        let (s2, r) = step(s);
        assert(steps(s, 0) == s);
        if r != Ok::<Option<Value>, VMError>(None) {
            assert forall|n: nat| n < fuel && #[trigger] stops_at(s, n) implies run_within(s, fuel) == (
                step(steps(s, n)).0,
                run_result(step(steps(s, n)).1),
            ) by {
                if n > 0 {
                    assert(step(steps(s, 0)).1 == Ok::<Option<Value>, VMError>(None));
                }
            }
        } else {
            let f = (fuel - 1) as nat;
            lemma_run_is_repeated_steps(s2, f);
            assert forall|n: nat| n < fuel && #[trigger] stops_at(s, n) implies run_within(s, fuel) == (
                step(steps(s, n)).0,
                run_result(step(steps(s, n)).1),
            ) by {
                assert(n > 0);
                let m = (n - 1) as nat;
                lemma_steps_shift(s, m);
                assert forall|j: nat| j < m implies #[trigger] step(steps(s2, j)).1 == Ok::<
                    Option<Value>,
                    VMError,
                >(None) by {
                    lemma_steps_shift(s, j);
                    assert(step(steps(s, j + 1)).1 == Ok::<Option<Value>, VMError>(None));
                }
                assert(stops_at(s2, m));
            }
            if forall|j: nat| j < fuel ==> #[trigger] step(steps(s, j)).1 == Ok::<Option<Value>, VMError>(None) {
                assert forall|j: nat| j < f implies #[trigger] step(steps(s2, j)).1 == Ok::<
                    Option<Value>,
                    VMError,
                >(None) by {
                    lemma_steps_shift(s, j);
                    assert(step(steps(s, j + 1)).1 == Ok::<Option<Value>, VMError>(None));
                }
                lemma_steps_shift(s, f);
            }
        }
    }
}

/// The instruction at the program counter, if there is one.
pub open spec fn current_instruction(s: VmState) -> Option<VMInstruction> {
    if s.pc < s.program.len() {
        Some(s.program[s.pc as int])
    } else {
        None
    }
}

pub open spec fn clears_overflow(i: VMInstruction) -> bool {
    i == VMInstruction::ClearOverflow || i == VMInstruction::ClearErrorFlags
}

pub open spec fn clears_division_by_zero(i: VMInstruction) -> bool {
    i == VMInstruction::ClearDivisionByZero || i == VMInstruction::ClearErrorFlags
}

/// Whether the step from `s` executes an instruction that clears the overflow flag.
pub open spec fn clears_overflow_at(s: VmState) -> bool {
    current_instruction(s) matches Some(i) && clears_overflow(i)
}

/// Whether the step from `s` executes an instruction that clears the division-by-zero flag.
pub open spec fn clears_division_by_zero_at(s: VmState) -> bool {
    current_instruction(s) matches Some(i) && clears_division_by_zero(i)
}

/// Whether the two-operand arithmetic instruction `i`, with top operand `a` over `b`, has an
/// exact result outside `i32`.
pub open spec fn binop_overflows(i: VMInstruction, a: i32, b: i32) -> bool {
    match i {
        VMInstruction::AddUnchecked | VMInstruction::AddChecked => out_of_i32(a + b),
        VMInstruction::SubUnchecked | VMInstruction::SubChecked => out_of_i32(a - b),
        VMInstruction::MulUnchecked | VMInstruction::MulChecked => out_of_i32(a * b),
        VMInstruction::DivChecked => a == i32::MIN && b == -1,
        _ => false,
    }
}

/// Whether the step from `s` executes arithmetic on integer operands whose exact result does
/// not fit in `i32` (checked or unchecked).
pub open spec fn raises_overflow(s: VmState) -> bool {
    let n = s.stack.len();
    match current_instruction(s) {
        Some(i) => if is_int_binop(i) {
            n >= 2 && match (s.stack[n - 1], s.stack[n - 2]) {
                (Value::Int(a), Value::Int(b)) => binop_overflows(i, a, b),
                _ => false,
            }
        } else if i == VMInstruction::NegUnchecked || i == VMInstruction::NegChecked {
            n >= 1 && s.stack[n - 1] == Value::Int(i32::MIN)
        } else {
            false
        },
        None => false,
    }
}

/// Whether the step from `s` executes `divc` with an integer divisor of zero below an integer.
pub open spec fn raises_division_by_zero(s: VmState) -> bool {
    let n = s.stack.len();
    current_instruction(s) == Some(VMInstruction::DivChecked) && n >= 2
        && s.stack[n - 1] is Int && s.stack[n - 2] == Value::Int(0)
}

/// `checked_div` fails, for a non-zero divisor, exactly on `i32::MIN / -1`.
pub proof fn lemma_checked_div_fails(a: i32, b: i32)
    requires
        b != 0,
    ensures
        a.checked_div(b) is None <==> (a == i32::MIN && b == -1),
{
    let x = a as int;
    let d = b as int;
    let output = if x == 0 {
        0
    } else if x > 0 && d > 0 {
        x / d
    } else if x < 0 && d < 0 {
        ((x * -1) / (d * -1))
    } else if x < 0 {
        ((x * -1) / d) * -1
    } else {
        (x / (d * -1)) * -1
    };
    assert(a.checked_div(b) == if output < i32::MIN || output > i32::MAX {
        None
    } else {
        Some(output as i32)
    });
    if x < 0 && d < 0 {
        if d == -1 {
            assert(d * -1 == 1);
            assert((x * -1) / 1 == x * -1);
        } else {
            assert(0 <= (x * -1) / (d * -1) <= (x * -1) / 2) by (nonlinear_arith)
                requires
                    x < 0,
                    d <= -2,
            ;
        }
    } else if x < 0 {
        assert(0 <= (x * -1) / d <= x * -1) by (nonlinear_arith)
            requires
                x < 0,
                d > 0,
        ;
    } else if x > 0 {
        if d > 0 {
            assert(0 <= x / d <= x) by (nonlinear_arith)
                requires
                    x > 0,
                    d > 0,
            ;
        } else {
            assert(0 <= x / (d * -1) <= x) by (nonlinear_arith)
                requires
                    x > 0,
                    d < 0,
            ;
        }
    }
}

#[verifier::rlimit(40)]
proof fn lemma_step_overflow_flag(s: VmState)
    ensures
        step(s).0.flags.overflow == (!clears_overflow_at(s) && (s.flags.overflow || raises_overflow(s))),
{
    if s.pc < s.program.len() {
        let i = s.program[s.pc as int];
        let n = s.stack.len();
        if is_int_binop(i) && n >= 2 {
            if let (Value::Int(a), Value::Int(b)) = (s.stack[n - 1], s.stack[n - 2]) {
                if i == VMInstruction::DivChecked && b != 0 {
                    lemma_checked_div_fails(a, b);
                }
                assert(s.stack.drop_last().last() == s.stack[n - 2]);
                assert(int_binop(i, a, b).1 == binop_overflows(i, a, b));
            }
        }
        if n >= 1 {
            if let Value::Int(a) = s.stack[n - 1] {
                assert(int_unop(i, a).1 == ((i == VMInstruction::NegUnchecked || i
                    == VMInstruction::NegChecked) && a == i32::MIN));
            }
        }
    }
}

#[verifier::rlimit(40)]
proof fn lemma_step_division_flag(s: VmState)
    ensures
        step(s).0.flags.division_by_zero == (!clears_division_by_zero_at(s) && (
        s.flags.division_by_zero || raises_division_by_zero(s))),
{
    if s.pc < s.program.len() {
        let n = s.stack.len();
        if n >= 2 {
            assert(s.stack.drop_last().last() == s.stack[n - 2]);
        }
    }
}

/// Law: the overflow flag over a run. After `n` steps from `s`, the flag is set exactly when
/// either it was set in `s` and no step cleared it, or some step raised it (arithmetic whose
/// exact result does not fit in `i32`) and no later step cleared it.
pub proof fn lemma_overflow_flag_over_steps(s: VmState, n: nat)
    ensures
        steps(s, n).flags.overflow <==> (s.flags.overflow && forall|j: nat|
            j < n ==> !#[trigger] clears_overflow_at(steps(s, j))) || exists|k: nat|
            k < n && #[trigger] raises_overflow(steps(s, k)) && forall|j: nat|
                k < j < n ==> !#[trigger] clears_overflow_at(steps(s, j)),
    decreases n,
{
    if n > 0 {
        let m = (n - 1) as nat;
        lemma_overflow_flag_over_steps(s, m);
        let t = steps(s, m);
        lemma_step_overflow_flag(t);
        if clears_overflow_at(t) {
            assert forall|k: nat| k < n && #[trigger] raises_overflow(steps(s, k)) implies !(forall|j: nat|
                k < j < n ==> !#[trigger] clears_overflow_at(steps(s, j))) by {
                if k == m {
                    assert(!raises_overflow(t));
                } else {
                    assert(clears_overflow_at(steps(s, m)));
                }
            }
        } else {
            if exists|k: nat|
                k < m && #[trigger] raises_overflow(steps(s, k)) && forall|j: nat|
                    k < j < m ==> !#[trigger] clears_overflow_at(steps(s, j)) {
                let k = choose|k: nat|
                    k < m && #[trigger] raises_overflow(steps(s, k)) && forall|j: nat|
                        k < j < m ==> !#[trigger] clears_overflow_at(steps(s, j));
                assert forall|j: nat| k < j < n implies !#[trigger] clears_overflow_at(steps(s, j)) by {
                    if j == m {
                        assert(steps(s, j) == t);
                    }
                }
            }
            if raises_overflow(t) {
                assert forall|j: nat| m < j < n implies !#[trigger] clears_overflow_at(steps(s, j)) by {}
                assert(raises_overflow(steps(s, m)));
            }
            if exists|k: nat|
                k < n && #[trigger] raises_overflow(steps(s, k)) && forall|j: nat|
                    k < j < n ==> !#[trigger] clears_overflow_at(steps(s, j)) {
                let k = choose|k: nat|
                    k < n && #[trigger] raises_overflow(steps(s, k)) && forall|j: nat|
                        k < j < n ==> !#[trigger] clears_overflow_at(steps(s, j));
                if k < m {
                    assert forall|j: nat| k < j < m implies !#[trigger] clears_overflow_at(steps(s, j)) by {
                        assert(k < j < n);
                    }
                }
            }
            if s.flags.overflow && forall|j: nat| j < m ==> !#[trigger] clears_overflow_at(steps(s, j)) {
                assert forall|j: nat| j < n implies !#[trigger] clears_overflow_at(steps(s, j)) by {
                    if j == m {
                        assert(steps(s, j) == t);
                    }
                }
            }
            if s.flags.overflow && forall|j: nat| j < n ==> !#[trigger] clears_overflow_at(steps(s, j)) {
                assert forall|j: nat| j < m implies !#[trigger] clears_overflow_at(steps(s, j)) by {
                    assert(j < n);
                }
            }
        }
    }
}

/// Law: the division-by-zero flag over a run. After `n` steps from `s`, the flag is set exactly
/// when either it was set in `s` and no step cleared it, or some step raised it (`divc` with an
/// integer divisor of zero) and no later step cleared it.
pub proof fn lemma_division_flag_over_steps(s: VmState, n: nat)
    ensures
        steps(s, n).flags.division_by_zero <==> (s.flags.division_by_zero && forall|j: nat|
            j < n ==> !#[trigger] clears_division_by_zero_at(steps(s, j))) || exists|k: nat|
            k < n && #[trigger] raises_division_by_zero(steps(s, k)) && forall|j: nat|
                k < j < n ==> !#[trigger] clears_division_by_zero_at(steps(s, j)),
    decreases n,
{
    if n > 0 {
        let m = (n - 1) as nat;
        lemma_division_flag_over_steps(s, m);
        let t = steps(s, m);
        lemma_step_division_flag(t);
        if clears_division_by_zero_at(t) {
            assert forall|k: nat| k < n && #[trigger] raises_division_by_zero(steps(s, k)) implies !(forall|j: nat|
                k < j < n ==> !#[trigger] clears_division_by_zero_at(steps(s, j))) by {
                if k == m {
                    assert(!raises_division_by_zero(t));
                } else {
                    assert(clears_division_by_zero_at(steps(s, m)));
                }
            }
        } else {
            if exists|k: nat|
                k < m && #[trigger] raises_division_by_zero(steps(s, k)) && forall|j: nat|
                    k < j < m ==> !#[trigger] clears_division_by_zero_at(steps(s, j)) {
                let k = choose|k: nat|
                    k < m && #[trigger] raises_division_by_zero(steps(s, k)) && forall|j: nat|
                        k < j < m ==> !#[trigger] clears_division_by_zero_at(steps(s, j));
                assert forall|j: nat| k < j < n implies !#[trigger] clears_division_by_zero_at(steps(s, j)) by {
                    if j == m {
                        assert(steps(s, j) == t);
                    }
                }
            }
            if raises_division_by_zero(t) {
                assert forall|j: nat| m < j < n implies !#[trigger] clears_division_by_zero_at(steps(s, j)) by {}
                assert(raises_division_by_zero(steps(s, m)));
            }
            if exists|k: nat|
                k < n && #[trigger] raises_division_by_zero(steps(s, k)) && forall|j: nat|
                    k < j < n ==> !#[trigger] clears_division_by_zero_at(steps(s, j)) {
                let k = choose|k: nat|
                    k < n && #[trigger] raises_division_by_zero(steps(s, k)) && forall|j: nat|
                        k < j < n ==> !#[trigger] clears_division_by_zero_at(steps(s, j));
                if k < m {
                    assert forall|j: nat| k < j < m implies !#[trigger] clears_division_by_zero_at(steps(s, j)) by {
                        assert(k < j < n);
                    }
                }
            }
            if s.flags.division_by_zero && forall|j: nat| j < m ==> !#[trigger] clears_division_by_zero_at(steps(s, j)) {
                assert forall|j: nat| j < n implies !#[trigger] clears_division_by_zero_at(steps(s, j)) by {
                    if j == m {
                        assert(steps(s, j) == t);
                    }
                }
            }
            if s.flags.division_by_zero && forall|j: nat| j < n ==> !#[trigger] clears_division_by_zero_at(steps(s, j)) {
                assert forall|j: nat| j < m implies !#[trigger] clears_division_by_zero_at(steps(s, j)) by {
                    assert(j < n);
                }
            }
        }
    }
}

} // verus!
