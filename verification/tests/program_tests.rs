use simple_vm::assembler::error::AssemblerError;
use simple_vm::assembler::Assembler;
use simple_vm::code::VMInstruction;
use simple_vm::vm::{VMError, Value, VM};

fn run_code(source: &str) -> Result<Value, String> {
    let assembled = Assembler::new(source)
        .assemble()
        .map_err(|e| format!("Assembling: {:?}", e))?;
    let mut vm = VM::new();
    vm.load_program(assembled.program, assembled.entry);
    let r = vm.run().map_err(|e| format!("VM Run: {:?}", e))?;
    Ok(r)
}

#[test]
fn test1() {
    let asm_test = r"
:loc_2
    jmp loc_1


:ret_2
    divc
    push 10
    mulc
    push 1
    addc
    push 26
    subu
    exit

:main
    push 2
    push 5
    addu
    push 3
    mulc
    negu
    push -4
    jmp loc_2
:loc_1
    dbg_stack
    swap
    dbg_stack
    jmp ret_2
";

    let r = run_code(asm_test).unwrap();
    assert_eq!(r, Value::Int(-25));
}

#[test]
fn test2() {
    let asm_test = r"
        :main
    push 10
    push 32
    shl 2        # 32 << 2 = 128
    addu
    exit         # exits with 138
        ";

    let r = run_code(asm_test).unwrap();
    assert_eq!(r, Value::Int(138));
}

#[test]
fn call_stack_test() {
    let test_asm = r"
        # Same example from main

:swap_dbg
    dbg_stack
    swap
    dbg_stack
    ret

:main
    push 2
    push 5
    addu
    push 3
    mulc
    negu
    push -4
    jmp loc_2
:loc_1
    call swap_dbg
    jmp ret_2

:loc_2
    jmp loc_1


:ret_2
    divc
    push 10
    mulc
    push 1
    addc
    push 26
    subu
    exit
# Should exit with Value::Int(-25)
";
    let r = run_code(test_asm).unwrap();
    assert_eq!(r, Value::Int(-25));
}

#[test]
fn test_and() {
    let test_asm = r"
        :main
            push 0xFF
            push 0
            and
            exit
        ";
    let r = run_code(test_asm).unwrap();
    assert_eq!(r, Value::Int(0));
}

#[test]
fn test_or() {
    let test_asm = r"
        :main
            push 0x0F
            push 0xF0
            or
            exit
        ";
    let r = run_code(test_asm).unwrap();
    assert_eq!(r, Value::Int(0xFF));
}

#[test]
fn test_xor() {
    let test_asm = r"
        :main
            push 0xFF
            push 0xF0
            xor
            exit
        ";
    let r = run_code(test_asm).unwrap();
    assert_eq!(r, Value::Int(0xF));
}

#[test]
fn test_not() {
    let test_asm = r"
        :main
            push true
            not
            exit
        ";
    let r = run_code(test_asm).unwrap();
    assert_eq!(r, Value::Bool(false));
}

#[test]
fn test_pick() {
    let test_asm = r"
        :main
            push 10
            push 20
            push 30

            # after those pushes, the stack will be [10, 20, 30]
            #                              indexes:  2   1   0
            pick 2
            exit
        ";
    let r = run_code(test_asm).unwrap();
    assert_eq!(r, Value::Int(10));
}

#[test]
fn test_move() {
    let test_asm = r"
        :main
            push 10
            push 20
            push 30

            # after those pushes, the stack will be [10, 20, 30]
            #                              indexes:  2   1   0
            move 1
            # should be [10, 30, 20]
            exit
        ";
    let r = run_code(test_asm).unwrap();
    assert_eq!(r, Value::Int(20));
}

fn run_err(source: &str) -> VMError {
    let assembled = Assembler::new(source).assemble().unwrap();
    let mut vm = VM::new();
    vm.load_program(assembled.program, assembled.entry);
    vm.run().unwrap_err()
}

#[test]
fn checked_division_of_min_by_minus_one_overflows() {
    let source = ":main\n push 0x80000000\n push -1\n swap\n divc\n exit";
    let assembled = Assembler::new(source).assemble().unwrap();
    let mut vm = VM::new();
    vm.load_program(assembled.program, assembled.entry);
    assert_eq!(vm.run(), Err(VMError::Overflow));
    assert!(vm.error_flags().overflow());
    assert!(!vm.error_flags().division_by_zero());
}

#[test]
fn division_by_zero_is_an_error_and_raises_its_flag() {
    let source = ":main\n push 0\n push 7\n divc\n exit";
    let assembled = Assembler::new(source).assemble().unwrap();
    let mut vm = VM::new();
    vm.load_program(assembled.program, assembled.entry);
    assert_eq!(vm.run(), Err(VMError::DivisionByZero));
    assert!(vm.error_flags().division_by_zero());
    assert!(!vm.error_flags().overflow());
}

#[test]
fn checked_and_unchecked_arithmetic_on_overflow() {
    assert_eq!(
        run_code(":main\n push 1\n push 0x7FFFFFFF\n addu\n exit").unwrap(),
        Value::Int(i32::MIN)
    );
    assert_eq!(
        run_err(":main\n push 1\n push 0x7FFFFFFF\n addc\n exit"),
        VMError::Overflow
    );
    assert_eq!(
        run_code(":main\n push 0x80000000\n negu\n exit").unwrap(),
        Value::Int(i32::MIN)
    );
    assert_eq!(
        run_err(":main\n push 0x80000000\n negc\n exit"),
        VMError::Overflow
    );
}

#[test]
fn unchecked_overflow_sets_the_sticky_flag() {
    let source = ":main\n push 1\n push 0x7FFFFFFF\n addu\n push 1\n push 1\n addu\n push_overflow\n exit";
    assert_eq!(run_code(source).unwrap(), Value::Bool(true));
    let cleared = ":main\n push 1\n push 0x7FFFFFFF\n addu\n clear_overflow\n push_overflow\n exit";
    assert_eq!(run_code(cleared).unwrap(), Value::Bool(false));
}

#[test]
fn type_errors() {
    assert_eq!(run_err(":main\n push true\n push 1\n addu\n exit"), VMError::ExpectedInt);
    assert_eq!(run_err(":main\n push 1\n jt done\n:done\n exit"), VMError::ExpectedBool);
    assert_eq!(
        run_err(":main\n push true\n push 1\n and\n exit"),
        VMError::MismatchedOperands
    );
    assert_eq!(run_err(":main\n push 1\n push 2\n lt\n push 3\n gt\n exit"), VMError::MismatchedOperands);
}

#[test]
fn shift_by_32_or_more_is_invalid() {
    assert_eq!(run_err(":main\n push 1\n shl 32\n exit"), VMError::InvalidShiftAmount);
    let mut vm = VM::new();
    vm.load_program(
        vec![
            VMInstruction::PushImm(Value::Int(1)),
            VMInstruction::ShiftR(200),
            VMInstruction::Exit,
        ],
        0,
    );
    assert_eq!(vm.run(), Err(VMError::InvalidShiftAmount));
    assert_eq!(run_code(":main\n push -8\n shr 1\n exit").unwrap(), Value::Int(-4));
}

#[test]
fn rotations_wrap_bits_around() {
    assert_eq!(run_code(":main\n push 1\n rotr 1\n exit").unwrap(), Value::Int(i32::MIN));
    assert_eq!(run_code(":main\n push 0x80000000\n rotl 1\n exit").unwrap(), Value::Int(1));
}

#[test]
fn running_off_the_program_is_an_invalid_address() {
    assert_eq!(run_err(":main\n push 1"), VMError::InvalidPCAddress);
}

#[test]
fn popping_an_empty_stack_is_exhaustion() {
    assert_eq!(run_err(":main\n pop\n exit"), VMError::StackExhausted);
    assert_eq!(run_err(":main\n push 1\n pick 1\n exit"), VMError::StackExhausted);
    assert_eq!(run_err(":main\n ret"), VMError::StackExhausted);
}

#[test]
fn comparisons_push_booleans() {
    // the top operand is compared against the one below it
    assert_eq!(run_code(":main\n push 5\n push 3\n lt\n exit").unwrap(), Value::Bool(true));
    assert_eq!(run_code(":main\n push 5\n push 3\n gteq\n exit").unwrap(), Value::Bool(false));
    assert_eq!(run_code(":main\n push 1\n push true\n eq\n exit").unwrap(), Value::Bool(false));
    assert_eq!(run_code(":main\n push 'a'\n push 97\n eq\n exit").unwrap(), Value::Bool(true));
}

#[test]
fn conditional_jumps() {
    let source = ":main\n push 0\n jz yes\n push 1\n exit\n:yes\n push 2\n exit";
    assert_eq!(run_code(source).unwrap(), Value::Int(2));
    let source = ":main\n push false\n jt yes\n push 1\n exit\n:yes\n push 2\n exit";
    assert_eq!(run_code(source).unwrap(), Value::Int(1));
}

#[test]
fn swap_twice_restores_the_stack() {
    let source = ":main\n push 1\n push 2\n swap\n swap\n exit";
    assert_eq!(run_code(source).unwrap(), Value::Int(2));
}

#[test]
fn pick_zero_duplicates_the_top() {
    let source = ":main\n push 7\n pick 0\n addu\n exit";
    assert_eq!(run_code(source).unwrap(), Value::Int(14));
}

#[test]
fn debug_log_records_each_snapshot() {
    let source = ":main\n push 1\n dbg_stack\n push 2\n dbg_stack\n exit";
    let assembled = Assembler::new(source).assemble().unwrap();
    let mut vm = VM::new();
    vm.load_program(assembled.program, assembled.entry);
    assert_eq!(vm.run(), Ok(Value::Int(2)));
    let log = vm.take_debug_log();
    assert_eq!(log.len(), 2);
    assert_eq!(log[0].pc, 1);
    assert_eq!(log[0].stack, vec![Value::Int(1)]);
    assert_eq!(log[1].pc, 3);
    assert_eq!(log[1].stack, vec![Value::Int(1), Value::Int(2)]);
    assert!(vm.take_debug_log().is_empty());
}

#[test]
fn single_step_reports_exit() {
    let assembled = Assembler::new(":main\n push 3\n exit").assemble().unwrap();
    let mut vm = VM::new();
    vm.load_program(assembled.program, assembled.entry);
    assert_eq!(vm.single_step(), Ok(None));
    assert_eq!(vm.single_step(), Ok(Some(Value::Int(3))));
}

#[test]
fn failed_assembly_reports_the_stage() {
    assert!(matches!(
        Assembler::new(":main\n push ?").assemble(),
        Err(AssemblerError::TokenizeError(..))
    ));
    assert!(matches!(
        Assembler::new("push 1").assemble(),
        Err(AssemblerError::ParseError(..))
    ));
}

#[test]
fn value_conversions_and_order() {
    assert_eq!(Value::from(5), Value::Int(5));
    assert_eq!(Value::from(true), Value::Bool(true));
    assert!(Value::Int(1) < Value::Int(2));
    assert_eq!(Value::Int(1).partial_cmp(&Value::Bool(true)), None);
}

#[test]
fn a_failed_step_stays_at_the_failing_instruction() {
    let assembled = Assembler::new(":main\n pop\n exit").assemble().unwrap();
    let mut vm = VM::new();
    vm.load_program(assembled.program, assembled.entry);
    assert_eq!(vm.single_step(), Err(VMError::StackExhausted));
    assert_eq!(vm.single_step(), Err(VMError::StackExhausted));
}

#[test]
fn checked_and_unchecked_agree_without_overflow() {
    for op in ["add", "sub", "mul"] {
        let checked = format!(":main\n push 6\n push -7\n {}c\n exit", op);
        let unchecked = format!(":main\n push 6\n push -7\n {}u\n exit", op);
        assert_eq!(run_code(&checked).unwrap(), run_code(&unchecked).unwrap());
    }
    assert_eq!(run_code(":main\n push 6\n push -7\n mulc\n exit").unwrap(), Value::Int(-42));
    assert_eq!(run_code(":main\n push 9\n negc\n exit").unwrap(), Value::Int(-9));
}

#[test]
fn move_zero_keeps_the_stack() {
    let source = ":main\n push 1\n push 2\n move 0\n exit";
    assert_eq!(run_code(source).unwrap(), Value::Int(2));
}

#[test]
fn loading_a_program_clears_the_flags() {
    let assembled = Assembler::new(":main\n push 0\n push 1\n divc\n exit").assemble().unwrap();
    let mut vm = VM::new();
    vm.load_program(assembled.program, assembled.entry);
    assert_eq!(vm.run(), Err(VMError::DivisionByZero));
    assert!(vm.error_flags().division_by_zero());
    let again = Assembler::new(":main\n push_div_zero\n exit").assemble().unwrap();
    vm.load_program(again.program, again.entry);
    assert!(!vm.error_flags().division_by_zero());
    assert_eq!(vm.run(), Ok(Value::Bool(false)));
}

#[test]
fn stacked_labels_bind_to_the_same_instruction() {
    let source = ":main\n jmp b\n push 1\n:a\n:b\n push 2\n exit";
    assert_eq!(run_code(source).unwrap(), Value::Int(2));
}

#[test]
fn rotation_by_33_rotates_by_1() {
    assert_eq!(run_code(":main\n push 1\n rotl 33\n exit").unwrap(), Value::Int(2));
}
