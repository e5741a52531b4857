use bytevm::{Fault, FaultKind, Instruction, Program, StdFunc, VM};

const AMPLE: u64 = 1_000_000;

fn run_to_end(program: &Program) -> (VM, Vec<u8>, Result<bool, Fault>) {
    let mut vm = VM::new();
    let mut out: Vec<u8> = Vec::new();
    let r = vm.execute(program, &mut out, AMPLE);
    (vm, out, r)
}

#[test]
fn push_pop_lifo() {
    let mut vm = VM::new();
    assert!(vm.stack_push(1).is_ok());
    assert!(vm.stack_push(2).is_ok());
    assert!(vm.stack_push(3).is_ok());
    assert_eq!(vm.stack_pop(), Ok(3));
    assert!(vm.stack_push(4).is_ok());
    assert_eq!(vm.stack_pop(), Ok(4));
    assert_eq!(vm.stack_pop(), Ok(2));
    assert_eq!(vm.stack_pop(), Ok(1));
    assert_eq!(vm.stack_pointer(), 0);
}

#[test]
fn push_then_pop_instructions_restore_stack() {
    let mut program = Program::new();
    program.push(Instruction::Push(9));
    program.push(Instruction::Push(55));
    program.push(Instruction::Pop);
    let (mut vm, _, r) = run_to_end(&program);
    assert_eq!(r, Ok(true));
    assert_eq!(vm.stack_pointer(), 1);
    assert_eq!(vm.stack_pop(), Ok(9));
}

#[test]
fn add_sets_overflow_flag_iff_wrapped() {
    let mut program = Program::new();
    program.push(Instruction::Push(100));
    program.push(Instruction::Push(200));
    program.push(Instruction::Add);
    let (vm, _, r) = run_to_end(&program);
    assert_eq!(r, Ok(true));
    assert_eq!(vm.stack_pointer(), 1);
    assert_eq!(vm.stack_at(0), 44); // 200 + 100 wraps to 44
    assert!(vm.overflow());

    let mut program2 = Program::new();
    program2.push(Instruction::Push(100));
    program2.push(Instruction::Push(100));
    program2.push(Instruction::Add);
    let (vm2, _, r2) = run_to_end(&program2);
    assert_eq!(r2, Ok(true));
    assert_eq!(vm2.stack_at(0), 200);
    assert!(!vm2.overflow());
}

#[test]
fn sub_sets_overflow_flag_iff_wrapped() {
    // lhs is the first pop, the top of the stack
    let mut program = Program::new();
    program.push(Instruction::Push(5));
    program.push(Instruction::Push(3));
    program.push(Instruction::Sub); // 3 - 5 wraps
    let (vm, _, r) = run_to_end(&program);
    assert_eq!(r, Ok(true));
    assert_eq!(vm.stack_at(0), 254);
    assert!(vm.overflow());

    let mut program2 = Program::new();
    program2.push(Instruction::Push(3));
    program2.push(Instruction::Push(5));
    program2.push(Instruction::Sub); // 5 - 3 does not wrap
    let (vm2, _, r2) = run_to_end(&program2);
    assert_eq!(r2, Ok(true));
    assert_eq!(vm2.stack_at(0), 2);
    assert!(!vm2.overflow());
}

#[test]
fn mul_wraps_and_leaves_the_flag_alone() {
    // Set the flag with an Add first; Mul must not touch it.
    let mut program = Program::new();
    program.push(Instruction::Push(200));
    program.push(Instruction::Push(100));
    program.push(Instruction::Add); // wraps, flag set
    program.push(Instruction::Push(32));
    program.push(Instruction::Mul); // 32 * 44 = 1408 wraps to 128
    let (vm, _, r) = run_to_end(&program);
    assert_eq!(r, Ok(true));
    assert_eq!(vm.stack_pointer(), 1);
    assert_eq!(vm.stack_at(0), 128);
    assert!(vm.overflow());
}

#[test]
fn div_divides_top_by_second() {
    let mut program = Program::new();
    program.push(Instruction::Push(7));
    program.push(Instruction::Push(23));
    program.push(Instruction::Div); // 23 / 7 = 3
    let (vm, _, r) = run_to_end(&program);
    assert_eq!(r, Ok(true));
    assert_eq!(vm.stack_pointer(), 1);
    assert_eq!(vm.stack_at(0), 3);
}

#[test]
fn push_string_pops_in_forward_order_then_zero() {
    let mut program = Program::new();
    program.push(Instruction::PushStr("abc"));
    let mut vm = VM::new();
    let mut out: Vec<u8> = Vec::new();
    assert_eq!(vm.execute_one(&program, &mut out), Ok(true));
    assert_eq!(vm.stack_pointer(), 4);
    assert_eq!(vm.stack_pop(), Ok(b'a'));
    assert_eq!(vm.stack_pop(), Ok(b'b'));
    assert_eq!(vm.stack_pop(), Ok(b'c'));
    assert_eq!(vm.stack_pop(), Ok(0));
    assert_eq!(vm.stack_pointer(), 0);
    assert!(out.is_empty());
}

#[test]
fn compare_jumps_restore_operands_in_order() {
    // Branch not taken: JmpEq on unequal operands.
    let mut program = Program::new();
    program.push(Instruction::Push(10));
    program.push(Instruction::Push(4));
    program.push(Instruction::JmpEq(7));
    let mut vm = VM::new();
    let mut out: Vec<u8> = Vec::new();
    for _ in 0..3 {
        assert_eq!(vm.execute_one(&program, &mut out), Ok(true));
    }
    assert_eq!(vm.program_pointer(), 3); // fell through
    assert_eq!(vm.stack_pointer(), 2);
    assert_eq!(vm.stack_at(0), 10);
    assert_eq!(vm.stack_at(1), 4);

    // Branch taken: JmpEq on equal operands.
    let mut program2 = Program::new();
    program2.push(Instruction::Push(4));
    program2.push(Instruction::Push(4));
    program2.push(Instruction::JmpEq(9));
    let mut vm2 = VM::new();
    for _ in 0..3 {
        assert_eq!(vm2.execute_one(&program2, &mut out), Ok(true));
    }
    assert_eq!(vm2.program_pointer(), 9); // redirected, no extra advance
    assert_eq!(vm2.stack_pointer(), 2);
    assert_eq!(vm2.stack_at(0), 4);
    assert_eq!(vm2.stack_at(1), 4);

    // JmpNeq taken on unequal operands.
    let mut program3 = Program::new();
    program3.push(Instruction::Push(1));
    program3.push(Instruction::Push(2));
    program3.push(Instruction::JmpNeq(5));
    let mut vm3 = VM::new();
    for _ in 0..3 {
        assert_eq!(vm3.execute_one(&program3, &mut out), Ok(true));
    }
    assert_eq!(vm3.program_pointer(), 5);
    assert_eq!(vm3.stack_pointer(), 2);
    assert_eq!(vm3.stack_at(0), 1);
    assert_eq!(vm3.stack_at(1), 2);
}

#[test]
fn push_at_capacity_overflows() {
    let mut vm = VM::new();
    for i in 0..128 {
        assert_eq!(vm.stack_push(i as u8), Ok(()));
    }
    assert_eq!(vm.stack_push(1), Err(FaultKind::StackOverflow));
    assert_eq!(vm.stack_pointer(), 128);

    // The same through the engine, with the fault report.
    let mut program = Program::new();
    program.push(Instruction::Push(1));
    let mut out: Vec<u8> = Vec::new();
    let r = vm.execute_one(&program, &mut out);
    let fault = r.unwrap_err();
    assert_eq!(fault.kind, FaultKind::StackOverflow);
    assert_eq!(fault.position, 0);
    assert!(matches!(fault.instruction, Instruction::Push(1)));
}

#[test]
fn pop_on_empty_underflows() {
    let mut vm = VM::new();
    assert_eq!(vm.stack_pop(), Err(FaultKind::StackUnderflow));

    let mut program = Program::new();
    program.push(Instruction::Pop);
    let (_, _, r) = run_to_end(&program);
    let fault = r.unwrap_err();
    assert_eq!(fault.kind, FaultKind::StackUnderflow);
    assert_eq!(fault.position, 0);
}

#[test]
fn division_by_zero_faults() {
    let mut program = Program::new();
    program.push(Instruction::Push(0));
    program.push(Instruction::Push(8));
    program.push(Instruction::Div);
    let (vm, _, r) = run_to_end(&program);
    let fault = r.unwrap_err();
    assert_eq!(fault.kind, FaultKind::DivisionByZero);
    assert_eq!(fault.position, 2);
    assert!(matches!(fault.instruction, Instruction::Div));
    // The machine stands exactly where the fault struck.
    assert_eq!(vm.stack_pointer(), 2);
    assert_eq!(vm.program_pointer(), 2);
}

#[test]
fn unknown_standard_call_id_faults() {
    let mut program = Program::new();
    program.push(Instruction::Push(1));
    program.push(Instruction::StdCall(4));
    let (_, _, r) = run_to_end(&program);
    let fault = r.unwrap_err();
    assert_eq!(fault.kind, FaultKind::InvalidStandardCallId);
    assert_eq!(fault.position, 1);
}

#[test]
fn hello_program_prints_and_halts_with_empty_stack() {
    let mut program = Program::new();
    program.push(Instruction::PushStr("Hi\n"));
    program.push(Instruction::StdCall(StdFunc::PrintString.id()));
    let (vm, out, r) = run_to_end(&program);
    assert_eq!(r, Ok(true)); // halted via the implicit terminator past the end
    assert_eq!(out, b"Hi\n".to_vec());
    assert_eq!(vm.stack_pointer(), 0);
    assert_eq!(vm.program_pointer(), 2);
}

#[test]
fn counting_loop_runs_ten_iterations() {
    // i = 0; while i != 10 { i += 1 }  -- target and counter both end at 10.
    let mut program = Program::new();
    program.push(Instruction::Push(10)); // 0
    program.push(Instruction::Push(0)); // 1
    program.push(Instruction::JmpEq(6)); // 2: equal -> past the end, halts
    program.push(Instruction::Push(1)); // 3
    program.push(Instruction::Add); // 4
    program.push(Instruction::Jmp(2)); // 5
    let mut vm = VM::new();
    let mut out: Vec<u8> = Vec::new();
    let mut adds = 0usize;
    let mut steps = 0usize;
    loop {
        if matches!(program.get(vm.program_pointer()), Instruction::Add) {
            adds += 1;
        }
        let r = vm.execute_one(&program, &mut out);
        match r {
            Ok(true) => steps += 1,
            Ok(false) => break,
            Err(f) => panic!("unexpected fault: {:?}", f.kind),
        }
        assert!(steps < 1000);
    }
    assert_eq!(adds, 10); // exactly ten loop iterations
    assert_eq!(steps, 43); // 2 setup + 10 * 4 + the final taken comparison
    assert_eq!(vm.stack_pointer(), 2);
    assert_eq!(vm.stack_at(0), 10);
    assert_eq!(vm.stack_at(1), 10);
    assert!(out.is_empty());
}

#[test]
fn print_u8_writes_decimal() {
    for (value, expected) in [(0u8, "0"), (7, "7"), (42, "42"), (200, "200"), (255, "255")] {
        let mut program = Program::new();
        program.push(Instruction::Push(value));
        program.push(Instruction::StdCall(StdFunc::PrintU8.id()));
        let (vm, out, r) = run_to_end(&program);
        assert_eq!(r, Ok(true));
        assert_eq!(out, expected.as_bytes().to_vec());
        assert_eq!(vm.stack_pointer(), 0);
    }
}

#[test]
fn print_char_writes_the_character() {
    let mut program = Program::new();
    program.push(Instruction::Push(b'A'));
    program.push(Instruction::StdCall(StdFunc::PrintChar.id()));
    let (_, out, r) = run_to_end(&program);
    assert_eq!(r, Ok(true));
    assert_eq!(out, b"A".to_vec());

    // A byte past 127 prints as the character with that code point,
    // which takes two bytes.
    let mut program2 = Program::new();
    program2.push(Instruction::Push(0xE9));
    program2.push(Instruction::StdCall(StdFunc::PrintChar.id()));
    let (_, out2, r2) = run_to_end(&program2);
    assert_eq!(r2, Ok(true));
    assert_eq!(String::from_utf8(out2).unwrap(), "\u{e9}".to_string());
}

#[test]
fn print_string_stops_at_zero_and_keeps_the_rest() {
    let mut vm = VM::new();
    assert_eq!(vm.stack_push(b'!'), Ok(()));
    assert_eq!(vm.stack_push(0), Ok(()));
    assert_eq!(vm.stack_push(b'b'), Ok(()));
    assert_eq!(vm.stack_push(b'a'), Ok(()));
    let mut program = Program::new();
    program.push(Instruction::StdCall(StdFunc::PrintString.id()));
    let mut out: Vec<u8> = Vec::new();
    assert_eq!(vm.execute_one(&program, &mut out), Ok(true));
    assert_eq!(out, b"ab".to_vec());
    // The zero terminator is consumed; what lay below it stays.
    assert_eq!(vm.stack_pointer(), 1);
    assert_eq!(vm.stack_at(0), b'!');
}

#[test]
fn duplicate_copies_the_top() {
    let mut program = Program::new();
    program.push(Instruction::Push(7));
    program.push(Instruction::StdCall(StdFunc::Duplicate.id()));
    let (vm, _, r) = run_to_end(&program);
    assert_eq!(r, Ok(true));
    assert_eq!(vm.stack_pointer(), 2);
    assert_eq!(vm.stack_at(0), 7);
    assert_eq!(vm.stack_at(1), 7);
}

#[test]
fn get_past_the_end_reads_as_the_terminator() {
    let mut program = Program::new();
    assert!(matches!(program.get(0), Instruction::Interupt));
    program.push(Instruction::Push(1));
    assert!(matches!(program.get(0), Instruction::Push(1)));
    assert!(matches!(program.get(1), Instruction::Interupt));
    assert!(matches!(program.get(usize::MAX), Instruction::Interupt));
    assert_eq!(program.len(), 1);
}

#[test]
fn jump_redirects_without_advancing() {
    let mut program = Program::new();
    program.push(Instruction::Jmp(40));
    let mut vm = VM::new();
    let mut out: Vec<u8> = Vec::new();
    assert_eq!(vm.execute_one(&program, &mut out), Ok(true));
    assert_eq!(vm.program_pointer(), 40);
    // The next step finds nothing there and halts.
    assert_eq!(vm.execute_one(&program, &mut out), Ok(false));
    assert_eq!(vm.program_pointer(), 40);
}

#[test]
fn execute_stops_when_the_budget_runs_out() {
    let mut program = Program::new();
    program.push(Instruction::Jmp(0)); // spins forever
    let mut vm = VM::new();
    let mut out: Vec<u8> = Vec::new();
    let r = vm.execute(&program, &mut out, 5);
    assert_eq!(r, Ok(false));
    assert_eq!(vm.program_pointer(), 0);
}

#[test]
fn std_func_ids_round_trip() {
    for f in [StdFunc::PrintU8, StdFunc::PrintChar, StdFunc::PrintString, StdFunc::Duplicate] {
        assert_eq!(StdFunc::from_id(f.id()), Some(f));
    }
    assert_eq!(StdFunc::from_id(4), None);
    assert_eq!(StdFunc::PrintU8.id(), 0);
    assert_eq!(StdFunc::PrintChar.id(), 1);
    assert_eq!(StdFunc::PrintString.id(), 2);
    assert_eq!(StdFunc::Duplicate.id(), 3);
}

#[test]
fn push_string_without_room_overflows() {
    let mut vm = VM::new();
    for _ in 0..126 {
        assert_eq!(vm.stack_push(1), Ok(()));
    }
    // "abc" needs four bytes and only two are free.
    let mut program = Program::new();
    program.push(Instruction::PushStr("abc"));
    let mut out: Vec<u8> = Vec::new();
    let fault = vm.execute_one(&program, &mut out).unwrap_err();
    assert_eq!(fault.kind, FaultKind::StackOverflow);
    // Nothing was pushed: the machine is left as it stood.
    assert_eq!(vm.stack_pointer(), 126);
}

#[test]
fn render_shows_cursor_size_and_hex_rows() {
    let mut vm = VM::new();
    assert_eq!(vm.stack_push(0x0f), Ok(()));
    assert_eq!(vm.stack_push(0xa0), Ok(()));
    let text = vm.render();
    assert_eq!(String::from_utf8(text).unwrap(), "pc 0\nsp 2\n0f a0 \n");

    let empty = VM::new().render();
    assert_eq!(String::from_utf8(empty).unwrap(), "pc 0\nsp 0\n");
}

#[test]
fn push_empty_string_pushes_only_the_terminator() {
    let mut program = Program::new();
    program.push(Instruction::PushStr(""));
    let mut vm = VM::new();
    let mut out: Vec<u8> = Vec::new();
    assert_eq!(vm.execute_one(&program, &mut out), Ok(true));
    assert_eq!(vm.stack_pointer(), 1);
    assert_eq!(vm.stack_pop(), Ok(0));
}

#[test]
fn push_string_truncates_wide_characters_to_bytes() {
    let mut program = Program::new();
    program.push(Instruction::PushStr("\u{e9}"));
    let mut vm = VM::new();
    let mut out: Vec<u8> = Vec::new();
    assert_eq!(vm.execute_one(&program, &mut out), Ok(true));
    assert_eq!(vm.stack_pointer(), 2);
    assert_eq!(vm.stack_pop(), Ok(0xe9));
    assert_eq!(vm.stack_pop(), Ok(0));
}

#[test]
fn print_string_on_an_empty_stack_writes_nothing_and_goes_on() {
    let mut program = Program::new();
    program.push(Instruction::StdCall(StdFunc::PrintString.id()));
    let (vm, out, r) = run_to_end(&program);
    assert_eq!(r, Ok(true));
    assert!(out.is_empty());
    assert_eq!(vm.stack_pointer(), 0);
}

#[test]
fn decimal_rendering_is_exact() {
    for (n, expected) in [(0usize, "0"), (9, "9"), (10, "10"), (105, "105"), (98765, "98765")] {
        assert_eq!(bytevm::render::dec_usize(n), expected.as_bytes().to_vec());
    }
}
