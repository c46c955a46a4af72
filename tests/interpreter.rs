use stack_machine::interpreter::{Interpreter, InterpreterError, InterpreterEvent};
use stack_machine::interpreter::instruction::{add, get_instruction_table, noop, pop, push8};
use stack_machine::opcode::Opcode;
use stack_machine::parser::parse_bytes_to_instructions;

/// Runs until the program ends or fails, at most `limit` steps.
fn run(program: Vec<u8>, limit: usize) -> (Interpreter, Vec<Result<InterpreterEvent, InterpreterError>>) {
    let mut interpreter = Interpreter::new(program);
    let mut events = Vec::new();
    for _ in 0..limit {
        let r = interpreter.next_instruction();
        events.push(r);
        match r {
            Ok(InterpreterEvent::ProgramEnd) | Err(_) => break,
            Ok(_) => {}
        }
    }
    (interpreter, events)
}

fn final_result(program: Vec<u8>) -> (Interpreter, Result<InterpreterEvent, InterpreterError>) {
    let (i, events) = run(program, 1000);
    let last = *events.last().unwrap();
    (i, last)
}

#[test]
fn sub_top_is_left_operand() {
    let program = parse_bytes_to_instructions(&[33, 10, 33, 3, 3, 7]).unwrap();
    let (i, r) = final_result(program);
    assert_eq!(r, Ok(InterpreterEvent::ProgramEnd));
    assert_eq!(i.debug_get_stack(), &[18446744073709551609]);
}

#[test]
fn div_top_by_second() {
    let program = parse_bytes_to_instructions(&[33, 10, 33, 3, 5, 7]).unwrap();
    let (i, r) = final_result(program);
    assert_eq!(r, Ok(InterpreterEvent::ProgramEnd));
    assert_eq!(i.debug_get_stack(), &[0]);
}

#[test]
fn dup_then_add() {
    let program = parse_bytes_to_instructions(&[33, 7, 8, 2, 7]).unwrap();
    let mut i = Interpreter::new(program);
    assert_eq!(i.next_instruction(), Ok(InterpreterEvent::Nothing));
    assert_eq!(i.next_instruction(), Ok(InterpreterEvent::Nothing));
    assert_eq!(i.debug_get_stack(), &[7, 7]);
    assert_eq!(i.next_instruction(), Ok(InterpreterEvent::Nothing));
    assert_eq!(i.next_instruction(), Ok(InterpreterEvent::ProgramEnd));
    assert_eq!(i.debug_get_stack(), &[14]);
}

#[test]
fn halt_only_program() {
    let program = parse_bytes_to_instructions(&[7]).unwrap();
    let mut i = Interpreter::new(program);
    assert_eq!(i.next_instruction(), Ok(InterpreterEvent::ProgramEnd));
    assert!(i.debug_get_stack().is_empty());
    assert_eq!(i.debug_get_memory().len(), 8192);
    assert!(i.debug_get_memory().iter().all(|&m| m == 0));
    // Halted stays halted.
    assert_eq!(i.next_instruction(), Ok(InterpreterEvent::ProgramEnd));
}

#[test]
fn stack_overflow_at_capacity() {
    let mut program = vec![32u8; 65];
    program.push(7);
    let (i, events) = run(program, 1000);
    assert_eq!(events.len(), 65);
    assert_eq!(events[64], Err(InterpreterError::StackOverflow));
    assert_eq!(i.debug_get_stack().len(), 64);
    // Dup on a full stack overflows too.
    let mut program = vec![32u8; 64];
    program.push(8);
    let (_, r) = final_result(program);
    assert_eq!(r, Err(InterpreterError::StackOverflow));
}

#[test]
fn stack_underflow_on_empty() {
    assert_eq!(final_result(vec![1, 7]).1, Err(InterpreterError::StackUnderflow));
    assert_eq!(final_result(vec![33, 1, 2, 7]).1, Err(InterpreterError::StackUnderflow));
    assert_eq!(final_result(vec![33, 1, 18, 7]).1, Err(InterpreterError::StackUnderflow));
    assert_eq!(final_result(vec![33, 1, 17, 7]).1, Err(InterpreterError::StackUnderflow));
}

#[test]
fn divide_by_zero_whatever_the_top() {
    for top in [0u8, 1, 255] {
        // second = 0, top = `top`
        let (i, r) = final_result(vec![32, 33, top, 5, 7]);
        assert_eq!(r, Err(InterpreterError::DivideByZero));
        assert!(i.debug_get_stack().is_empty());
        assert_eq!(final_result(vec![32, 33, top, 10, 7]).1, Err(InterpreterError::DivideByZero));
    }
}

#[test]
fn modulo_top_by_second() {
    let (i, _) = final_result(vec![33, 7, 33, 23, 10, 7]);
    assert_eq!(i.debug_get_stack(), &[2]);
}

#[test]
fn goto_out_of_range_fails() {
    assert_eq!(final_result(vec![33, 5, 6, 7]).1, Err(InterpreterError::InvalidGoto));
    assert_eq!(final_result(vec![33, 4, 6, 7]).1, Err(InterpreterError::InvalidGoto));
    // GotoNz: condition 1, address 200
    assert_eq!(final_result(vec![33, 1, 33, 200, 13, 7]).1, Err(InterpreterError::InvalidGoto));
    // GotoNz with zero condition falls through and consumes both.
    let (i, r) = final_result(vec![32, 33, 200, 13, 7]);
    assert_eq!(r, Ok(InterpreterEvent::ProgramEnd));
    assert!(i.debug_get_stack().is_empty());
}

#[test]
fn goto_jumps_inside_program() {
    // push 4; goto; (skipped pop); halt
    let (i, r) = final_result(vec![33, 4, 6, 1, 7]);
    assert_eq!(r, Ok(InterpreterEvent::ProgramEnd));
    assert!(i.debug_get_stack().is_empty());
}

#[test]
fn wrapping_arithmetic_and_comparisons() {
    // mul: push 2^63 (push8), push 4 -> wraps to 0
    let (i, _) = final_result(vec![40, 0, 0, 0, 0, 0, 0, 0, 128, 33, 4, 4, 7]);
    assert_eq!(i.debug_get_stack(), &[0]);
    // add: u64::MAX + 2 wraps to 1
    let (i, _) = final_result(vec![40, 255, 255, 255, 255, 255, 255, 255, 255, 33, 2, 2, 7]);
    assert_eq!(i.debug_get_stack(), &[1]);
    // second = 5, top = 3: eq 0, lt 1 (3 < 5), gt 0
    assert_eq!(final_result(vec![33, 5, 33, 3, 14, 7]).0.debug_get_stack(), &[0]);
    assert_eq!(final_result(vec![33, 5, 33, 3, 15, 7]).0.debug_get_stack(), &[1]);
    assert_eq!(final_result(vec![33, 5, 33, 3, 16, 7]).0.debug_get_stack(), &[0]);
    assert_eq!(final_result(vec![33, 5, 33, 5, 14, 7]).0.debug_get_stack(), &[1]);
    // not
    assert_eq!(final_result(vec![32, 19, 7]).0.debug_get_stack(), &[u64::MAX]);
}

#[test]
fn dup_and_swap_depths() {
    let base = vec![33, 1, 33, 2, 33, 3, 33, 4];
    let with = |op: u8| {
        let mut p = base.clone();
        p.push(op);
        p.push(7);
        final_result(p).0.debug_get_stack().to_vec()
    };
    assert_eq!(with(18), vec![1, 2, 3, 4, 3]);
    assert_eq!(with(20), vec![1, 2, 3, 4, 2]);
    assert_eq!(with(21), vec![1, 2, 3, 4, 1]);
    assert_eq!(with(9), vec![1, 2, 4, 3]);
    assert_eq!(with(17), vec![1, 4, 3, 2]);
}

#[test]
fn memory_store_then_load() {
    // value 42, index 9: MSTORE pops index first, then value
    let (i, r) = final_result(vec![33, 42, 33, 9, 12, 33, 9, 11, 7]);
    assert_eq!(r, Ok(InterpreterEvent::ProgramEnd));
    assert_eq!(i.debug_get_stack(), &[42]);
    assert_eq!(i.debug_get_memory()[9], 42);
}

#[test]
fn memory_offset_out_of_range() {
    // index 8192 = 0x2000
    assert_eq!(final_result(vec![34, 0, 32, 11, 7]).1, Err(InterpreterError::InvalidMemoryOffset));
    assert_eq!(final_result(vec![32, 34, 0, 32, 12, 7]).1, Err(InterpreterError::InvalidMemoryOffset));
    let (i, r) = final_result(vec![34, 255, 31, 11, 7]);
    assert_eq!(r, Ok(InterpreterEvent::ProgramEnd));
    assert_eq!(i.debug_get_stack(), &[0]);
}

#[test]
fn invalid_instruction_byte() {
    assert_eq!(final_result(vec![0, 7]).1, Err(InterpreterError::InvalidInstruction));
    assert_eq!(final_result(vec![33]).1, Err(InterpreterError::InvalidInstruction));
}

#[test]
fn push_widths_read_little_endian() {
    let (i, _) = final_result(vec![35, 1, 2, 3, 39, 1, 0, 0, 0, 0, 0, 1, 7]);
    assert_eq!(i.debug_get_stack(), &[0x030201, 0x01000000000001]);
}

#[test]
fn debug_events() {
    let (i, events) = run(vec![33, 65, 255, 254, 33, 1, 253, 32, 253, 7], 100);
    assert_eq!(
        events,
        vec![
            Ok(InterpreterEvent::Nothing),
            Ok(InterpreterEvent::Debug(65)),
            Ok(InterpreterEvent::DebugChar(65)),
            Ok(InterpreterEvent::Nothing),
            Ok(InterpreterEvent::Silent(true)),
            Ok(InterpreterEvent::Nothing),
            Ok(InterpreterEvent::Silent(false)),
            Ok(InterpreterEvent::ProgramEnd),
        ]
    );
    assert!(i.debug_get_stack().is_empty());
}

#[test]
fn debug_char_takes_low_byte() {
    let (_, events) = run(vec![34, 65, 1, 254, 7], 10);
    assert_eq!(events[1], Ok(InterpreterEvent::DebugChar(65)));
}

#[test]
fn handlers_called_directly() {
    // Only four operand bytes remain from the program counter.
    let mut short = Interpreter::new(vec![5, 0, 0, 7]);
    assert_eq!(push8(&mut short), Err(InterpreterError::InvalidInstruction));
    assert!(short.debug_get_stack().is_empty());
    let mut i = Interpreter::new(vec![5, 0, 0, 0, 0, 0, 0, 0, 7]);
    assert_eq!(push8(&mut i), Ok(InterpreterEvent::Nothing));
    assert_eq!(i.debug_get_stack(), &[5]);
    assert_eq!(noop(&mut i), Ok(InterpreterEvent::Nothing));
    assert_eq!(add(&mut i), Err(InterpreterError::StackUnderflow));
    assert_eq!(pop(&mut i), Ok(InterpreterEvent::Nothing));
    assert!(i.debug_get_stack().is_empty());
    let table = get_instruction_table();
    assert_eq!(table.len(), 256);
    assert_eq!(table[40], Some(Opcode::Push8));
    assert_eq!(table[0], None);
}
