use stack_machine::assembler::assemble_string_to_bytes;
use stack_machine::assembler::preprocessor::{
    compile_statements, parse_to_statements, to_stage2, to_stage3, Alias, PreprocessorError,
    Stage1, Stage2, Stage3, VarlenBytes,
};
use stack_machine::interpreter::{Interpreter, InterpreterEvent};
use stack_machine::opcode::Opcode;
use stack_machine::parser::parse_bytes_to_instructions;

fn assemble(source: &str) -> Result<Vec<u8>, PreprocessorError> {
    let s = parse_to_statements(source)?;
    let s = to_stage2(s)?;
    let s = to_stage3(s)?;
    let text = compile_statements(s)?;
    assemble_string_to_bytes(&text)
}

#[test]
fn mod_test() {
    const INPUT: &str = r#"PUSH8 123
POP"#;
    let out = assemble_string_to_bytes(INPUT).unwrap();
    let expected = [40, 123, 0, 0, 0, 0, 0, 0, 0, 1];
    assert_eq!(out, expected);
}

#[test]
fn emitter_widths_are_little_endian() {
    let out = assemble_string_to_bytes("PUSH2 258\nPUSH3 65536\nPUSH0\nHALT").unwrap();
    assert_eq!(out, vec![34, 2, 1, 35, 0, 0, 1, 32, 7]);
}

#[test]
fn emitter_rejects_operand_too_wide() {
    let r = assemble_string_to_bytes("PUSH1 256");
    assert_eq!(r, Err(PreprocessorError::NonParsableParameter("256".to_string())));
}

#[test]
fn emitter_rejects_missing_operand_and_junk() {
    assert_eq!(assemble_string_to_bytes("PUSH1"), Err(PreprocessorError::NoParameter));
    assert_eq!(
        assemble_string_to_bytes("ADD SUB"),
        Err(PreprocessorError::TextAfterStatement("SUB".to_string()))
    );
    assert_eq!(assemble_string_to_bytes("ADD // sum"), Ok(vec![2]));
    assert_eq!(
        assemble_string_to_bytes("PUSH 1"),
        Err(PreprocessorError::UnknownOpcode("PUSH".to_string()))
    );
}

#[test]
fn parse_statements_kinds() {
    let src = "// comment\n\n:start\nINC\nDEC\nPUSH 42\nGOTO :start\nGOTONZ :start\nGOTO\nADD // trailing";
    let s = parse_to_statements(src).unwrap();
    assert_eq!(
        s,
        vec![
            Stage1::Empty,
            Stage1::Empty,
            Stage1::GotoLabel(":start".to_string()),
            Stage1::Alias(Alias::Increment),
            Stage1::Alias(Alias::Decrement),
            Stage1::Push(42),
            Stage1::UnresolvedGoto(":start".to_string()),
            Stage1::UnresolvedConditionalGoto(":start".to_string()),
            Stage1::Opcode(Opcode::Goto),
            Stage1::Opcode(Opcode::Add),
        ]
    );
}

#[test]
fn parse_push_accepts_plus_sign() {
    assert_eq!(parse_to_statements("PUSH +5").unwrap(), vec![Stage1::Push(5)]);
}

#[test]
fn parse_error_used_numbered_push() {
    assert_eq!(parse_to_statements("PUSH1 5"), Err(PreprocessorError::UsedNumberedPushOpcode));
}

#[test]
fn parse_error_non_parsable_parameter() {
    assert_eq!(
        parse_to_statements("PUSH abc"),
        Err(PreprocessorError::NonParsableParameter("abc".to_string()))
    );
    assert_eq!(
        parse_to_statements("PUSH 18446744073709551616"),
        Err(PreprocessorError::NonParsableParameter("18446744073709551616".to_string()))
    );
}

#[test]
fn parse_error_invalid_goto() {
    assert_eq!(
        parse_to_statements("GOTO end"),
        Err(PreprocessorError::InvalidGoto("end".to_string()))
    );
}

#[test]
fn parse_error_text_after_statement() {
    assert_eq!(
        parse_to_statements("ADD\nPOP extra"),
        Err(PreprocessorError::TextAfterStatement("extra".to_string()))
    );
}

#[test]
fn parse_error_unknown_opcode() {
    assert_eq!(
        parse_to_statements("FROB"),
        Err(PreprocessorError::UnknownOpcode("FROB".to_string()))
    );
}

#[test]
fn parse_error_no_parameter() {
    assert_eq!(parse_to_statements("PUSH"), Err(PreprocessorError::NoParameter));
}

#[test]
fn parse_reports_first_failing_line() {
    assert_eq!(
        parse_to_statements("FOO\nPUSH"),
        Err(PreprocessorError::UnknownOpcode("FOO".to_string()))
    );
}

#[test]
fn undeclared_label_fails() {
    let s = to_stage2(parse_to_statements("GOTO :nowhere").unwrap()).unwrap();
    assert_eq!(to_stage3(s), Err(PreprocessorError::UndeclaredLabel(":nowhere".to_string())));
}

#[test]
fn lowering_picks_minimal_width() {
    let s = to_stage2(vec![
        Stage1::Push(0),
        Stage1::Push(1),
        Stage1::Push(255),
        Stage1::Push(256),
        Stage1::Push(65535),
        Stage1::Push(65536),
        Stage1::Push(16777216),
        Stage1::Push(4294967296),
        Stage1::Push(72057594037927935),
        Stage1::Push(72057594037927936),
        Stage1::Push(u64::MAX),
    ])
    .unwrap();
    assert_eq!(
        s,
        vec![
            Stage2::Opcode(Opcode::Push0),
            Stage2::Push(VarlenBytes::B1(1)),
            Stage2::Push(VarlenBytes::B1(255)),
            Stage2::Push(VarlenBytes::B2(256)),
            Stage2::Push(VarlenBytes::B2(65535)),
            Stage2::Push(VarlenBytes::B3(65536)),
            Stage2::Push(VarlenBytes::B4(16777216)),
            Stage2::Push(VarlenBytes::B5(4294967296)),
            Stage2::Push(VarlenBytes::B7(72057594037927935)),
            Stage2::Push(VarlenBytes::B8(72057594037927936)),
            Stage2::Push(VarlenBytes::B8(u64::MAX)),
        ]
    );
}

#[test]
fn alias_expansion() {
    let s = to_stage2(vec![Stage1::Alias(Alias::Increment), Stage1::Alias(Alias::Decrement), Stage1::Empty])
        .unwrap();
    assert_eq!(
        s,
        vec![
            Stage2::Push(VarlenBytes::B1(1)),
            Stage2::Opcode(Opcode::Add),
            Stage2::Push(VarlenBytes::B1(1)),
            Stage2::Opcode(Opcode::Swap),
            Stage2::Opcode(Opcode::Sub),
        ]
    );
}

#[test]
fn compile_statements_text() {
    let text = compile_statements(vec![
        Stage3::Push(VarlenBytes::B2(300)),
        Stage3::Opcode(Opcode::Add),
        Stage3::ResolvedGoto(VarlenBytes::B8(11)),
        Stage3::ResolvedConditionalGoto(VarlenBytes::B8(0)),
    ])
    .unwrap();
    assert_eq!(text, "PUSH2 300\nADD\nPUSH8 11\nGOTO\nPUSH8 0\nGOTONZ\n");
}

#[test]
fn varlen_compile_and_reduce() {
    assert_eq!(VarlenBytes::B8(70000).compile(), "PUSH8 70000");
    assert_eq!(VarlenBytes::B8(70000).reduce(), VarlenBytes::B3(70000));
    assert_eq!(u64::from(VarlenBytes::B3(70000)), 70000);
    assert_eq!(VarlenBytes::from(5u64), VarlenBytes::B8(5));
}

#[test]
fn loop_label_resolves_to_push() {
    let s = to_stage2(parse_to_statements(":loop\nPUSH 1\nGOTO :loop").unwrap()).unwrap();
    let s = to_stage3(s).unwrap();
    assert_eq!(
        s,
        vec![
            Stage3::Opcode(Opcode::GotoTarget),
            Stage3::Push(VarlenBytes::B1(1)),
            Stage3::ResolvedGoto(VarlenBytes::B8(1)),
        ]
    );
    let bytes = assemble(":loop\nPUSH 1\nGOTO :loop").unwrap();
    assert_eq!(bytes, vec![22, 33, 1, 40, 1, 0, 0, 0, 0, 0, 0, 0, 6]);
    // The program never halts: run it for a bounded number of steps.
    let program = {
        let mut p = bytes.clone();
        p.push(7);
        parse_bytes_to_instructions(&p).unwrap()
    };
    let mut interpreter = Interpreter::new(program);
    for _ in 0..148 {
        assert_eq!(interpreter.next_instruction(), Ok(InterpreterEvent::Nothing));
    }
    assert_eq!(interpreter.debug_get_stack(), &[1u64; 49][..]);
}

#[test]
fn forward_and_backward_labels_resolve_after_marker() {
    let src = "GOTO :end\n:back\nHALT\n:end\nGOTO :back";
    let s = to_stage3(to_stage2(parse_to_statements(src).unwrap()).unwrap()).unwrap();
    assert_eq!(
        s,
        vec![
            Stage3::ResolvedGoto(VarlenBytes::B8(13)),
            Stage3::Opcode(Opcode::GotoTarget),
            Stage3::Opcode(Opcode::Halt),
            Stage3::Opcode(Opcode::GotoTarget),
            Stage3::ResolvedGoto(VarlenBytes::B8(11)),
        ]
    );
    let bytes = assemble(src).unwrap();
    assert_eq!(bytes[10], 22);
    assert_eq!(bytes[11], 7);
    assert_eq!(bytes[12], 22);
    let mut interpreter = Interpreter::new(bytes);
    let mut steps = 0;
    loop {
        steps += 1;
        assert!(steps < 10);
        match interpreter.next_instruction() {
            Ok(InterpreterEvent::ProgramEnd) => break,
            Ok(_) => {}
            Err(e) => panic!("{e:?}"),
        }
    }
    assert_eq!(steps, 5);
}

#[test]
fn assembled_program_runs() {
    let bytes = assemble("PUSH 10\nPUSH 300\nSUB\nINC\nHALT").unwrap();
    assert_eq!(bytes, vec![33, 10, 34, 44, 1, 3, 33, 1, 2, 7]);
    let mut interpreter = Interpreter::new(parse_bytes_to_instructions(&bytes).unwrap());
    while interpreter.next_instruction() != Ok(InterpreterEvent::ProgramEnd) {}
    assert_eq!(interpreter.debug_get_stack(), &[291]);
}

#[test]
fn emitted_text_assembles_to_encoding() {
    let text = compile_statements(vec![
        Stage3::Opcode(Opcode::Push0),
        Stage3::Push(VarlenBytes::B3(0x030201)),
        Stage3::ResolvedConditionalGoto(VarlenBytes::B8(0x0102)),
        Stage3::Opcode(Opcode::Halt),
    ])
    .unwrap();
    assert_eq!(
        assemble_string_to_bytes(&text).unwrap(),
        vec![32, 35, 1, 2, 3, 40, 2, 1, 0, 0, 0, 0, 0, 0, 13, 7]
    );
}
