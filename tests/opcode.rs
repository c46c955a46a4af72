use stack_machine::opcode::Opcode;
use stack_machine::parser::{parse_bytes_to_instructions, ParseError};

#[test]
fn opcode_bytes_round_trip() {
    let mut assigned = 0;
    for b in 0..=255u8 {
        if let Some(op) = Opcode::from_byte(b) {
            assigned += 1;
            assert_eq!(u8::from(op), b);
            assert_eq!(op.to_byte(), b);
            let m: Vec<char> = op.mnemonic().chars().collect();
            assert_eq!(Opcode::from_mnemonic(&m), Some(op));
        }
    }
    assert_eq!(assigned, 35);
    assert_eq!(Opcode::from_byte(0), None);
    assert_eq!(Opcode::from_byte(23), None);
    assert_eq!(Opcode::from_byte(7), Some(Opcode::Halt));
    assert_eq!(Opcode::MemLoad.mnemonic(), "MLOAD");
}

#[test]
fn operand_widths() {
    assert_eq!(Opcode::Push0.operand_width(), 0);
    assert_eq!(Opcode::Push3.operand_width(), 3);
    assert_eq!(Opcode::Push8.operand_width(), 8);
    assert_eq!(Opcode::Add.operand_width(), 0);
}

#[test]
fn validator_accepts_well_formed() {
    let bytes = [33, 1, 40, 1, 2, 3, 4, 5, 6, 7, 8, 2, 7];
    assert_eq!(parse_bytes_to_instructions(&bytes), Ok(bytes.to_vec()));
}

#[test]
fn validator_unknown_opcode() {
    assert_eq!(parse_bytes_to_instructions(&[0, 7]), Err(ParseError::UnknownOpcode));
}

#[test]
fn validator_truncated_operand() {
    assert_eq!(parse_bytes_to_instructions(&[36, 1, 2, 7]), Err(ParseError::PushParameterReachedEnd));
}

#[test]
fn validator_requires_final_halt() {
    assert_eq!(parse_bytes_to_instructions(&[]), Err(ParseError::NeverHalts));
    assert_eq!(parse_bytes_to_instructions(&[1]), Err(ParseError::NeverHalts));
    // A trailing operand byte equal to Halt's byte is not a Halt instruction.
    assert_eq!(parse_bytes_to_instructions(&[33, 7]), Err(ParseError::NeverHalts));
}
