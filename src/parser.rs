use vstd::prelude::*;

use crate::opcode::Opcode;

verus! {

#[derive(Debug, Clone, Copy, PartialEq, Eq, Structural)]
pub enum ParseError {
    /// A push opcode whose operand bytes run past the end of the program
    PushParameterReachedEnd,
    /// The last instruction of the program is not `Halt`
    NeverHalts,
    /// A byte that encodes no opcode
    UnknownOpcode,
}

/// Scans the instructions from `pos` on, given the last opcode seen before
/// it; yields the last opcode of the program or the first decode error.
pub open spec fn scan_from(b: Seq<u8>, pos: int, last: Option<Opcode>) -> Result<
    Option<Opcode>,
    ParseError,
>
    decreases b.len() - pos,
{
    if pos < 0 || pos >= b.len() {
        Ok(last)
    } else {
        match Opcode::spec_from_byte(b[pos]) {
            None => Err(ParseError::UnknownOpcode),
            Some(op) => {
                let next = pos + 1 + op.spec_operand_width();
                if next > b.len() {
                    Err(ParseError::PushParameterReachedEnd)
                } else {
                    scan_from(b, next, Some(op))
                }
            },
        }
    }
}

/// The verdict on a byte stream: accepted when every instruction decodes,
/// every push has its operand bytes, and the last instruction is `Halt`.
pub open spec fn validate(b: Seq<u8>) -> Result<Seq<u8>, ParseError> {
    match scan_from(b, 0, None) {
        Err(e) => Err(e),
        Ok(Some(Opcode::Halt)) => Ok(b),
        Ok(_) => Err(ParseError::NeverHalts),
    }
}

pub fn parse_bytes_to_instructions(bytes: &[u8]) -> (r: Result<Vec<u8>, ParseError>)
    ensures
        r.is_ok() <==> validate(bytes@).is_ok(),
        r.is_ok() ==> r.unwrap()@ == bytes@,
        r.is_err() ==> validate(bytes@) == Err::<Seq<u8>, _>(r.unwrap_err()),
{
    let mut pos: usize = 0;
    let mut last: Option<Opcode> = None;
    while pos < bytes.len()
        invariant
            pos <= bytes@.len(),
            scan_from(bytes@, 0, None) == scan_from(bytes@, pos as int, last),
        decreases bytes@.len() - pos,
    {
        match Opcode::from_byte(bytes[pos]) {
            None => return Err(ParseError::UnknownOpcode),
            Some(op) => {
                let width = op.operand_width();
                if width > bytes.len() - pos - 1 {
                    return Err(ParseError::PushParameterReachedEnd);
                }
                pos = pos + 1 + width;
                last = Some(op);
            },
        }
    }
    match last {
        Some(Opcode::Halt) => Ok(vstd::slice::slice_to_vec(bytes)),
        _ => Err(ParseError::NeverHalts),
    }
}

} // verus!
