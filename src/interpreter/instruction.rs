use vstd::prelude::*;

use super::{exec_op, Interpreter, InterpreterError, InterpreterEvent, TMP_MEMORY_SIZE};
use crate::opcode::Opcode;

verus! {

/// The dispatch table: for each of the 256 byte values, the opcode it
/// selects, or `None` for an unassigned byte.
pub fn get_instruction_table() -> (table: Vec<Option<Opcode>>)
    ensures
        table@.len() == 256,
        forall|b: int| 0 <= b < 256 ==> #[trigger] table@[b] == Opcode::spec_from_byte(b as u8),
{
    let mut table: Vec<Option<Opcode>> = Vec::new();
    let mut b: usize = 0;
    while b < 256
        invariant
            b <= 256,
            table@.len() == b,
            forall|j: int| 0 <= j < b ==> #[trigger] table@[j] == Opcode::spec_from_byte(j as u8),
        decreases 256 - b,
    {
        table.push(Opcode::from_byte(b as u8));
        b = b + 1;
    }
    table
}

/// Runs the handler of `op`.
pub fn execute(i: &mut Interpreter, op: Opcode) -> (r: Result<InterpreterEvent, InterpreterError>)
    requires
        old(i).wf(),
    ensures
        final(i).wf(),
        (final(i)@, r) == exec_op(old(i)@, op),
{
    match op {
        Opcode::Pop => pop(i),
        Opcode::Add => self::add(i),
        Opcode::Sub => self::sub(i),
        Opcode::Mul => self::mul(i),
        Opcode::Div => div(i),
        Opcode::Goto => goto(i),
        Opcode::Halt => halt(i),
        Opcode::Dup => dup(i),
        Opcode::Swap => swap(i),
        Opcode::Mod => rem(i),
        Opcode::MemLoad => mem_load(i),
        Opcode::MemStore => mem_store(i),
        Opcode::GotoNz => goto_nz(i),
        Opcode::Eq => eq(i),
        Opcode::Lt => lt(i),
        Opcode::Gt => gt(i),
        Opcode::Swap2 => swap2(i),
        Opcode::Dup2 => dup2(i),
        Opcode::Not => not(i),
        Opcode::Dup3 => dup3(i),
        Opcode::Dup4 => dup4(i),
        Opcode::GotoTarget => noop(i),
        Opcode::Push8 => push8(i),
        Opcode::Push0 | Opcode::Push1 | Opcode::Push2 | Opcode::Push3 | Opcode::Push4
        | Opcode::Push5 | Opcode::Push6 | Opcode::Push7 => push_literal(i, op),
        Opcode::NoOp => noop(i),
        Opcode::DbgSilent => debug_silent(i),
        Opcode::Debug => debug(i),
        Opcode::DebugChar => debug_char(i),
    }
}

fn debug_silent(i: &mut Interpreter) -> (r: Result<InterpreterEvent, InterpreterError>)
    requires
        old(i).wf(),
    ensures
        final(i).wf(),
        (final(i)@, r) == exec_op(old(i)@, Opcode::DbgSilent),
{
    let v = i.pop()?;
    Ok(InterpreterEvent::Silent(v != 0))
}

fn debug(i: &mut Interpreter) -> (r: Result<InterpreterEvent, InterpreterError>)
    requires
        old(i).wf(),
    ensures
        final(i).wf(),
        (final(i)@, r) == exec_op(old(i)@, Opcode::Debug),
{
    let v = i.get_nth_from_top(0)?;
    Ok(InterpreterEvent::Debug(v))
}

fn debug_char(i: &mut Interpreter) -> (r: Result<InterpreterEvent, InterpreterError>)
    requires
        old(i).wf(),
    ensures
        final(i).wf(),
        (final(i)@, r) == exec_op(old(i)@, Opcode::DebugChar),
{
    let v = i.pop()?;
    Ok(InterpreterEvent::DebugChar((v % 256) as u8))
}

/// Pushes the literal that follows a push opcode of any width.
fn push_literal(i: &mut Interpreter, op: Opcode) -> (r: Result<InterpreterEvent, InterpreterError>)
    requires
        old(i).wf(),
        op.is_push(),
    ensures
        final(i).wf(),
        (final(i)@, r) == exec_op(old(i)@, op),
{
    let v = i.read_parameter(op.operand_width())?;
    i.push(v)?;
    Ok(InterpreterEvent::Nothing)
}

pub fn push8(i: &mut Interpreter) -> (r: Result<InterpreterEvent, InterpreterError>)
    requires
        old(i).wf(),
    ensures
        final(i).wf(),
        (final(i)@, r) == exec_op(old(i)@, Opcode::Push8),
{
    push_literal(i, Opcode::Push8)
}

pub fn noop(i: &mut Interpreter) -> (r: Result<InterpreterEvent, InterpreterError>)
    requires
        old(i).wf(),
    ensures
        final(i).wf(),
        (final(i)@, r) == exec_op(old(i)@, Opcode::NoOp),
        (final(i)@, r) == exec_op(old(i)@, Opcode::GotoTarget),
{
    Ok(InterpreterEvent::Nothing)
}

pub fn goto(i: &mut Interpreter) -> (r: Result<InterpreterEvent, InterpreterError>)
    requires
        old(i).wf(),
    ensures
        final(i).wf(),
        (final(i)@, r) == exec_op(old(i)@, Opcode::Goto),
{
    let addr = i.pop()?;
    i.goto(addr)?;
    Ok(InterpreterEvent::Nothing)
}

pub fn pop(i: &mut Interpreter) -> (r: Result<InterpreterEvent, InterpreterError>)
    requires
        old(i).wf(),
    ensures
        final(i).wf(),
        (final(i)@, r) == exec_op(old(i)@, Opcode::Pop),
{
    i.pop()?;
    Ok(InterpreterEvent::Nothing)
}

pub fn add(i: &mut Interpreter) -> (r: Result<InterpreterEvent, InterpreterError>)
    requires
        old(i).wf(),
    ensures
        final(i).wf(),
        (final(i)@, r) == exec_op(old(i)@, Opcode::Add),
{
    let (a, b) = i.pop_two()?;
    let c = a.wrapping_add(b);
    i.confident_push(c);
    Ok(InterpreterEvent::Nothing)
}

pub fn sub(i: &mut Interpreter) -> (r: Result<InterpreterEvent, InterpreterError>)
    requires
        old(i).wf(),
    ensures
        final(i).wf(),
        (final(i)@, r) == exec_op(old(i)@, Opcode::Sub),
{
    let (a, b) = i.pop_two()?;
    let c = a.wrapping_sub(b);
    i.confident_push(c);
    Ok(InterpreterEvent::Nothing)
}

pub fn mul(i: &mut Interpreter) -> (r: Result<InterpreterEvent, InterpreterError>)
    requires
        old(i).wf(),
    ensures
        final(i).wf(),
        (final(i)@, r) == exec_op(old(i)@, Opcode::Mul),
{
    let (a, b) = i.pop_two()?;
    let c = a.wrapping_mul(b);
    i.confident_push(c);
    Ok(InterpreterEvent::Nothing)
}

pub fn div(i: &mut Interpreter) -> (r: Result<InterpreterEvent, InterpreterError>)
    requires
        old(i).wf(),
    ensures
        final(i).wf(),
        (final(i)@, r) == exec_op(old(i)@, Opcode::Div),
{
    let (a, b) = i.pop_two()?;
    if b == 0 {
        return Err(InterpreterError::DivideByZero);
    }
    let c = a / b;
    i.confident_push(c);
    Ok(InterpreterEvent::Nothing)
}

pub fn halt(i: &mut Interpreter) -> (r: Result<InterpreterEvent, InterpreterError>)
    requires
        old(i).wf(),
    ensures
        final(i).wf(),
        (final(i)@, r) == exec_op(old(i)@, Opcode::Halt),
{
    i.halted = true;
    Ok(InterpreterEvent::ProgramEnd)
}

pub fn swap(i: &mut Interpreter) -> (r: Result<InterpreterEvent, InterpreterError>)
    requires
        old(i).wf(),
    ensures
        final(i).wf(),
        (final(i)@, r) == exec_op(old(i)@, Opcode::Swap),
{
    i.swap_nth(1)?;
    Ok(InterpreterEvent::Nothing)
}

pub fn swap2(i: &mut Interpreter) -> (r: Result<InterpreterEvent, InterpreterError>)
    requires
        old(i).wf(),
    ensures
        final(i).wf(),
        (final(i)@, r) == exec_op(old(i)@, Opcode::Swap2),
{
    i.swap_nth(2)?;
    Ok(InterpreterEvent::Nothing)
}

pub fn rem(i: &mut Interpreter) -> (r: Result<InterpreterEvent, InterpreterError>)
    requires
        old(i).wf(),
    ensures
        final(i).wf(),
        (final(i)@, r) == exec_op(old(i)@, Opcode::Mod),
{
    let (a, b) = i.pop_two()?;
    if b == 0 {
        return Err(InterpreterError::DivideByZero);
    }
    let c = a % b;
    i.confident_push(c);
    Ok(InterpreterEvent::Nothing)
}

pub fn mem_load(i: &mut Interpreter) -> (r: Result<InterpreterEvent, InterpreterError>)
    requires
        old(i).wf(),
    ensures
        final(i).wf(),
        (final(i)@, r) == exec_op(old(i)@, Opcode::MemLoad),
{
    let index = i.pop()?;
    let val = i.load_memory_offset(index)?;
    i.confident_push(val);
    Ok(InterpreterEvent::Nothing)
}

pub fn mem_store(i: &mut Interpreter) -> (r: Result<InterpreterEvent, InterpreterError>)
    requires
        old(i).wf(),
    ensures
        final(i).wf(),
        (final(i)@, r) == exec_op(old(i)@, Opcode::MemStore),
{
    let index = i.pop()?;
    let val = i.pop()?;
    proof {
        old(i)@.lemma_drop_twice();
    }
    i.set_memory_offset(index, val)?;
    Ok(InterpreterEvent::Nothing)
}

pub fn goto_nz(i: &mut Interpreter) -> (r: Result<InterpreterEvent, InterpreterError>)
    requires
        old(i).wf(),
    ensures
        final(i).wf(),
        (final(i)@, r) == exec_op(old(i)@, Opcode::GotoNz),
{
    let addr = i.pop()?;
    let conditional = i.pop()?;
    proof {
        old(i)@.lemma_drop_twice();
    }
    if conditional != 0 {
        i.goto(addr)?;
    }
    Ok(InterpreterEvent::Nothing)
}

pub fn eq(i: &mut Interpreter) -> (r: Result<InterpreterEvent, InterpreterError>)
    requires
        old(i).wf(),
    ensures
        final(i).wf(),
        (final(i)@, r) == exec_op(old(i)@, Opcode::Eq),
{
    let (a, b) = i.pop_two()?;
    let c: u64 = if a == b { 1 } else { 0 };
    i.confident_push(c);
    Ok(InterpreterEvent::Nothing)
}

pub fn lt(i: &mut Interpreter) -> (r: Result<InterpreterEvent, InterpreterError>)
    requires
        old(i).wf(),
    ensures
        final(i).wf(),
        (final(i)@, r) == exec_op(old(i)@, Opcode::Lt),
{
    let (a, b) = i.pop_two()?;
    let c: u64 = if a < b { 1 } else { 0 };
    i.confident_push(c);
    Ok(InterpreterEvent::Nothing)
}

pub fn gt(i: &mut Interpreter) -> (r: Result<InterpreterEvent, InterpreterError>)
    requires
        old(i).wf(),
    ensures
        final(i).wf(),
        (final(i)@, r) == exec_op(old(i)@, Opcode::Gt),
{
    let (a, b) = i.pop_two()?;
    let c: u64 = if a > b { 1 } else { 0 };
    i.confident_push(c);
    Ok(InterpreterEvent::Nothing)
}

pub fn dup(i: &mut Interpreter) -> (r: Result<InterpreterEvent, InterpreterError>)
    requires
        old(i).wf(),
    ensures
        final(i).wf(),
        (final(i)@, r) == exec_op(old(i)@, Opcode::Dup),
{
    let c = i.get_nth_from_top(0)?;
    i.push(c)?;
    Ok(InterpreterEvent::Nothing)
}

pub fn dup2(i: &mut Interpreter) -> (r: Result<InterpreterEvent, InterpreterError>)
    requires
        old(i).wf(),
    ensures
        final(i).wf(),
        (final(i)@, r) == exec_op(old(i)@, Opcode::Dup2),
{
    let c = i.get_nth_from_top(1)?;
    i.push(c)?;
    Ok(InterpreterEvent::Nothing)
}

pub fn dup3(i: &mut Interpreter) -> (r: Result<InterpreterEvent, InterpreterError>)
    requires
        old(i).wf(),
    ensures
        final(i).wf(),
        (final(i)@, r) == exec_op(old(i)@, Opcode::Dup3),
{
    let c = i.get_nth_from_top(2)?;
    i.push(c)?;
    Ok(InterpreterEvent::Nothing)
}

pub fn dup4(i: &mut Interpreter) -> (r: Result<InterpreterEvent, InterpreterError>)
    requires
        old(i).wf(),
    ensures
        final(i).wf(),
        (final(i)@, r) == exec_op(old(i)@, Opcode::Dup4),
{
    let c = i.get_nth_from_top(3)?;
    i.push(c)?;
    Ok(InterpreterEvent::Nothing)
}

pub fn not(i: &mut Interpreter) -> (r: Result<InterpreterEvent, InterpreterError>)
    requires
        old(i).wf(),
    ensures
        final(i).wf(),
        (final(i)@, r) == exec_op(old(i)@, Opcode::Not),
{
    let a = i.pop()?;
    i.confident_push(!a);
    Ok(InterpreterEvent::Nothing)
}

} // verus!
