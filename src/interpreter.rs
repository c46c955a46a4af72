pub mod instruction;

use vstd::prelude::*;

use crate::encoding::{le_value, read_le};
use crate::opcode::Opcode;
use instruction::get_instruction_table;

verus! {

pub const STACK_SIZE: usize = 64;

pub const TMP_MEMORY_SIZE: usize = 8192;

#[derive(Debug, Clone, Copy, PartialEq, Eq, Structural)]
pub enum InterpreterEvent {
    /// No event, execution is continuing successfully
    Nothing,
    /// Program has reached end without exception
    ProgramEnd,
    /// A verbosity flag popped from the stack
    Silent(bool),
    /// The top of the stack, reported without removing it
    Debug(u64),
    /// A character code popped from the stack
    DebugChar(u8),
}

#[derive(Debug, Clone, Copy, PartialEq, Eq, Structural)]
pub enum InterpreterError {
    /// Invalid Goto location
    InvalidGoto,
    /// Push too many items on stack
    StackOverflow,
    /// Popped too many items from stack
    StackUnderflow,
    DivideByZero,
    InvalidMemoryOffset,
    /// An unassigned opcode byte, or a push whose operand runs past the end
    InvalidInstruction,
}

/// The abstract state of the machine.
pub struct MachineState {
    pub program: Seq<u8>,
    /// Bottom first; the last element is the top of the stack.
    pub stack: Seq<u64>,
    pub memory: Seq<u64>,
    pub pc: int,
    pub halted: bool,
}

pub type StepResult = Result<InterpreterEvent, InterpreterError>;

impl MachineState {
    pub open spec fn with_stack(self, stack: Seq<u64>) -> MachineState {
        MachineState { stack, ..self }
    }

    /// The element `n` places below the top.
    pub open spec fn nth_from_top(self, n: int) -> u64 {
        self.stack[self.stack.len() - 1 - n]
    }

    /// The state with the top `k` elements removed.
    pub open spec fn drop_top(self, k: int) -> MachineState {
        self.with_stack(self.stack.take(self.stack.len() - k))
    }

    pub proof fn lemma_drop_twice(self)
        requires
            self.stack.len() >= 2,
        ensures
            self.drop_top(1).drop_top(1) == self.drop_top(2),
    {
        assert(self.drop_top(1).drop_top(1).stack =~= self.drop_top(2).stack);
    }

    /// Sets the program counter to `addr` if it lies inside the program.
    pub open spec fn jump(self, addr: u64) -> (MachineState, StepResult) {
        if (addr as int) < self.program.len() {
            (MachineState { pc: addr as int, ..self }, Ok(InterpreterEvent::Nothing))
        } else {
            (self, Err(InterpreterError::InvalidGoto))
        }
    }

    /// Pushes `v` unless the stack is full.
    pub open spec fn push_value(self, v: u64) -> (MachineState, StepResult) {
        if self.stack.len() >= STACK_SIZE {
            (self, Err(InterpreterError::StackOverflow))
        } else {
            (self.with_stack(self.stack.push(v)), Ok(InterpreterEvent::Nothing))
        }
    }
}

/// The value that a binary operator computes from the top `a` and the
/// second `b`: the top is the left operand.
pub open spec fn binary_value(op: Opcode, a: u64, b: u64) -> u64 {
    match op {
        Opcode::Add => vstd::wrapping::u64_specs::wrapping_add(a, b),
        Opcode::Sub => vstd::wrapping::u64_specs::wrapping_sub(a, b),
        Opcode::Mul => vstd::wrapping::u64_specs::wrapping_mul(a, b),
        Opcode::Div => if b == 0 { 0 } else { a / b },
        Opcode::Mod => if b == 0 { 0 } else { a % b },
        Opcode::Eq => if a == b { 1 } else { 0 },
        Opcode::Lt => if a < b { 1 } else { 0 },
        Opcode::Gt => if a > b { 1 } else { 0 },
        _ => 0,
    }
}

pub open spec fn is_binary(op: Opcode) -> bool {
    match op {
        Opcode::Add | Opcode::Sub | Opcode::Mul | Opcode::Eq | Opcode::Lt | Opcode::Gt => true,
        _ => false,
    }
}

/// How far below the top `Dup`, `Dup2`, `Dup3`, `Dup4` read.
pub open spec fn dup_depth(op: Opcode) -> Option<int> {
    match op {
        Opcode::Dup => Some(0),
        Opcode::Dup2 => Some(1),
        Opcode::Dup3 => Some(2),
        Opcode::Dup4 => Some(3),
        _ => None,
    }
}

/// How far below the top `Swap`, `Swap2` reach.
pub open spec fn swap_depth(op: Opcode) -> Option<int> {
    match op {
        Opcode::Swap => Some(1),
        Opcode::Swap2 => Some(2),
        _ => None,
    }
}

/// What executing `op` does to a state whose program counter already stands
/// past the opcode byte.
///
/// Operands that an instruction pops stay consumed when it then fails: a
/// failed `Div` or `Mod` leaves the stack without its two operands, and a
/// failed jump or memory access without the address or index it popped.
pub open spec fn exec_op(s: MachineState, op: Opcode) -> (MachineState, StepResult) {
    let n = s.stack.len();
    let underflow = (s, Err(InterpreterError::StackUnderflow));
    if op.is_push() {
        let w = op.spec_operand_width() as int;
        if s.pc + w > s.program.len() {
            (s, Err(InterpreterError::InvalidInstruction))
        } else {
            let v = le_value(s.program.subrange(s.pc, s.pc + w)) as u64;
            MachineState { pc: s.pc + w, ..s }.push_value(v)
        }
    } else if is_binary(op) {
        if n < 2 {
            underflow
        } else {
            let v = binary_value(op, s.nth_from_top(0), s.nth_from_top(1));
            (s.drop_top(2).with_stack(s.drop_top(2).stack.push(v)), Ok(InterpreterEvent::Nothing))
        }
    } else if dup_depth(op) is Some {
        let k = dup_depth(op)->0;
        if n <= k {
            underflow
        } else {
            s.push_value(s.nth_from_top(k))
        }
    } else if swap_depth(op) is Some {
        let k = swap_depth(op)->0;
        if n <= k {
            underflow
        } else {
            (
                s.with_stack(
                    s.stack.update(n - 1 - k, s.nth_from_top(0)).update(n - 1, s.nth_from_top(k)),
                ),
                Ok(InterpreterEvent::Nothing),
            )
        }
    } else {
        match op {
            Opcode::Div | Opcode::Mod => {
                if n < 2 {
                    underflow
                } else if s.nth_from_top(1) == 0 {
                    (s.drop_top(2), Err(InterpreterError::DivideByZero))
                } else {
                    let v = binary_value(op, s.nth_from_top(0), s.nth_from_top(1));
                    (s.drop_top(2).with_stack(s.drop_top(2).stack.push(v)), Ok(InterpreterEvent::Nothing))
                }
            },
            Opcode::Pop => if n == 0 {
                underflow
            } else {
                (s.drop_top(1), Ok(InterpreterEvent::Nothing))
            },
            Opcode::Not => if n == 0 {
                underflow
            } else {
                (s.drop_top(1).with_stack(s.drop_top(1).stack.push(!s.nth_from_top(0))), Ok(InterpreterEvent::Nothing))
            },
            Opcode::Goto => if n == 0 {
                underflow
            } else {
                s.drop_top(1).jump(s.nth_from_top(0))
            },
            Opcode::GotoNz => if n == 0 {
                underflow
            } else if n == 1 {
                (s.drop_top(1), Err(InterpreterError::StackUnderflow))
            } else if s.nth_from_top(1) != 0 {
                s.drop_top(2).jump(s.nth_from_top(0))
            } else {
                (s.drop_top(2), Ok(InterpreterEvent::Nothing))
            },
            Opcode::MemLoad => if n == 0 {
                underflow
            } else if s.nth_from_top(0) >= TMP_MEMORY_SIZE {
                (s.drop_top(1), Err(InterpreterError::InvalidMemoryOffset))
            } else {
                let v = s.memory[s.nth_from_top(0) as int];
                (s.drop_top(1).with_stack(s.drop_top(1).stack.push(v)), Ok(InterpreterEvent::Nothing))
            },
            Opcode::MemStore => if n == 0 {
                underflow
            } else if n == 1 {
                (s.drop_top(1), Err(InterpreterError::StackUnderflow))
            } else if s.nth_from_top(0) >= TMP_MEMORY_SIZE {
                (s.drop_top(2), Err(InterpreterError::InvalidMemoryOffset))
            } else {
                let t = s.drop_top(2);
                (
                    MachineState { memory: t.memory.update(s.nth_from_top(0) as int, s.nth_from_top(1)), ..t },
                    Ok(InterpreterEvent::Nothing),
                )
            },
            Opcode::Halt => (MachineState { halted: true, ..s }, Ok(InterpreterEvent::ProgramEnd)),
            Opcode::DbgSilent => if n == 0 {
                underflow
            } else {
                (s.drop_top(1), Ok(InterpreterEvent::Silent(s.nth_from_top(0) != 0)))
            },
            Opcode::Debug => if n == 0 {
                underflow
            } else {
                (s, Ok(InterpreterEvent::Debug(s.nth_from_top(0))))
            },
            Opcode::DebugChar => if n == 0 {
                underflow
            } else {
                (s.drop_top(1), Ok(InterpreterEvent::DebugChar((s.nth_from_top(0) % 256) as u8)))
            },
            _ => (s, Ok(InterpreterEvent::Nothing)),
        }
    }
}

/// One fetch-decode-execute step.
pub open spec fn step(s: MachineState) -> (MachineState, StepResult) {
    if s.halted || s.pc >= s.program.len() {
        (s, Ok(InterpreterEvent::ProgramEnd))
    } else {
        let next = MachineState { pc: s.pc + 1, ..s };
        match Opcode::spec_from_byte(s.program[s.pc]) {
            None => (next, Err(InterpreterError::InvalidInstruction)),
            Some(op) => exec_op(next, op),
        }
    }
}

/// The state of a fresh machine running `program`.
pub open spec fn initial_state(program: Seq<u8>) -> MachineState {
    MachineState {
        program,
        stack: Seq::empty(),
        memory: Seq::new(TMP_MEMORY_SIZE as nat, |i: int| 0u64),
        pc: 0,
        halted: false,
    }
}

/// An opcode that pushes a value without first removing one.
pub open spec fn pushes_onto(op: Opcode) -> bool {
    op.is_push() || dup_depth(op) is Some
}

/// An opcode that needs at least one element on the stack.
pub open spec fn reads_stack(op: Opcode) -> bool {
    !(op.is_push() || op is Halt || op is NoOp || op is GotoTarget)
}

/// A push onto a stack that already holds its 64 elements fails with
/// `StackOverflow`, and an operation that pops or reads an empty stack fails
/// with `StackUnderflow`.
pub proof fn lemma_stack_bounds(s: MachineState, op: Opcode)
    requires
        s.pc + op.spec_operand_width() <= s.program.len(),
    ensures
        s.stack.len() == STACK_SIZE && pushes_onto(op) ==> exec_op(s, op).1 == Err::<
            InterpreterEvent,
            _,
        >(InterpreterError::StackOverflow),
        s.stack.len() == 0 && reads_stack(op) ==> exec_op(s, op).1 == Err::<InterpreterEvent, _>(
            InterpreterError::StackUnderflow,
        ),
{
}

/// `Div` and `Mod` fail with `DivideByZero` whenever the second element
/// from the top is zero, whatever the top holds.
pub proof fn lemma_divide_by_zero(s: MachineState, op: Opcode)
    requires
        op is Div || op is Mod,
        s.stack.len() >= 2,
        s.nth_from_top(1) == 0,
    ensures
        exec_op(s, op).1 == Err::<InterpreterEvent, _>(InterpreterError::DivideByZero),
{
}

/// A jump to an address at or past the end of the program fails with
/// `InvalidGoto`: `Goto` always, `GotoNz` whenever its condition is non-zero.
pub proof fn lemma_jump_out_of_range(s: MachineState)
    ensures
        s.stack.len() >= 1 && s.nth_from_top(0) >= s.program.len() ==> exec_op(s, Opcode::Goto).1
            == Err::<InterpreterEvent, _>(InterpreterError::InvalidGoto),
        s.stack.len() >= 2 && s.nth_from_top(0) >= s.program.len() && s.nth_from_top(1) != 0
            ==> exec_op(s, Opcode::GotoNz).1 == Err::<InterpreterEvent, _>(
            InterpreterError::InvalidGoto,
        ),
{
}

#[derive(Debug)]
pub struct Interpreter {
    program: Vec<u8>,
    stack: Vec<u64>,
    /// Temporary memory storage
    memory: Vec<u64>,
    stack_length: usize,
    program_counter: usize,
    halted: bool,
    instruction_table: Vec<Option<Opcode>>,
}

impl View for Interpreter {
    type V = MachineState;

    closed spec fn view(&self) -> MachineState {
        MachineState {
            program: self.program@,
            stack: self.stack@.take(self.stack_length as int),
            memory: self.memory@,
            pc: self.program_counter as int,
            halted: self.halted,
        }
    }
}

impl Interpreter {
    /// The machine's fields agree with one another.
    pub closed spec fn wf(&self) -> bool {
        &&& self.stack@.len() == STACK_SIZE
        &&& self.stack_length <= STACK_SIZE
        &&& self.memory@.len() == TMP_MEMORY_SIZE
        &&& self.program_counter <= self.program@.len()
        &&& self.instruction_table@.len() == 256
        &&& forall|b: int|
            0 <= b < 256 ==> #[trigger] self.instruction_table@[b] == Opcode::spec_from_byte(
                b as u8,
            )
    }

    pub fn new(program: Vec<u8>) -> (r: Interpreter)
        ensures
            r.wf(),
            r@ == initial_state(program@),
    {
        let stack = vec![0u64; STACK_SIZE];
        let mut memory: Vec<u64> = Vec::new();
        while memory.len() < TMP_MEMORY_SIZE
            invariant
                memory@.len() <= TMP_MEMORY_SIZE,
                forall|i: int| 0 <= i < memory@.len() ==> memory@[i] == 0u64,
            decreases TMP_MEMORY_SIZE - memory@.len(),
        {
            memory.push(0);
        }
        let r = Interpreter {
            program,
            stack,
            memory,
            stack_length: 0,
            program_counter: 0,
            halted: false,
            instruction_table: get_instruction_table(),
        };
        assert(r@.memory =~= initial_state(program@).memory);
        assert(r@.stack =~= Seq::<u64>::empty());
        r
    }

    pub fn debug_get_stack(&self) -> (r: &[u64])
        requires
            self.wf(),
        ensures
            r@ == self@.stack,
    {
        &self.stack.as_slice()[0..self.stack_length]
    }

    pub fn debug_get_memory(&self) -> (r: &[u64])
        ensures
            r@ == self@.memory,
    {
        self.memory.as_slice()
    }

    fn push(&mut self, value: u64) -> (r: Result<(), InterpreterError>)
        requires
            old(self).wf(),
        ensures
            final(self).wf(),
            old(self)@.push_value(value).0 == final(self)@,
            r is Ok <==> old(self)@.push_value(value).1 is Ok,
            r is Err ==> r == Err::<(), _>(InterpreterError::StackOverflow),
    {
        if self.stack_length < STACK_SIZE {
            self.stack.set(self.stack_length, value);
            self.stack_length = self.stack_length + 1;
            assert(self@.stack =~= old(self)@.stack.push(value));
            Ok(())
        } else {
            Err(InterpreterError::StackOverflow)
        }
    }

    fn pop(&mut self) -> (r: Result<u64, InterpreterError>)
        requires
            old(self).wf(),
        ensures
            final(self).wf(),
            old(self)@.stack.len() == 0 ==> r == Err::<u64, _>(InterpreterError::StackUnderflow)
                && final(self)@ == old(self)@,
            old(self)@.stack.len() > 0 ==> r == Ok::<_, InterpreterError>(old(self)@.nth_from_top(0))
                && final(self)@ == old(self)@.drop_top(1),
    {
        if self.stack_length > 0 {
            let val = self.stack[self.stack_length - 1];
            self.stack_length = self.stack_length - 1;
            assert(self@.stack =~= old(self)@.drop_top(1).stack);
            Ok(val)
        } else {
            Err(InterpreterError::StackUnderflow)
        }
    }

    fn goto(&mut self, addr: u64) -> (r: Result<(), InterpreterError>)
        requires
            old(self).wf(),
        ensures
            final(self).wf(),
            final(self)@ == old(self)@.jump(addr).0,
            r is Ok <==> old(self)@.jump(addr).1 is Ok,
            r is Err ==> r == Err::<(), _>(InterpreterError::InvalidGoto),
    {
        if addr < self.program.len() as u64 {
            self.program_counter = addr as usize;
            Ok(())
        } else {
            Err(InterpreterError::InvalidGoto)
        }
    }

    /// Pops the top `a` and the second `b`.
    fn pop_two(&mut self) -> (r: Result<(u64, u64), InterpreterError>)
        requires
            old(self).wf(),
        ensures
            final(self).wf(),
            old(self)@.stack.len() < 2 ==> r == Err::<(u64, u64), _>(
                InterpreterError::StackUnderflow,
            ) && final(self)@ == old(self)@,
            old(self)@.stack.len() >= 2 ==> r == Ok::<_, InterpreterError>(
                (old(self)@.nth_from_top(0), old(self)@.nth_from_top(1)),
            ) && final(self)@ == old(self)@.drop_top(2),
    {
        if self.stack_length > 1 {
            let a = self.stack[self.stack_length - 1];
            let b = self.stack[self.stack_length - 2];
            self.stack_length = self.stack_length - 2;
            assert(self@.stack =~= old(self)@.drop_top(2).stack);
            Ok((a, b))
        } else {
            Err(InterpreterError::StackUnderflow)
        }
    }

    /// Push with confidence that the stack will not overflow
    fn confident_push(&mut self, value: u64)
        requires
            old(self).wf(),
            old(self)@.stack.len() < STACK_SIZE,
        ensures
            final(self).wf(),
            final(self)@ == old(self)@.with_stack(old(self)@.stack.push(value)),
    {
        self.stack.set(self.stack_length, value);
        self.stack_length = self.stack_length + 1;
        assert(self@.stack =~= old(self)@.stack.push(value));
    }

    fn get_nth_from_top(&self, nth_stack: u64) -> (r: Result<u64, InterpreterError>)
        requires
            self.wf(),
        ensures
            nth_stack >= self@.stack.len() ==> r == Err::<u64, _>(InterpreterError::StackUnderflow),
            nth_stack < self@.stack.len() ==> r == Ok::<_, InterpreterError>(
                self@.nth_from_top(nth_stack as int),
            ),
    {
        if nth_stack >= self.stack_length as u64 {
            return Err(InterpreterError::StackUnderflow);
        }
        let index = self.stack_length - nth_stack as usize - 1;
        Ok(self.stack[index])
    }

    fn set_nth_from_top(&mut self, nth_stack: u64, value: u64) -> (r: Result<(), InterpreterError>)
        requires
            old(self).wf(),
        ensures
            final(self).wf(),
            nth_stack >= old(self)@.stack.len() ==> r == Err::<(), _>(
                InterpreterError::StackUnderflow,
            ) && final(self)@ == old(self)@,
            nth_stack < old(self)@.stack.len() ==> r is Ok && final(self)@ == old(self)@.with_stack(
                old(self)@.stack.update(old(self)@.stack.len() - 1 - nth_stack, value),
            ),
    {
        if nth_stack >= self.stack_length as u64 {
            return Err(InterpreterError::StackUnderflow);
        }
        let index = self.stack_length - nth_stack as usize - 1;
        self.stack.set(index, value);
        assert(self@.stack =~= old(self)@.stack.update(old(self)@.stack.len() - 1 - nth_stack, value));
        Ok(())
    }

    /// Exchanges the top with the element `nth_stack` places below it.
    fn swap_nth(&mut self, nth_stack: u64) -> (r: Result<(), InterpreterError>)
        requires
            old(self).wf(),
        ensures
            final(self).wf(),
            nth_stack >= old(self)@.stack.len() ==> r == Err::<(), _>(
                InterpreterError::StackUnderflow,
            ) && final(self)@ == old(self)@,
            nth_stack < old(self)@.stack.len() ==> r is Ok && final(self)@ == old(self)@.with_stack(
                old(self)@.stack.update(
                    old(self)@.stack.len() - 1 - nth_stack,
                    old(self)@.nth_from_top(0),
                ).update(old(self)@.stack.len() - 1, old(self)@.nth_from_top(nth_stack as int)),
            ),
    {
        let a = self.get_nth_from_top(nth_stack)?;
        let b = self.get_nth_from_top(0)?;
        let _ = self.set_nth_from_top(nth_stack, b);
        let _ = self.set_nth_from_top(0, a);
        Ok(())
    }

    /// Fetches the byte at the program counter and advances past it.
    fn next_byte(&mut self) -> (r: Option<u8>)
        requires
            old(self).wf(),
        ensures
            final(self).wf(),
            old(self)@.pc < old(self)@.program.len() ==> r == Some(
                old(self)@.program[old(self)@.pc],
            ) && final(self)@ == (MachineState { pc: old(self)@.pc + 1, ..old(self)@ }),
            old(self)@.pc >= old(self)@.program.len() ==> r is None && final(self)@ == old(self)@,
    {
        if self.program_counter < self.program.len() {
            let v = self.program[self.program_counter];
            self.program_counter = self.program_counter + 1;
            Some(v)
        } else {
            None
        }
    }

    fn load_memory_offset(&self, offset: u64) -> (r: Result<u64, InterpreterError>)
        requires
            self.wf(),
        ensures
            offset >= TMP_MEMORY_SIZE ==> r == Err::<u64, _>(InterpreterError::InvalidMemoryOffset),
            offset < TMP_MEMORY_SIZE ==> r == Ok::<_, InterpreterError>(
                self@.memory[offset as int],
            ),
    {
        if offset < TMP_MEMORY_SIZE as u64 {
            Ok(self.memory[offset as usize])
        } else {
            Err(InterpreterError::InvalidMemoryOffset)
        }
    }

    fn set_memory_offset(&mut self, offset: u64, value: u64) -> (r: Result<(), InterpreterError>)
        requires
            old(self).wf(),
        ensures
            final(self).wf(),
            offset >= TMP_MEMORY_SIZE ==> r == Err::<(), _>(InterpreterError::InvalidMemoryOffset)
                && final(self)@ == old(self)@,
            offset < TMP_MEMORY_SIZE ==> r is Ok && final(self)@ == (MachineState {
                memory: old(self)@.memory.update(offset as int, value),
                ..old(self)@
            }),
    {
        if offset < TMP_MEMORY_SIZE as u64 {
            self.memory.set(offset as usize, value);
            Ok(())
        } else {
            Err(InterpreterError::InvalidMemoryOffset)
        }
    }

    /// Reads the next `width` program bytes as a little-endian operand and
    /// advances the program counter past them.
    fn read_parameter(&mut self, width: usize) -> (r: Result<u64, InterpreterError>)
        requires
            old(self).wf(),
            width <= 8,
        ensures
            final(self).wf(),
            old(self)@.pc + width > old(self)@.program.len() ==> r == Err::<u64, _>(
                InterpreterError::InvalidInstruction,
            ) && final(self)@ == old(self)@,
            old(self)@.pc + width <= old(self)@.program.len() ==> r == Ok::<_, InterpreterError>(
                le_value(old(self)@.program.subrange(old(self)@.pc, old(self)@.pc + width)) as u64,
            ) && final(self)@ == (MachineState { pc: old(self)@.pc + width, ..old(self)@ }),
    {
        if width > self.program.len() - self.program_counter {
            return Err(InterpreterError::InvalidInstruction);
        }
        let v = read_le(self.program.as_slice(), self.program_counter, self.program_counter + width);
        self.program_counter = self.program_counter + width;
        Ok(v)
    }

    /// Executes one instruction.
    pub fn next_instruction(&mut self) -> (r: Result<InterpreterEvent, InterpreterError>)
        requires
            old(self).wf(),
        ensures
            final(self).wf(),
            (final(self)@, r) == step(old(self)@),
    {
        if self.halted {
            return Ok(InterpreterEvent::ProgramEnd);
        }
        if let Some(instr) = self.next_byte() {
            match self.instruction_table[instr as usize] {
                Some(op) => instruction::execute(self, op),
                None => Err(InterpreterError::InvalidInstruction),
            }
        } else {
            Ok(InterpreterEvent::ProgramEnd)
        }
    }
}

} // verus!
