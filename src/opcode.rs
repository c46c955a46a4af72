use vstd::prelude::*;

use crate::text::{chars_eq, has_no_newline, is_word};

verus! {

/// One instruction kind of the machine.
///
/// Every opcode has exactly one byte in the binary format and one mnemonic in
/// the text format; `PushN` carries `N` little-endian operand bytes.
#[derive(Debug, Clone, Copy, PartialEq, Eq, Structural)]
pub enum Opcode {
    Pop,
    Add,
    Sub,
    Mul,
    Div,
    Goto,
    Halt,
    Dup,
    Swap,
    Mod,
    MemLoad,
    MemStore,
    /// Goto if not equal to zero
    GotoNz,
    Eq,
    Lt,
    Gt,
    Swap2,
    Dup2,
    Not,
    Dup3,
    Dup4,
    /// Marks a label position; behaves as `NoOp`.
    GotoTarget,
    Push0,
    Push1,
    Push2,
    Push3,
    Push4,
    Push5,
    Push6,
    Push7,
    Push8,
    NoOp,
    /// Pops a value and reports it as the verbosity flag.
    DbgSilent,
    /// Reports the top of the stack without removing it.
    Debug,
    /// Pops the top of the stack and reports its low byte as a character.
    DebugChar,
}

impl Opcode {
    /// The byte that encodes this opcode.
    pub open spec fn spec_byte(self) -> u8 {
        match self {
            Opcode::Pop => 1,
            Opcode::Add => 2,
            Opcode::Sub => 3,
            Opcode::Mul => 4,
            Opcode::Div => 5,
            Opcode::Goto => 6,
            Opcode::Halt => 7,
            Opcode::Dup => 8,
            Opcode::Swap => 9,
            Opcode::Mod => 10,
            Opcode::MemLoad => 11,
            Opcode::MemStore => 12,
            Opcode::GotoNz => 13,
            Opcode::Eq => 14,
            Opcode::Lt => 15,
            Opcode::Gt => 16,
            Opcode::Swap2 => 17,
            Opcode::Dup2 => 18,
            Opcode::Not => 19,
            Opcode::Dup3 => 20,
            Opcode::Dup4 => 21,
            Opcode::GotoTarget => 22,
            Opcode::Push0 => 32,
            Opcode::Push1 => 33,
            Opcode::Push2 => 34,
            Opcode::Push3 => 35,
            Opcode::Push4 => 36,
            Opcode::Push5 => 37,
            Opcode::Push6 => 38,
            Opcode::Push7 => 39,
            Opcode::Push8 => 40,
            Opcode::NoOp => 128,
            Opcode::DbgSilent => 253,
            Opcode::DebugChar => 254,
            Opcode::Debug => 255,
        }
    }

    /// The opcode that a byte encodes, if the byte is assigned.
    pub open spec fn spec_from_byte(b: u8) -> Option<Opcode> {
        if b == 1 { Some(Opcode::Pop) }
        else if b == 2 { Some(Opcode::Add) }
        else if b == 3 { Some(Opcode::Sub) }
        else if b == 4 { Some(Opcode::Mul) }
        else if b == 5 { Some(Opcode::Div) }
        else if b == 6 { Some(Opcode::Goto) }
        else if b == 7 { Some(Opcode::Halt) }
        else if b == 8 { Some(Opcode::Dup) }
        else if b == 9 { Some(Opcode::Swap) }
        else if b == 10 { Some(Opcode::Mod) }
        else if b == 11 { Some(Opcode::MemLoad) }
        else if b == 12 { Some(Opcode::MemStore) }
        else if b == 13 { Some(Opcode::GotoNz) }
        else if b == 14 { Some(Opcode::Eq) }
        else if b == 15 { Some(Opcode::Lt) }
        else if b == 16 { Some(Opcode::Gt) }
        else if b == 17 { Some(Opcode::Swap2) }
        else if b == 18 { Some(Opcode::Dup2) }
        else if b == 19 { Some(Opcode::Not) }
        else if b == 20 { Some(Opcode::Dup3) }
        else if b == 21 { Some(Opcode::Dup4) }
        else if b == 22 { Some(Opcode::GotoTarget) }
        else if b == 32 { Some(Opcode::Push0) }
        else if b == 33 { Some(Opcode::Push1) }
        else if b == 34 { Some(Opcode::Push2) }
        else if b == 35 { Some(Opcode::Push3) }
        else if b == 36 { Some(Opcode::Push4) }
        else if b == 37 { Some(Opcode::Push5) }
        else if b == 38 { Some(Opcode::Push6) }
        else if b == 39 { Some(Opcode::Push7) }
        else if b == 40 { Some(Opcode::Push8) }
        else if b == 128 { Some(Opcode::NoOp) }
        else if b == 253 { Some(Opcode::DbgSilent) }
        else if b == 254 { Some(Opcode::DebugChar) }
        else if b == 255 { Some(Opcode::Debug) }
        else { None }
    }

    /// Number of operand bytes that follow the opcode byte.
    pub open spec fn spec_operand_width(self) -> nat {
        match self {
            Opcode::Push1 => 1,
            Opcode::Push2 => 2,
            Opcode::Push3 => 3,
            Opcode::Push4 => 4,
            Opcode::Push5 => 5,
            Opcode::Push6 => 6,
            Opcode::Push7 => 7,
            Opcode::Push8 => 8,
            _ => 0,
        }
    }

    /// The push opcode whose operand is `n` bytes wide.
    pub open spec fn spec_push_of_width(n: nat) -> Opcode {
        if n == 0 { Opcode::Push0 }
        else if n == 1 { Opcode::Push1 }
        else if n == 2 { Opcode::Push2 }
        else if n == 3 { Opcode::Push3 }
        else if n == 4 { Opcode::Push4 }
        else if n == 5 { Opcode::Push5 }
        else if n == 6 { Opcode::Push6 }
        else if n == 7 { Opcode::Push7 }
        else { Opcode::Push8 }
    }

    pub open spec fn is_push(self) -> bool {
        match self {
            Opcode::Push0 | Opcode::Push1 | Opcode::Push2 | Opcode::Push3 | Opcode::Push4
            | Opcode::Push5 | Opcode::Push6 | Opcode::Push7 | Opcode::Push8 => true,
            _ => false,
        }
    }

    /// The mnemonic of the opcode in assembly text.
    pub open spec fn spec_mnemonic(self) -> Seq<char> {
        match self {
            Opcode::Push0 => "PUSH0"@,
            Opcode::Push1 => "PUSH1"@,
            Opcode::Push2 => "PUSH2"@,
            Opcode::Push3 => "PUSH3"@,
            Opcode::Push4 => "PUSH4"@,
            Opcode::Push5 => "PUSH5"@,
            Opcode::Push6 => "PUSH6"@,
            Opcode::Push7 => "PUSH7"@,
            Opcode::Push8 => "PUSH8"@,
            Opcode::Pop => "POP"@,
            Opcode::Goto => "GOTO"@,
            Opcode::Add => "ADD"@,
            Opcode::Sub => "SUB"@,
            Opcode::Mul => "MUL"@,
            Opcode::Div => "DIV"@,
            Opcode::Halt => "HALT"@,
            Opcode::Dup => "DUP"@,
            Opcode::Dup2 => "DUP2"@,
            Opcode::Dup3 => "DUP3"@,
            Opcode::Dup4 => "DUP4"@,
            Opcode::Swap => "SWAP"@,
            Opcode::Swap2 => "SWAP2"@,
            Opcode::Mod => "MOD"@,
            Opcode::MemLoad => "MLOAD"@,
            Opcode::MemStore => "MSTORE"@,
            Opcode::GotoNz => "GOTONZ"@,
            Opcode::Eq => "EQ"@,
            Opcode::Lt => "LT"@,
            Opcode::Gt => "GT"@,
            Opcode::Not => "NOT"@,
            Opcode::NoOp => "NOOP"@,
            Opcode::Debug => "DEBUG"@,
            Opcode::DebugChar => "DEBUGCHAR"@,
            Opcode::GotoTarget => "GOTOTARGET"@,
            Opcode::DbgSilent => "DBGSILENT"@,
        }
    }

    /// The opcode named by a mnemonic, if any.
    pub open spec fn spec_from_mnemonic(t: Seq<char>) -> Option<Opcode> {
        if t == "PUSH0"@ { Some(Opcode::Push0) }
        else if t == "PUSH1"@ { Some(Opcode::Push1) }
        else if t == "PUSH2"@ { Some(Opcode::Push2) }
        else if t == "PUSH3"@ { Some(Opcode::Push3) }
        else if t == "PUSH4"@ { Some(Opcode::Push4) }
        else if t == "PUSH5"@ { Some(Opcode::Push5) }
        else if t == "PUSH6"@ { Some(Opcode::Push6) }
        else if t == "PUSH7"@ { Some(Opcode::Push7) }
        else if t == "PUSH8"@ { Some(Opcode::Push8) }
        else if t == "POP"@ { Some(Opcode::Pop) }
        else if t == "GOTO"@ { Some(Opcode::Goto) }
        else if t == "ADD"@ { Some(Opcode::Add) }
        else if t == "SUB"@ { Some(Opcode::Sub) }
        else if t == "MUL"@ { Some(Opcode::Mul) }
        else if t == "DIV"@ { Some(Opcode::Div) }
        else if t == "HALT"@ { Some(Opcode::Halt) }
        else if t == "DUP"@ { Some(Opcode::Dup) }
        else if t == "DUP2"@ { Some(Opcode::Dup2) }
        else if t == "DUP3"@ { Some(Opcode::Dup3) }
        else if t == "DUP4"@ { Some(Opcode::Dup4) }
        else if t == "SWAP"@ { Some(Opcode::Swap) }
        else if t == "SWAP2"@ { Some(Opcode::Swap2) }
        else if t == "MOD"@ { Some(Opcode::Mod) }
        else if t == "MLOAD"@ { Some(Opcode::MemLoad) }
        else if t == "MSTORE"@ { Some(Opcode::MemStore) }
        else if t == "GOTONZ"@ { Some(Opcode::GotoNz) }
        else if t == "GOTOTARGET"@ { Some(Opcode::GotoTarget) }
        else if t == "EQ"@ { Some(Opcode::Eq) }
        else if t == "LT"@ { Some(Opcode::Lt) }
        else if t == "GT"@ { Some(Opcode::Gt) }
        else if t == "NOT"@ { Some(Opcode::Not) }
        else if t == "NOOP"@ { Some(Opcode::NoOp) }
        else if t == "DEBUG"@ { Some(Opcode::Debug) }
        else if t == "DEBUGCHAR"@ { Some(Opcode::DebugChar) }
        else if t == "DBGSILENT"@ { Some(Opcode::DbgSilent) }
        else { None }
    }

    /// Decodes one byte; unassigned bytes give `None`.
    pub fn from_byte(input: u8) -> (r: Option<Opcode>)
        ensures
            r == Opcode::spec_from_byte(input),
    {
        match input {
            1 => Some(Opcode::Pop),
            2 => Some(Opcode::Add),
            3 => Some(Opcode::Sub),
            4 => Some(Opcode::Mul),
            5 => Some(Opcode::Div),
            6 => Some(Opcode::Goto),
            7 => Some(Opcode::Halt),
            8 => Some(Opcode::Dup),
            9 => Some(Opcode::Swap),
            10 => Some(Opcode::Mod),
            11 => Some(Opcode::MemLoad),
            12 => Some(Opcode::MemStore),
            13 => Some(Opcode::GotoNz),
            14 => Some(Opcode::Eq),
            15 => Some(Opcode::Lt),
            16 => Some(Opcode::Gt),
            17 => Some(Opcode::Swap2),
            18 => Some(Opcode::Dup2),
            19 => Some(Opcode::Not),
            20 => Some(Opcode::Dup3),
            21 => Some(Opcode::Dup4),
            22 => Some(Opcode::GotoTarget),
            32 => Some(Opcode::Push0),
            33 => Some(Opcode::Push1),
            34 => Some(Opcode::Push2),
            35 => Some(Opcode::Push3),
            36 => Some(Opcode::Push4),
            37 => Some(Opcode::Push5),
            38 => Some(Opcode::Push6),
            39 => Some(Opcode::Push7),
            40 => Some(Opcode::Push8),
            128 => Some(Opcode::NoOp),
            253 => Some(Opcode::DbgSilent),
            254 => Some(Opcode::DebugChar),
            255 => Some(Opcode::Debug),
            _ => None,
        }
    }

    /// The byte that encodes this opcode.
    pub fn to_byte(self) -> (r: u8)
        ensures
            r == self.spec_byte(),
    {
        match self {
            Opcode::Pop => 1,
            Opcode::Add => 2,
            Opcode::Sub => 3,
            Opcode::Mul => 4,
            Opcode::Div => 5,
            Opcode::Goto => 6,
            Opcode::Halt => 7,
            Opcode::Dup => 8,
            Opcode::Swap => 9,
            Opcode::Mod => 10,
            Opcode::MemLoad => 11,
            Opcode::MemStore => 12,
            Opcode::GotoNz => 13,
            Opcode::Eq => 14,
            Opcode::Lt => 15,
            Opcode::Gt => 16,
            Opcode::Swap2 => 17,
            Opcode::Dup2 => 18,
            Opcode::Not => 19,
            Opcode::Dup3 => 20,
            Opcode::Dup4 => 21,
            Opcode::GotoTarget => 22,
            Opcode::Push0 => 32,
            Opcode::Push1 => 33,
            Opcode::Push2 => 34,
            Opcode::Push3 => 35,
            Opcode::Push4 => 36,
            Opcode::Push5 => 37,
            Opcode::Push6 => 38,
            Opcode::Push7 => 39,
            Opcode::Push8 => 40,
            Opcode::NoOp => 128,
            Opcode::DbgSilent => 253,
            Opcode::DebugChar => 254,
            Opcode::Debug => 255,
        }
    }

    /// Number of operand bytes that follow the opcode byte.
    pub fn operand_width(self) -> (r: usize)
        ensures
            r as nat == self.spec_operand_width(),
            r <= 8,
    {
        match self {
            Opcode::Push1 => 1,
            Opcode::Push2 => 2,
            Opcode::Push3 => 3,
            Opcode::Push4 => 4,
            Opcode::Push5 => 5,
            Opcode::Push6 => 6,
            Opcode::Push7 => 7,
            Opcode::Push8 => 8,
            _ => 0,
        }
    }

    /// The push opcode whose operand is `n` bytes wide.
    pub fn push_of_width(n: usize) -> (r: Opcode)
        requires
            n <= 8,
        ensures
            r == Opcode::spec_push_of_width(n as nat),
            r.spec_operand_width() == n,
    {
        match n {
            0 => Opcode::Push0,
            1 => Opcode::Push1,
            2 => Opcode::Push2,
            3 => Opcode::Push3,
            4 => Opcode::Push4,
            5 => Opcode::Push5,
            6 => Opcode::Push6,
            7 => Opcode::Push7,
            _ => Opcode::Push8,
        }
    }

    /// The opcode that a mnemonic names, if any.
    pub fn from_mnemonic(t: &[char]) -> (r: Option<Opcode>)
        ensures
            r == Opcode::spec_from_mnemonic(t@),
    {
        if chars_eq(t, "PUSH0") {
            Some(Opcode::Push0)
        } else if chars_eq(t, "PUSH1") {
            Some(Opcode::Push1)
        } else if chars_eq(t, "PUSH2") {
            Some(Opcode::Push2)
        } else if chars_eq(t, "PUSH3") {
            Some(Opcode::Push3)
        } else if chars_eq(t, "PUSH4") {
            Some(Opcode::Push4)
        } else if chars_eq(t, "PUSH5") {
            Some(Opcode::Push5)
        } else if chars_eq(t, "PUSH6") {
            Some(Opcode::Push6)
        } else if chars_eq(t, "PUSH7") {
            Some(Opcode::Push7)
        } else if chars_eq(t, "PUSH8") {
            Some(Opcode::Push8)
        } else if chars_eq(t, "POP") {
            Some(Opcode::Pop)
        } else if chars_eq(t, "GOTO") {
            Some(Opcode::Goto)
        } else if chars_eq(t, "ADD") {
            Some(Opcode::Add)
        } else if chars_eq(t, "SUB") {
            Some(Opcode::Sub)
        } else if chars_eq(t, "MUL") {
            Some(Opcode::Mul)
        } else if chars_eq(t, "DIV") {
            Some(Opcode::Div)
        } else if chars_eq(t, "HALT") {
            Some(Opcode::Halt)
        } else if chars_eq(t, "DUP") {
            Some(Opcode::Dup)
        } else if chars_eq(t, "DUP2") {
            Some(Opcode::Dup2)
        } else if chars_eq(t, "DUP3") {
            Some(Opcode::Dup3)
        } else if chars_eq(t, "DUP4") {
            Some(Opcode::Dup4)
        } else if chars_eq(t, "SWAP") {
            Some(Opcode::Swap)
        } else if chars_eq(t, "SWAP2") {
            Some(Opcode::Swap2)
        } else if chars_eq(t, "MOD") {
            Some(Opcode::Mod)
        } else if chars_eq(t, "MLOAD") {
            Some(Opcode::MemLoad)
        } else if chars_eq(t, "MSTORE") {
            Some(Opcode::MemStore)
        } else if chars_eq(t, "GOTONZ") {
            Some(Opcode::GotoNz)
        } else if chars_eq(t, "GOTOTARGET") {
            Some(Opcode::GotoTarget)
        } else if chars_eq(t, "EQ") {
            Some(Opcode::Eq)
        } else if chars_eq(t, "LT") {
            Some(Opcode::Lt)
        } else if chars_eq(t, "GT") {
            Some(Opcode::Gt)
        } else if chars_eq(t, "NOT") {
            Some(Opcode::Not)
        } else if chars_eq(t, "NOOP") {
            Some(Opcode::NoOp)
        } else if chars_eq(t, "DEBUG") {
            Some(Opcode::Debug)
        } else if chars_eq(t, "DEBUGCHAR") {
            Some(Opcode::DebugChar)
        } else if chars_eq(t, "DBGSILENT") {
            Some(Opcode::DbgSilent)
        } else {
            None
        }
    }

    /// The mnemonic of the opcode in assembly text.
    pub fn mnemonic(self) -> (r: &'static str)
        ensures
            r@ == self.spec_mnemonic(),
    {
        match self {
            Opcode::Push0 => "PUSH0",
            Opcode::Push1 => "PUSH1",
            Opcode::Push2 => "PUSH2",
            Opcode::Push3 => "PUSH3",
            Opcode::Push4 => "PUSH4",
            Opcode::Push5 => "PUSH5",
            Opcode::Push6 => "PUSH6",
            Opcode::Push7 => "PUSH7",
            Opcode::Push8 => "PUSH8",
            Opcode::Pop => "POP",
            Opcode::Goto => "GOTO",
            Opcode::Add => "ADD",
            Opcode::Sub => "SUB",
            Opcode::Mul => "MUL",
            Opcode::Div => "DIV",
            Opcode::Halt => "HALT",
            Opcode::Dup => "DUP",
            Opcode::Dup2 => "DUP2",
            Opcode::Dup3 => "DUP3",
            Opcode::Dup4 => "DUP4",
            Opcode::Swap => "SWAP",
            Opcode::Swap2 => "SWAP2",
            Opcode::Mod => "MOD",
            Opcode::MemLoad => "MLOAD",
            Opcode::MemStore => "MSTORE",
            Opcode::GotoNz => "GOTONZ",
            Opcode::Eq => "EQ",
            Opcode::Lt => "LT",
            Opcode::Gt => "GT",
            Opcode::Not => "NOT",
            Opcode::NoOp => "NOOP",
            Opcode::Debug => "DEBUG",
            Opcode::DebugChar => "DEBUGCHAR",
            Opcode::GotoTarget => "GOTOTARGET",
            Opcode::DbgSilent => "DBGSILENT",
        }
    }
}

impl From<Opcode> for u8 {
    fn from(val: Opcode) -> (r: u8) {
        val.to_byte()
    }
}

impl vstd::std_specs::convert::FromSpecImpl<Opcode> for u8 {
    open spec fn obeys_from_spec() -> bool {
        true
    }

    open spec fn from_spec(v: Opcode) -> u8 {
        v.spec_byte()
    }
}

/// Every opcode's byte decodes back to that opcode, and every byte that
/// decodes names the opcode whose byte it is: the table is a bijection
/// between opcodes and assigned bytes.
pub proof fn lemma_byte_encoding_bijective(op: Opcode, b: u8)
    ensures
        Opcode::spec_from_byte(op.spec_byte()) == Some(op),
        Opcode::spec_from_byte(b) == Some(op) <==> op.spec_byte() == b,
{
}

/// Every mnemonic is a single word, without newlines, that names its own
/// opcode.
pub proof fn lemma_mnemonic_round_trip(op: Opcode)
    ensures
        is_word(op.spec_mnemonic()),
        has_no_newline(op.spec_mnemonic()),
        Opcode::spec_from_mnemonic(op.spec_mnemonic()) == Some(op),
{
    // Each literal's length and characters are spelled out so that the
    // solver can tell the mnemonics apart.
    reveal_strlit("PUSH0");
    assert("PUSH0"@.len() == 5 && "PUSH0"@[0] == 'P' && "PUSH0"@[1] == 'U' && "PUSH0"@[2] == 'S'
        && "PUSH0"@[3] == 'H' && "PUSH0"@[4] == '0');
    reveal_strlit("PUSH1");
    assert("PUSH1"@.len() == 5 && "PUSH1"@[0] == 'P' && "PUSH1"@[1] == 'U' && "PUSH1"@[2] == 'S'
        && "PUSH1"@[3] == 'H' && "PUSH1"@[4] == '1');
    reveal_strlit("PUSH2");
    assert("PUSH2"@.len() == 5 && "PUSH2"@[0] == 'P' && "PUSH2"@[1] == 'U' && "PUSH2"@[2] == 'S'
        && "PUSH2"@[3] == 'H' && "PUSH2"@[4] == '2');
    reveal_strlit("PUSH3");
    assert("PUSH3"@.len() == 5 && "PUSH3"@[0] == 'P' && "PUSH3"@[1] == 'U' && "PUSH3"@[2] == 'S'
        && "PUSH3"@[3] == 'H' && "PUSH3"@[4] == '3');
    reveal_strlit("PUSH4");
    assert("PUSH4"@.len() == 5 && "PUSH4"@[0] == 'P' && "PUSH4"@[1] == 'U' && "PUSH4"@[2] == 'S'
        && "PUSH4"@[3] == 'H' && "PUSH4"@[4] == '4');
    reveal_strlit("PUSH5");
    assert("PUSH5"@.len() == 5 && "PUSH5"@[0] == 'P' && "PUSH5"@[1] == 'U' && "PUSH5"@[2] == 'S'
        && "PUSH5"@[3] == 'H' && "PUSH5"@[4] == '5');
    reveal_strlit("PUSH6");
    assert("PUSH6"@.len() == 5 && "PUSH6"@[0] == 'P' && "PUSH6"@[1] == 'U' && "PUSH6"@[2] == 'S'
        && "PUSH6"@[3] == 'H' && "PUSH6"@[4] == '6');
    reveal_strlit("PUSH7");
    assert("PUSH7"@.len() == 5 && "PUSH7"@[0] == 'P' && "PUSH7"@[1] == 'U' && "PUSH7"@[2] == 'S'
        && "PUSH7"@[3] == 'H' && "PUSH7"@[4] == '7');
    reveal_strlit("PUSH8");
    assert("PUSH8"@.len() == 5 && "PUSH8"@[0] == 'P' && "PUSH8"@[1] == 'U' && "PUSH8"@[2] == 'S'
        && "PUSH8"@[3] == 'H' && "PUSH8"@[4] == '8');
    reveal_strlit("POP");
    assert("POP"@.len() == 3 && "POP"@[0] == 'P' && "POP"@[1] == 'O' && "POP"@[2] == 'P');
    reveal_strlit("GOTO");
    assert("GOTO"@.len() == 4 && "GOTO"@[0] == 'G' && "GOTO"@[1] == 'O' && "GOTO"@[2] == 'T'
        && "GOTO"@[3] == 'O');
    reveal_strlit("ADD");
    assert("ADD"@.len() == 3 && "ADD"@[0] == 'A' && "ADD"@[1] == 'D' && "ADD"@[2] == 'D');
    reveal_strlit("SUB");
    assert("SUB"@.len() == 3 && "SUB"@[0] == 'S' && "SUB"@[1] == 'U' && "SUB"@[2] == 'B');
    reveal_strlit("MUL");
    assert("MUL"@.len() == 3 && "MUL"@[0] == 'M' && "MUL"@[1] == 'U' && "MUL"@[2] == 'L');
    reveal_strlit("DIV");
    assert("DIV"@.len() == 3 && "DIV"@[0] == 'D' && "DIV"@[1] == 'I' && "DIV"@[2] == 'V');
    reveal_strlit("HALT");
    assert("HALT"@.len() == 4 && "HALT"@[0] == 'H' && "HALT"@[1] == 'A' && "HALT"@[2] == 'L'
        && "HALT"@[3] == 'T');
    reveal_strlit("DUP");
    assert("DUP"@.len() == 3 && "DUP"@[0] == 'D' && "DUP"@[1] == 'U' && "DUP"@[2] == 'P');
    reveal_strlit("DUP2");
    assert("DUP2"@.len() == 4 && "DUP2"@[0] == 'D' && "DUP2"@[1] == 'U' && "DUP2"@[2] == 'P'
        && "DUP2"@[3] == '2');
    reveal_strlit("DUP3");
    assert("DUP3"@.len() == 4 && "DUP3"@[0] == 'D' && "DUP3"@[1] == 'U' && "DUP3"@[2] == 'P'
        && "DUP3"@[3] == '3');
    reveal_strlit("DUP4");
    assert("DUP4"@.len() == 4 && "DUP4"@[0] == 'D' && "DUP4"@[1] == 'U' && "DUP4"@[2] == 'P'
        && "DUP4"@[3] == '4');
    reveal_strlit("SWAP");
    assert("SWAP"@.len() == 4 && "SWAP"@[0] == 'S' && "SWAP"@[1] == 'W' && "SWAP"@[2] == 'A'
        && "SWAP"@[3] == 'P');
    reveal_strlit("SWAP2");
    assert("SWAP2"@.len() == 5 && "SWAP2"@[0] == 'S' && "SWAP2"@[1] == 'W' && "SWAP2"@[2] == 'A'
        && "SWAP2"@[3] == 'P' && "SWAP2"@[4] == '2');
    reveal_strlit("MOD");
    assert("MOD"@.len() == 3 && "MOD"@[0] == 'M' && "MOD"@[1] == 'O' && "MOD"@[2] == 'D');
    reveal_strlit("MLOAD");
    assert("MLOAD"@.len() == 5 && "MLOAD"@[0] == 'M' && "MLOAD"@[1] == 'L' && "MLOAD"@[2] == 'O'
        && "MLOAD"@[3] == 'A' && "MLOAD"@[4] == 'D');
    reveal_strlit("MSTORE");
    assert("MSTORE"@.len() == 6 && "MSTORE"@[0] == 'M' && "MSTORE"@[1] == 'S'
        && "MSTORE"@[2] == 'T' && "MSTORE"@[3] == 'O' && "MSTORE"@[4] == 'R'
        && "MSTORE"@[5] == 'E');
    reveal_strlit("GOTONZ");
    assert("GOTONZ"@.len() == 6 && "GOTONZ"@[0] == 'G' && "GOTONZ"@[1] == 'O'
        && "GOTONZ"@[2] == 'T' && "GOTONZ"@[3] == 'O' && "GOTONZ"@[4] == 'N'
        && "GOTONZ"@[5] == 'Z');
    reveal_strlit("GOTOTARGET");
    assert("GOTOTARGET"@.len() == 10 && "GOTOTARGET"@[0] == 'G' && "GOTOTARGET"@[1] == 'O'
        && "GOTOTARGET"@[2] == 'T' && "GOTOTARGET"@[3] == 'O' && "GOTOTARGET"@[4] == 'T'
        && "GOTOTARGET"@[5] == 'A' && "GOTOTARGET"@[6] == 'R' && "GOTOTARGET"@[7] == 'G'
        && "GOTOTARGET"@[8] == 'E' && "GOTOTARGET"@[9] == 'T');
    reveal_strlit("EQ");
    assert("EQ"@.len() == 2 && "EQ"@[0] == 'E' && "EQ"@[1] == 'Q');
    reveal_strlit("LT");
    assert("LT"@.len() == 2 && "LT"@[0] == 'L' && "LT"@[1] == 'T');
    reveal_strlit("GT");
    assert("GT"@.len() == 2 && "GT"@[0] == 'G' && "GT"@[1] == 'T');
    reveal_strlit("NOT");
    assert("NOT"@.len() == 3 && "NOT"@[0] == 'N' && "NOT"@[1] == 'O' && "NOT"@[2] == 'T');
    reveal_strlit("NOOP");
    assert("NOOP"@.len() == 4 && "NOOP"@[0] == 'N' && "NOOP"@[1] == 'O' && "NOOP"@[2] == 'O'
        && "NOOP"@[3] == 'P');
    reveal_strlit("DEBUG");
    assert("DEBUG"@.len() == 5 && "DEBUG"@[0] == 'D' && "DEBUG"@[1] == 'E' && "DEBUG"@[2] == 'B'
        && "DEBUG"@[3] == 'U' && "DEBUG"@[4] == 'G');
    reveal_strlit("DEBUGCHAR");
    assert("DEBUGCHAR"@.len() == 9 && "DEBUGCHAR"@[0] == 'D' && "DEBUGCHAR"@[1] == 'E'
        && "DEBUGCHAR"@[2] == 'B' && "DEBUGCHAR"@[3] == 'U' && "DEBUGCHAR"@[4] == 'G'
        && "DEBUGCHAR"@[5] == 'C' && "DEBUGCHAR"@[6] == 'H' && "DEBUGCHAR"@[7] == 'A'
        && "DEBUGCHAR"@[8] == 'R');
    reveal_strlit("DBGSILENT");
    assert("DBGSILENT"@.len() == 9 && "DBGSILENT"@[0] == 'D' && "DBGSILENT"@[1] == 'B'
        && "DBGSILENT"@[2] == 'G' && "DBGSILENT"@[3] == 'S' && "DBGSILENT"@[4] == 'I'
        && "DBGSILENT"@[5] == 'L' && "DBGSILENT"@[6] == 'E' && "DBGSILENT"@[7] == 'N'
        && "DBGSILENT"@[8] == 'T');
}

} // verus!
