//! The operations of the machine and their numeric codes.

use vstd::prelude::*;
use crate::text::{is_word, lowercase};

verus! {

/// One operation of the machine. `IGL` stands for every byte or mnemonic
/// that names no operation.
#[derive(Debug, Clone, Copy, PartialEq, Eq, Structural)]
pub enum Opcode {
    HLT,
    LOAD,
    ADD,
    SUB,
    MUL,
    DIV,
    JMP,
    JMPF,
    JMPB,
    EQ,
    NEQ,
    GT,
    LT,
    GTQ,
    LTQ,
    JEQ,
    JNEQ,
    ALOC,
    INC,
    DEC,
    IGL,
}

impl Opcode {
    /// The byte that stands for this operation in an image.
    pub open spec fn code(self) -> u8 {
        match self {
            Opcode::HLT => 0,
            Opcode::LOAD => 1,
            Opcode::ADD => 2,
            Opcode::SUB => 3,
            Opcode::MUL => 4,
            Opcode::DIV => 5,
            Opcode::JMP => 6,
            Opcode::JMPF => 7,
            Opcode::JMPB => 8,
            Opcode::EQ => 9,
            Opcode::NEQ => 10,
            Opcode::GT => 11,
            Opcode::LT => 12,
            Opcode::GTQ => 13,
            Opcode::LTQ => 14,
            Opcode::JEQ => 15,
            Opcode::JNEQ => 16,
            Opcode::ALOC => 17,
            Opcode::INC => 18,
            Opcode::DEC => 19,
            Opcode::IGL => 20,
        }
    }

    /// The operation that a byte of an image stands for.
    pub open spec fn of_code(byte: u8) -> Opcode {
        if byte == 0 {
            Opcode::HLT
        } else if byte == 1 {
            Opcode::LOAD
        } else if byte == 2 {
            Opcode::ADD
        } else if byte == 3 {
            Opcode::SUB
        } else if byte == 4 {
            Opcode::MUL
        } else if byte == 5 {
            Opcode::DIV
        } else if byte == 6 {
            Opcode::JMP
        } else if byte == 7 {
            Opcode::JMPF
        } else if byte == 8 {
            Opcode::JMPB
        } else if byte == 9 {
            Opcode::EQ
        } else if byte == 10 {
            Opcode::NEQ
        } else if byte == 11 {
            Opcode::GT
        } else if byte == 12 {
            Opcode::LT
        } else if byte == 13 {
            Opcode::GTQ
        } else if byte == 14 {
            Opcode::LTQ
        } else if byte == 15 {
            Opcode::JEQ
        } else if byte == 16 {
            Opcode::JNEQ
        } else if byte == 17 {
            Opcode::ALOC
        } else if byte == 18 {
            Opcode::INC
        } else if byte == 19 {
            Opcode::DEC
        } else {
            Opcode::IGL
        }
    }
}

impl Opcode {
    /// The operation whose mnemonic, in small letters, is `word`.
    pub open spec fn named(word: Seq<char>) -> Opcode {
        if word == "hlt"@ {
            Opcode::HLT
        } else if word == "load"@ {
            Opcode::LOAD
        } else if word == "add"@ {
            Opcode::ADD
        } else if word == "sub"@ {
            Opcode::SUB
        } else if word == "mul"@ {
            Opcode::MUL
        } else if word == "div"@ {
            Opcode::DIV
        } else if word == "jmp"@ {
            Opcode::JMP
        } else if word == "jmpf"@ {
            Opcode::JMPF
        } else if word == "jmpb"@ {
            Opcode::JMPB
        } else if word == "eq"@ {
            Opcode::EQ
        } else if word == "neq"@ {
            Opcode::NEQ
        } else if word == "gt"@ {
            Opcode::GT
        } else if word == "lt"@ {
            Opcode::LT
        } else if word == "gtq"@ {
            Opcode::GTQ
        } else if word == "ltq"@ {
            Opcode::LTQ
        } else if word == "jeq"@ {
            Opcode::JEQ
        } else if word == "jneq"@ {
            Opcode::JNEQ
        } else if word == "aloc"@ {
            Opcode::ALOC
        } else if word == "inc"@ {
            Opcode::INC
        } else if word == "dec"@ {
            Opcode::DEC
        } else {
            Opcode::IGL
        }
    }
}

impl Opcode {
    /// How many registers an instruction of this operation names; their
    /// numbers are the bytes behind the opcode.
    pub open spec fn register_operands(self) -> nat {
        match self {
            Opcode::HLT | Opcode::IGL => 0,
            Opcode::ADD | Opcode::SUB | Opcode::MUL | Opcode::DIV => 3,
            Opcode::EQ | Opcode::NEQ | Opcode::GT | Opcode::LT | Opcode::GTQ | Opcode::LTQ => 2,
            _ => 1,
        }
    }

    /// Whether an instruction of this operation holds a sixteen-bit number
    /// in its last two bytes.
    pub open spec fn has_immediate(self) -> bool {
        self == Opcode::LOAD
    }

    /// How many bytes an instruction of this operation reads behind its
    /// opcode, padding included.
    pub open spec fn operand_width(self) -> nat {
        match self {
            Opcode::HLT | Opcode::IGL => 0,
            Opcode::JMP | Opcode::JMPF | Opcode::JMPB | Opcode::JEQ | Opcode::JNEQ => 1,
            _ => 3,
        }
    }
}

/// The sixteen-bit number that a high and a low byte spell.
pub open spec fn immediate(high: u8, low: u8) -> int {
    high as int * 256 + low as int
}

/// An instruction as the machine reads it: its operation, the numbers of
/// the registers that it names, in their order, and its sixteen-bit number
/// where it has one.
#[verifier::ext_equal]
pub struct Decoded {
    pub opcode: Opcode,
    pub registers: Seq<u8>,
    pub immediate: Option<int>,
}

/// The instruction that the bytes of `program` from position `at` on spell.
pub open spec fn decode(program: Seq<u8>, at: int) -> Decoded
    recommends
        0 <= at,
        at + 1 + Opcode::of_code(program[at]).operand_width() <= program.len(),
{
    let opcode = Opcode::of_code(program[at]);
    Decoded {
        opcode,
        registers: program.subrange(at + 1, at + 1 + opcode.register_operands()),
        immediate: if opcode.has_immediate() {
            Some(immediate(program[at + 2], program[at + 3]))
        } else {
            None
        },
    }
}

impl From<u8> for Opcode {
    fn from(v: u8) -> (op: Opcode) {
        match v {
            0 => Opcode::HLT,
            1 => Opcode::LOAD,
            2 => Opcode::ADD,
            3 => Opcode::SUB,
            4 => Opcode::MUL,
            5 => Opcode::DIV,
            6 => Opcode::JMP,
            7 => Opcode::JMPF,
            8 => Opcode::JMPB,
            9 => Opcode::EQ,
            10 => Opcode::NEQ,
            11 => Opcode::GT,
            12 => Opcode::LT,
            13 => Opcode::GTQ,
            14 => Opcode::LTQ,
            15 => Opcode::JEQ,
            16 => Opcode::JNEQ,
            17 => Opcode::ALOC,
            18 => Opcode::INC,
            19 => Opcode::DEC,
            _ => Opcode::IGL,
        }
    }
}

impl vstd::std_specs::convert::FromSpecImpl<u8> for Opcode {
    open spec fn obeys_from_spec() -> bool {
        true
    }

    open spec fn from_spec(v: u8) -> Opcode {
        Opcode::of_code(v)
    }
}

impl From<Opcode> for u8 {
    fn from(op: Opcode) -> (byte: u8) {
        match op {
            Opcode::HLT => 0,
            Opcode::LOAD => 1,
            Opcode::ADD => 2,
            Opcode::SUB => 3,
            Opcode::MUL => 4,
            Opcode::DIV => 5,
            Opcode::JMP => 6,
            Opcode::JMPF => 7,
            Opcode::JMPB => 8,
            Opcode::EQ => 9,
            Opcode::NEQ => 10,
            Opcode::GT => 11,
            Opcode::LT => 12,
            Opcode::GTQ => 13,
            Opcode::LTQ => 14,
            Opcode::JEQ => 15,
            Opcode::JNEQ => 16,
            Opcode::ALOC => 17,
            Opcode::INC => 18,
            Opcode::DEC => 19,
            Opcode::IGL => 20,
        }
    }
}

impl vstd::std_specs::convert::FromSpecImpl<Opcode> for u8 {
    open spec fn obeys_from_spec() -> bool {
        true
    }

    open spec fn from_spec(op: Opcode) -> u8 {
        op.code()
    }
}

impl<'a> From<&'a str> for Opcode {
    /// The operation that the mnemonic `s` names, in small or capital
    /// letters.
    fn from(s: &'a str) -> (op: Opcode) {
        proof {
            reveal_strlit("hlt");
            reveal_strlit("load");
            reveal_strlit("add");
            reveal_strlit("sub");
            reveal_strlit("mul");
            reveal_strlit("div");
            reveal_strlit("jmp");
            reveal_strlit("jmpf");
            reveal_strlit("jmpb");
            reveal_strlit("eq");
            reveal_strlit("neq");
            reveal_strlit("gt");
            reveal_strlit("lt");
            reveal_strlit("gtq");
            reveal_strlit("ltq");
            reveal_strlit("jeq");
            reveal_strlit("jneq");
            reveal_strlit("aloc");
            reveal_strlit("inc");
            reveal_strlit("dec");
        }
        if is_word(s, "hlt") {
            Opcode::HLT
        } else if is_word(s, "load") {
            Opcode::LOAD
        } else if is_word(s, "add") {
            Opcode::ADD
        } else if is_word(s, "sub") {
            Opcode::SUB
        } else if is_word(s, "mul") {
            Opcode::MUL
        } else if is_word(s, "div") {
            Opcode::DIV
        } else if is_word(s, "jmp") {
            Opcode::JMP
        } else if is_word(s, "jmpf") {
            Opcode::JMPF
        } else if is_word(s, "jmpb") {
            Opcode::JMPB
        } else if is_word(s, "eq") {
            Opcode::EQ
        } else if is_word(s, "neq") {
            Opcode::NEQ
        } else if is_word(s, "gt") {
            Opcode::GT
        } else if is_word(s, "lt") {
            Opcode::LT
        } else if is_word(s, "gtq") {
            Opcode::GTQ
        } else if is_word(s, "ltq") {
            Opcode::LTQ
        } else if is_word(s, "jeq") {
            Opcode::JEQ
        } else if is_word(s, "jneq") {
            Opcode::JNEQ
        } else if is_word(s, "aloc") {
            Opcode::ALOC
        } else if is_word(s, "inc") {
            Opcode::INC
        } else if is_word(s, "dec") {
            Opcode::DEC
        } else {
            Opcode::IGL
        }
    }
}

impl<'a> vstd::std_specs::convert::FromSpecImpl<&'a str> for Opcode {
    open spec fn obeys_from_spec() -> bool {
        true
    }

    open spec fn from_spec(s: &'a str) -> Opcode {
        Opcode::named(lowercase(s@))
    }
}

/// An operation as the machine holds it once decoded.
#[derive(Debug, PartialEq, Eq, Structural)]
pub struct Instruction {
    pub opcode: Opcode,
}

impl Instruction {
    pub fn new(opcode: Opcode) -> (instruction: Instruction)
        ensures
            instruction.opcode == opcode,
    {
        Instruction { opcode: opcode }
    }
}

/// Decoding the code of an operation gives the operation back.
pub proof fn lemma_code_round_trip(op: Opcode)
    ensures
        Opcode::of_code(op.code()) == op,
{
}

} // verus!
