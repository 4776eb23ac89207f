//! The virtual machine: its state, the meaning of one instruction, and the
//! loop that runs an image.

use vstd::prelude::*;
use crate::assembler::{
    has_prefix, CODE_START, ELF_HEADER_LENGTH, ELF_HEADER_PREFIX, ELF_PREFIX_LENGTH,
};
use crate::instruction::{decode, immediate, Decoded, Opcode};

verus! {

/// How many registers the machine has.
pub const REGISTER_COUNT: usize = 32;

/// What became of the machine after a step or a run.
#[derive(Debug, Clone, Copy, PartialEq, Eq, Structural)]
pub enum Status {
    /// The last instruction ran and another one may follow.
    Running,
    /// A `HLT` instruction stopped the machine.
    Halted,
    /// The program counter stands at or beyond the end of the program.
    EndOfProgram,
    /// The image does not begin with the header's magic bytes; nothing ran.
    InvalidHeader,
    /// The byte that was decoded names no operation.
    IllegalOpcode,
    /// A division by zero, a result outside the signed 32-bit range, a
    /// jump to a place before the code or beyond every program, or a
    /// negative heap size.
    ArithmeticFault,
    /// An operand names a register that the machine does not have.
    InvalidRegister,
    /// The program ends before the operand bytes of its last instruction.
    TruncatedInstruction,
}

/// The machine as a mathematical value.
#[verifier::ext_equal]
pub struct VmState {
    pub registers: Seq<i32>,
    pub pc: int,
    pub code_start: int,
    pub program: Seq<u8>,
    pub heap: Seq<u8>,
    pub remainder: i32,
    pub equal_flag: bool,
}

/// Whether `v` is the value of some register.
pub open spec fn fits_register(v: int) -> bool {
    i32::MIN <= v <= i32::MAX
}

/// The quotient of `x` by `d`, rounded towards zero.
pub open spec fn quotient(x: int, d: int) -> int
    recommends
        d != 0,
{
    if x >= 0 && d > 0 {
        x / d
    } else if x < 0 && d < 0 {
        (-x) / (-d)
    } else if x < 0 {
        -((-x) / d)
    } else {
        -(x / (-d))
    }
}

/// What is left of `x` after taking out `quotient(x, d)` times `d`; it has
/// the sign of `x`.
pub open spec fn remainder(x: int, d: int) -> int
    recommends
        d != 0,
{
    if x >= 0 && d > 0 {
        x % d
    } else if x < 0 && d < 0 {
        -((-x) % (-d))
    } else if x < 0 {
        -((-x) % d)
    } else {
        x % (-d)
    }
}

/// Quotient and remainder are those of a division: they give `x` back,
/// the remainder is smaller than the divisor, and it is not of the other
/// sign than `x`.
pub proof fn lemma_division(x: int, d: int)
    requires
        d != 0,
    ensures
        x == quotient(x, d) * d + remainder(x, d),
        d > 0 ==> -d < remainder(x, d) < d,
        d < 0 ==> d < remainder(x, d) < -d,
        x >= 0 ==> remainder(x, d) >= 0,
        x <= 0 ==> remainder(x, d) <= 0,
{
    let a = if x >= 0 {
        x
    } else {
        -x
    };
    let b = if d > 0 {
        d
    } else {
        -d
    };
    vstd::arithmetic::div_mod::lemma_fundamental_div_mod(a, b);
    vstd::arithmetic::div_mod::lemma_mod_bound(a, b);
    let q = a / b;
    let r = a % b;
    assert(a == b * q + r);
    assert((-q) * b == -(b * q)) by (nonlinear_arith);
    assert(q * (-b) == -(b * q)) by (nonlinear_arith);
    assert((-q) * (-b) == b * q) by (nonlinear_arith);
    assert(q * b == b * q) by (nonlinear_arith);
    if x == 0 {
        assert(0int / b == 0 && 0int % b == 0) by (nonlinear_arith)
            requires
                b > 0,
        ;
    }
}

/// The result of an arithmetic operation on two register values, or `None`
/// where it has none: division by zero, or a result that no register holds.
pub open spec fn arithmetic(op: Opcode, x: i32, y: i32) -> Option<i32> {
    let exact: Option<int> = match op {
        Opcode::ADD => Some(x + y),
        Opcode::SUB => Some(x - y),
        Opcode::MUL => Some(x * y),
        Opcode::DIV => if y == 0 {
            None
        } else {
            Some(quotient(x as int, y as int))
        },
        Opcode::INC => Some(x + 1),
        Opcode::DEC => Some(x - 1),
        _ => None,
    };
    match exact {
        Some(v) => if fits_register(v) {
            Some(v as i32)
        } else {
            None
        },
        None => None,
    }
}

/// The outcome of a comparing operation on two register values.
pub open spec fn comparison(op: Opcode, x: i32, y: i32) -> bool {
    match op {
        Opcode::EQ => x == y,
        Opcode::NEQ => x != y,
        Opcode::GT => x > y,
        Opcode::LT => x < y,
        Opcode::GTQ => x >= y,
        Opcode::LTQ => x <= y,
        _ => false,
    }
}

impl VmState {
    /// This state with the program counter at `pc`.
    pub open spec fn at(self, pc: int) -> VmState {
        VmState { pc, ..self }
    }

    /// The instruction at the program counter.
    pub open spec fn fetch(self) -> Decoded {
        decode(self.program, self.pc)
    }

    /// The state once the instruction `op` at the program counter and its
    /// operand bytes are behind it.
    pub open spec fn past(self, op: Opcode) -> VmState {
        VmState { pc: self.pc + 1 + op.operand_width(), ..self }
    }

    /// The state after a fault on the instruction at `self.pc`: only the
    /// program counter moved, to the byte behind the opcode.
    pub open spec fn faulted(self, status: Status) -> (VmState, Status) {
        (VmState { pc: self.pc + 1, ..self }, status)
    }

    /// The state after a jump to the position `target` of the program,
    /// which faults where `target` lies before the first byte of code or is
    /// no program counter at all.
    pub open spec fn jump(self, target: int) -> (VmState, Status) {
        if self.code_start <= target <= usize::MAX {
            (VmState { pc: target, ..self }, Status::Running)
        } else {
            self.faulted(Status::ArithmeticFault)
        }
    }

    /// The position of the program that stands `offset` bytes behind the
    /// first byte of code. Offsets are what labels stand for.
    pub open spec fn position(self, offset: int) -> int {
        self.code_start + offset
    }

    /// Whether the machine has each register that `d` names.
    pub open spec fn has_registers(self, d: Decoded) -> bool {
        forall|k: int| 0 <= k < d.registers.len() ==> #[trigger] d.registers[k] < REGISTER_COUNT
    }

    /// The value of the `k`-th register that `d` names.
    pub open spec fn operand(self, d: Decoded, k: int) -> i32 {
        self.registers[d.registers[k] as int]
    }

    /// `LOAD`: the register takes the sixteen-bit number, which is never
    /// negative.
    pub open spec fn load(self, d: Decoded) -> VmState {
        VmState {
            registers: self.registers.update(d.registers[0] as int, d.immediate->0 as i32),
            ..self.past(d.opcode)
        }
    }

    /// `ADD`, `SUB`, `MUL`, `DIV`: the third register takes the result of
    /// the operation on the first and the second; `DIV` also sets the
    /// remainder.
    pub open spec fn calculate(self, d: Decoded) -> (VmState, Status) {
        match arithmetic(d.opcode, self.operand(d, 0), self.operand(d, 1)) {
            Some(v) => (
                VmState {
                    registers: self.registers.update(d.registers[2] as int, v),
                    remainder: if d.opcode == Opcode::DIV {
                        remainder(self.operand(d, 0) as int, self.operand(d, 1) as int) as i32
                    } else {
                        self.remainder
                    },
                    ..self.past(d.opcode)
                },
                Status::Running,
            ),
            None => self.faulted(Status::ArithmeticFault),
        }
    }

    /// `JMP`, `JMPF`, `JMPB`, `JEQ`, `JNEQ`: the program counter goes to
    /// the offset in the code that the register holds, or moves by the
    /// register's value from behind the instruction; the conditional jumps
    /// do so only where the flag agrees.
    pub open spec fn branch(self, d: Decoded) -> (VmState, Status) {
        let value = self.operand(d, 0) as int;
        match d.opcode {
            Opcode::JMPF => self.jump(self.past(d.opcode).pc + value),
            Opcode::JMPB => self.jump(self.past(d.opcode).pc - value),
            Opcode::JEQ => if self.equal_flag {
                self.jump(self.position(value))
            } else {
                (self.past(d.opcode), Status::Running)
            },
            Opcode::JNEQ => if !self.equal_flag {
                self.jump(self.position(value))
            } else {
                (self.past(d.opcode), Status::Running)
            },
            _ => self.jump(self.position(value)),
        }
    }

    /// `EQ`, `NEQ`, `GT`, `LT`, `GTQ`, `LTQ`: the flag takes the outcome of
    /// comparing the first register with the second.
    pub open spec fn compare(self, d: Decoded) -> VmState {
        VmState {
            equal_flag: comparison(d.opcode, self.operand(d, 0), self.operand(d, 1)),
            ..self.past(d.opcode)
        }
    }

    /// `ALOC`: the heap becomes as many zero bytes as the register says.
    pub open spec fn allocate(self, d: Decoded) -> (VmState, Status) {
        if self.operand(d, 0) >= 0 {
            (
                VmState {
                    heap: Seq::new(self.operand(d, 0) as nat, |i: int| 0u8),
                    ..self.past(d.opcode)
                },
                Status::Running,
            )
        } else {
            self.faulted(Status::ArithmeticFault)
        }
    }

    /// `INC`, `DEC`: the register goes up or down by one.
    pub open spec fn count(self, d: Decoded) -> (VmState, Status) {
        match arithmetic(d.opcode, self.operand(d, 0), 0) {
            Some(v) => (
                VmState {
                    registers: self.registers.update(d.registers[0] as int, v),
                    ..self.past(d.opcode)
                },
                Status::Running,
            ),
            None => self.faulted(Status::ArithmeticFault),
        }
    }

    /// The effect of the instruction `d` that stands at the program
    /// counter.
    pub open spec fn execute(self, d: Decoded) -> (VmState, Status) {
        if d.opcode == Opcode::HLT {
            (self.past(d.opcode), Status::Halted)
        } else if d.opcode == Opcode::IGL {
            self.faulted(Status::IllegalOpcode)
        } else if !self.has_registers(d) {
            self.faulted(Status::InvalidRegister)
        } else {
            match d.opcode {
                Opcode::LOAD => (self.load(d), Status::Running),
                Opcode::ADD | Opcode::SUB | Opcode::MUL | Opcode::DIV => self.calculate(d),
                Opcode::EQ | Opcode::NEQ | Opcode::GT | Opcode::LT | Opcode::GTQ | Opcode::LTQ => (
                    self.compare(d),
                    Status::Running,
                ),
                Opcode::ALOC => self.allocate(d),
                Opcode::INC | Opcode::DEC => self.count(d),
                _ => self.branch(d),
            }
        }
    }

    /// The state and status after at most `steps` dispatch cycles, fewer
    /// where one of them ends otherwise than `Running`.
    pub open spec fn run(self, steps: nat) -> (VmState, Status)
        decreases steps,
    {
        if steps == 0 {
            (self, Status::Running)
        } else {
            let (next, status) = self.step();
            if status == Status::Running {
                next.run((steps - 1) as nat)
            } else {
                (next, status)
            }
        }
    }

    /// This state at the start of a run of the image in `program`: the
    /// code begins behind the header, and the program counter stands on its
    /// first byte.
    pub open spec fn started(self) -> VmState {
        VmState { pc: CODE_START as int, code_start: CODE_START as int, ..self }
    }

    /// The state and status after a run of the image in `program` of at
    /// most `steps` cycles, from the first byte of code on. An image
    /// without the header's prefix does not run.
    pub open spec fn run_image(self, steps: nat) -> (VmState, Status) {
        if has_prefix(self.program) {
            self.started().run(steps)
        } else {
            (self, Status::InvalidHeader)
        }
    }

    /// One dispatch cycle: nothing at the end of the program; otherwise the
    /// instruction at the program counter, or a fault where its operand
    /// bytes are missing.
    pub open spec fn step(self) -> (VmState, Status) {
        if self.pc >= self.program.len() {
            (self, Status::EndOfProgram)
        } else if self.pc + 1 + self.fetch().opcode.operand_width() > self.program.len() {
            self.faulted(Status::TruncatedInstruction)
        } else {
            self.execute(self.fetch())
        }
    }
}

/// Computes `arithmetic(op, x, y)` with checked machine arithmetic.
fn compute(op: Opcode, x: i32, y: i32) -> (result: Option<i32>)
    ensures
        result == arithmetic(op, x, y),
{
    match op {
        Opcode::ADD => x.checked_add(y),
        Opcode::SUB => x.checked_sub(y),
        Opcode::MUL => x.checked_mul(y),
        Opcode::DIV => x.checked_div(y),
        Opcode::INC => x.checked_add(1),
        Opcode::DEC => x.checked_sub(1),
        _ => None,
    }
}

/// Computes `remainder(x, d)` for a division that `arithmetic` accepts.
fn left_over(x: i32, d: i32) -> (result: i32)
    requires
        arithmetic(Opcode::DIV, x, d) is Some,
    ensures
        result == remainder(x as int, d as int),
{
    match x.checked_rem(d) {
        Some(r) => r,
        None => 0,
    }
}

/// The position `delta` bytes from `base`, where there is one.
fn displaced(base: usize, delta: i64) -> (position: Option<usize>)
    requires
        -0x8000_0000 <= delta <= 0x8000_0000,
    ensures
        position == (if 0 <= base + delta <= usize::MAX {
            Some((base + delta) as usize)
        } else {
            None
        }),
{
    if delta >= 0 {
        base.checked_add(delta as usize)
    } else {
        base.checked_sub((-delta) as usize)
    }
}

/// The machine: a register file, a program counter, the program's bytes, a
/// heap buffer, the remainder of the last division and the flag that the
/// last comparison set.
#[derive(Debug)]
pub struct VM {
    /// The registers, all zero at first.
    pub registers: [i32; 32],
    /// The index into `program` of the byte that is decoded next.
    pub pc: usize,
    /// The index into `program` of the first byte of code, from which the
    /// offsets of labels and jumps count: 0 for a program without header,
    /// `CODE_START` once `run` has found the header of an image.
    pub code_start: usize,
    /// The bytes of the program that runs.
    pub program: Vec<u8>,
    /// The heap buffer, empty at first.
    pub heap: Vec<u8>,
    /// What the last division left over.
    pub remainder: i32,
    /// The outcome of the last comparison.
    pub equal_flag: bool,
}

impl View for VM {
    type V = VmState;

    open spec fn view(&self) -> VmState {
        VmState {
            registers: self.registers@,
            pc: self.pc as int,
            code_start: self.code_start as int,
            program: self.program@,
            heap: self.heap@,
            remainder: self.remainder,
            equal_flag: self.equal_flag,
        }
    }
}

impl VM {
    /// The state of a new machine: zeroed registers, no program, an empty
    /// heap.
    pub open spec fn new_state() -> VmState {
        VmState {
            registers: Seq::new(REGISTER_COUNT as nat, |i: int| 0i32),
            pc: 0,
            code_start: 0,
            program: Seq::empty(),
            heap: Seq::empty(),
            remainder: 0,
            equal_flag: false,
        }
    }

    /// A machine with zeroed registers, no program and an empty heap.
    pub fn new() -> (vm: VM)
        ensures
            vm@ == VM::new_state(),
    {
        let vm = VM {
            registers: [0;32],
            program: Vec::new(),
            heap: Vec::new(),
            pc: 0,
            code_start: 0,
            remainder: 0,
            equal_flag: false,
        };
        assert(vm.registers@ =~= Seq::new(REGISTER_COUNT as nat, |i: int| 0i32));
        vm
    }

    /// Appends one byte to the program.
    pub fn add_byte(&mut self, b: u8)
        ensures
            final(self)@ == (VmState { program: old(self)@.program.push(b), ..old(self)@ }),
    {
        self.program.push(b);
    }

    /// Appends the bytes of `b` to the program.
    pub fn add_bytes(&mut self, b: Vec<u8>)
        ensures
            final(self)@ == (VmState { program: old(self)@.program + b@, ..old(self)@ }),
    {
        let mut b = b;
        self.program.append(&mut b);
    }

    /// Runs the image in `program` from its first byte of code until the
    /// machine stops. An image without the header's prefix does not run at
    /// all. No image runs for more than `u64::MAX` cycles: the status
    /// `Running` says that the run ended there.
    pub fn run(&mut self) -> (status: Status)
        ensures
            final(self)@ == old(self)@.run_image(u64::MAX as nat).0,
            status == old(self)@.run_image(u64::MAX as nat).1,
    {
        self.run_bounded(u64::MAX)
    }

    /// Runs the image in `program` from its first byte of code for at most
    /// `limit` cycles. An image without the header's prefix does not run at
    /// all; the status `Running` says that the limit ended the run.
    pub fn run_bounded(&mut self, limit: u64) -> (status: Status)
        ensures
            final(self)@ == old(self)@.run_image(limit as nat).0,
            status == old(self)@.run_image(limit as nat).1,
    {
        if !self.verify_header() {
            return Status::InvalidHeader;
        }
        self.code_start = ELF_HEADER_LENGTH + self.get_starting_offset();
        self.pc = self.code_start;
        let ghost goal = self@.run(limit as nat);
        let mut left = limit;
        let mut status = Status::Running;
        while left > 0 && status == Status::Running
            invariant
                status == Status::Running ==> self@.run(left as nat) == goal,
                status != Status::Running ==> (self@, status) == goal,
            decreases left,
        {
            status = self.execute_instruction();
            left = left - 1;
        }
        status
    }

    /// Whether the program begins with the header's prefix.
    fn verify_header(&self) -> (valid: bool)
        ensures
            valid == has_prefix(self@.program),
    {
        if self.program.len() < ELF_PREFIX_LENGTH {
            return false;
        }
        let mut i: usize = 0;
        while i < ELF_PREFIX_LENGTH
            invariant
                i <= ELF_PREFIX_LENGTH <= self.program.len(),
                forall|k: int| 0 <= k < i ==> self.program[k] == ELF_HEADER_PREFIX[k],
            decreases ELF_PREFIX_LENGTH - i,
        {
            if self.program[i] != ELF_HEADER_PREFIX[i] {
                assert(self.program@.subrange(0, ELF_PREFIX_LENGTH as int)[i as int]
                    != ELF_HEADER_PREFIX@[i as int]);
                return false;
            }
            i += 1;
        }
        assert(self.program@.subrange(0, ELF_PREFIX_LENGTH as int) =~= ELF_HEADER_PREFIX@);
        true
    }

    /// How many bytes lie between the header's length and the code.
    fn get_starting_offset(&self) -> (offset: usize)
        ensures
            ELF_HEADER_LENGTH + offset == CODE_START,
    {
        1
    }

    /// Executes one dispatch cycle and says how it ended.
    pub fn run_once(&mut self) -> (status: Status)
        ensures
            final(self)@ == old(self)@.step().0,
            status == old(self)@.step().1,
    {
        self.execute_instruction()
    }

    /// Executes one dispatch cycle: `step` says what it does.
    fn execute_instruction(&mut self) -> (status: Status)
        ensures
            final(self)@ == old(self)@.step().0,
            status == old(self)@.step().1,
    {
        if self.pc >= self.program.len() {
            return Status::EndOfProgram;
        }
        let start = self.pc;
        let opcode = self.decode_opcode();
        let width: usize = match opcode {
            Opcode::HLT | Opcode::IGL => 0,
            Opcode::JMP | Opcode::JMPF | Opcode::JMPB | Opcode::JEQ | Opcode::JNEQ => 1,
            _ => 3,
        };
        if self.program.len() - self.pc < width {
            return Status::TruncatedInstruction;
        }
        match opcode {
            Opcode::HLT => Status::Halted,
            Opcode::LOAD => self.load(start),
            Opcode::ADD | Opcode::SUB | Opcode::MUL | Opcode::DIV => self.calculate(start, opcode),
            Opcode::JMP | Opcode::JMPF | Opcode::JMPB | Opcode::JEQ | Opcode::JNEQ => self.branch(
                start,
                opcode,
            ),
            Opcode::EQ | Opcode::NEQ | Opcode::GT | Opcode::LT | Opcode::GTQ | Opcode::LTQ => {
                self.compare(start, opcode)
            },
            Opcode::ALOC => self.allocate(start),
            Opcode::INC | Opcode::DEC => self.count(start, opcode),
            Opcode::IGL => Status::IllegalOpcode,
        }
    }

    /// Carries out the `LOAD` whose opcode stands at `start`.
    fn load(&mut self, start: usize) -> (status: Status)
        requires
            old(self).pc == start + 1,
            start + 4 <= old(self).program.len(),
            Opcode::of_code(old(self).program[start as int]) == Opcode::LOAD,
        ensures
            final(self)@ == old(self)@.at(start as int).step().0,
            status == old(self)@.at(start as int).step().1,
    {
        let register = self.next_8_bits() as usize;
        let number = self.next_16_bits();
        if register >= REGISTER_COUNT {
            return self.fault(start, Status::InvalidRegister);
        }
        self.registers[register] = number as i32;
        Status::Running
    }

    /// Carries out the arithmetic instruction `opcode` whose opcode stands
    /// at `start`.
    fn calculate(&mut self, start: usize, opcode: Opcode) -> (status: Status)
        requires
            old(self).pc == start + 1,
            start + 4 <= old(self).program.len(),
            opcode == Opcode::ADD || opcode == Opcode::SUB || opcode == Opcode::MUL || opcode
                == Opcode::DIV,
            Opcode::of_code(old(self).program[start as int]) == opcode,
        ensures
            final(self)@ == old(self)@.at(start as int).step().0,
            status == old(self)@.at(start as int).step().1,
    {
        let first = self.next_8_bits() as usize;
        let second = self.next_8_bits() as usize;
        let target = self.next_8_bits() as usize;
        if first >= REGISTER_COUNT || second >= REGISTER_COUNT || target >= REGISTER_COUNT {
            return self.fault(start, Status::InvalidRegister);
        }
        let register1 = self.registers[first];
        let register2 = self.registers[second];
        match compute(opcode, register1, register2) {
            Some(value) => {
                if opcode == Opcode::DIV {
                    self.remainder = left_over(register1, register2);
                }
                self.registers[target] = value;
                Status::Running
            },
            None => self.fault(start, Status::ArithmeticFault),
        }
    }

    /// Carries out the jump `opcode` whose opcode stands at `start`.
    fn branch(&mut self, start: usize, opcode: Opcode) -> (status: Status)
        requires
            old(self).pc == start + 1,
            start + 2 <= old(self).program.len(),
            opcode == Opcode::JMP || opcode == Opcode::JMPF || opcode == Opcode::JMPB || opcode
                == Opcode::JEQ || opcode == Opcode::JNEQ,
            Opcode::of_code(old(self).program[start as int]) == opcode,
        ensures
            final(self)@ == old(self)@.at(start as int).step().0,
            status == old(self)@.at(start as int).step().1,
    {
        let register = self.next_8_bits() as usize;
        if register >= REGISTER_COUNT {
            return self.fault(start, Status::InvalidRegister);
        }
        let value = self.registers[register];
        match opcode {
            Opcode::JMPF => self.jump(start, displaced(self.pc, value as i64)),
            Opcode::JMPB => self.jump(start, displaced(self.pc, -(value as i64))),
            Opcode::JEQ => {
                if self.equal_flag {
                    self.jump(start, displaced(self.code_start, value as i64))
                } else {
                    Status::Running
                }
            },
            Opcode::JNEQ => {
                if !self.equal_flag {
                    self.jump(start, displaced(self.code_start, value as i64))
                } else {
                    Status::Running
                }
            },
            _ => self.jump(start, displaced(self.code_start, value as i64)),
        }
    }

    /// Carries out the comparison `opcode` whose opcode stands at `start`.
    fn compare(&mut self, start: usize, opcode: Opcode) -> (status: Status)
        requires
            old(self).pc == start + 1,
            start + 4 <= old(self).program.len(),
            opcode == Opcode::EQ || opcode == Opcode::NEQ || opcode == Opcode::GT || opcode
                == Opcode::LT || opcode == Opcode::GTQ || opcode == Opcode::LTQ,
            Opcode::of_code(old(self).program[start as int]) == opcode,
        ensures
            final(self)@ == old(self)@.at(start as int).step().0,
            status == old(self)@.at(start as int).step().1,
    {
        let first = self.next_8_bits() as usize;
        let second = self.next_8_bits() as usize;
        self.next_8_bits();
        if first >= REGISTER_COUNT || second >= REGISTER_COUNT {
            return self.fault(start, Status::InvalidRegister);
        }
        let register1 = self.registers[first];
        let register2 = self.registers[second];
        self.equal_flag = match opcode {
            Opcode::EQ => register1 == register2,
            Opcode::NEQ => register1 != register2,
            Opcode::GT => register1 > register2,
            Opcode::LT => register1 < register2,
            Opcode::GTQ => register1 >= register2,
            Opcode::LTQ => register1 <= register2,
            _ => false,
        };
        Status::Running
    }

    /// Carries out the `ALOC` whose opcode stands at `start`.
    fn allocate(&mut self, start: usize) -> (status: Status)
        requires
            old(self).pc == start + 1,
            start + 4 <= old(self).program.len(),
            Opcode::of_code(old(self).program[start as int]) == Opcode::ALOC,
        ensures
            final(self)@ == old(self)@.at(start as int).step().0,
            status == old(self)@.at(start as int).step().1,
    {
        let register = self.next_8_bits() as usize;
        self.next_16_bits();
        if register >= REGISTER_COUNT {
            return self.fault(start, Status::InvalidRegister);
        }
        let size = self.registers[register];
        if size < 0 {
            return self.fault(start, Status::ArithmeticFault);
        }
        self.heap = vec![0u8; size as usize];
        assert(self.heap@ =~= Seq::new(size as nat, |i: int| 0u8));
        Status::Running
    }

    /// Carries out the `INC` or `DEC` whose opcode stands at `start`.
    fn count(&mut self, start: usize, opcode: Opcode) -> (status: Status)
        requires
            old(self).pc == start + 1,
            start + 4 <= old(self).program.len(),
            opcode == Opcode::INC || opcode == Opcode::DEC,
            Opcode::of_code(old(self).program[start as int]) == opcode,
        ensures
            final(self)@ == old(self)@.at(start as int).step().0,
            status == old(self)@.at(start as int).step().1,
    {
        let register = self.next_8_bits() as usize;
        self.next_16_bits();
        if register >= REGISTER_COUNT {
            return self.fault(start, Status::InvalidRegister);
        }
        match compute(opcode, self.registers[register], 0) {
            Some(value) => {
                self.registers[register] = value;
                Status::Running
            },
            None => self.fault(start, Status::ArithmeticFault),
        }
    }

    /// Leaves the program counter behind the opcode at `at` and reports
    /// `status`.
    fn fault(&mut self, at: usize, status: Status) -> (reported: Status)
        requires
            at < usize::MAX,
        ensures
            reported == status,
            final(self)@ == (VmState { pc: at + 1, ..old(self)@ }),
    {
        self.pc = at + 1;
        status
    }

    /// Moves the program counter to `target`, or faults on the opcode at
    /// `at` where there is no target or it lies before the code.
    fn jump(&mut self, at: usize, target: Option<usize>) -> (status: Status)
        requires
            at < usize::MAX,
        ensures
            status == (if target is Some && old(self).code_start <= target->0 {
                Status::Running
            } else {
                Status::ArithmeticFault
            }),
            final(self)@ == (VmState {
                pc: if target is Some && old(self).code_start <= target->0 {
                    target->0 as int
                } else {
                    at + 1
                },
                ..old(self)@
            }),
    {
        match target {
            Some(pc) => {
                if pc < self.code_start {
                    return self.fault(at, Status::ArithmeticFault);
                }
                self.pc = pc;
                Status::Running
            },
            None => self.fault(at, Status::ArithmeticFault),
        }
    }

    /// Reads the operation at the program counter and steps over its byte.
    fn decode_opcode(&mut self) -> (opcode: Opcode)
        requires
            old(self).pc < old(self).program.len(),
        ensures
            opcode == Opcode::of_code(old(self).program[old(self).pc as int]),
            final(self)@ == (VmState { pc: old(self).pc + 1, ..old(self)@ }),
    {
        let opcode = Opcode::from(self.program[self.pc]);
        self.pc += 1;
        opcode
    }

    /// Reads the byte at the program counter and steps over it.
    fn next_8_bits(&mut self) -> (result: u8)
        requires
            old(self).pc < old(self).program.len(),
        ensures
            result == old(self).program[old(self).pc as int],
            final(self)@ == (VmState { pc: old(self).pc + 1, ..old(self)@ }),
    {
        let result = self.program[self.pc];
        self.pc += 1;
        result
    }

    /// Reads the two bytes at the program counter as one number, high byte
    /// first, and steps over them.
    fn next_16_bits(&mut self) -> (result: u16)
        requires
            old(self).pc + 1 < old(self).program.len(),
        ensures
            result == immediate(
                old(self).program[old(self).pc as int],
                old(self).program[old(self).pc + 1],
            ),
            final(self)@ == (VmState { pc: old(self).pc + 2, ..old(self)@ }),
    {
        let high = self.program[self.pc];
        let low = self.program[self.pc + 1];
        let result = ((high as u16) << 8) | low as u16;
        assert(((high as u16) << 8) | low as u16 == high as u16 * 256 + low as u16) by (bit_vector);
        self.pc += 2;
        result
    }
}

} // verus!
