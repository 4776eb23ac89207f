//! How the assembler and the machine agree: what the one writes, the other
//! reads.

use vstd::prelude::*;
use crate::assembler::instruction_parsers::{InstructionView, RECORD_WIDTH};
use crate::assembler::program_parsers::encode_program;
use crate::assembler::grammar;
use crate::assembler::{
    assembled, has_prefix, header, label_offset, labels, with_labels, TokenView, CODE_START,
};
use crate::instruction::{decode, lemma_code_round_trip, Opcode};
use crate::vm::{Status, VmState, REGISTER_COUNT};

verus! {

/// A valid record has an encoding, of `RECORD_WIDTH` bytes, and the machine
/// reads from it the operation, the registers and the number that the
/// record names.
pub proof fn lemma_decode_encode(record: InstructionView, symbols: Map<Seq<char>, u32>)
    requires
        record.valid(symbols),
    ensures
        record.encode(symbols) is Ok,
        record.encode(symbols)->Ok_0.len() == RECORD_WIDTH,
        decode(record.encode(symbols)->Ok_0, 0) == record.meaning(symbols),
{
    reveal_with_fuel(InstructionView::body_before, 4);
    let op = record.operation();
    lemma_code_round_trip(op);
    assert(record.fields()[0] == record.operand1);
    assert(record.fields()[1] == record.operand2);
    assert(record.fields()[2] == record.operand3);
    let bytes = record.encode(symbols)->Ok_0;
    assert(decode(bytes, 0).registers =~= record.meaning(symbols).registers);
    if op.has_immediate() {
        let token = record.operand2->0;
        match token {
            TokenView::IntegerOperand { value } => {
                lemma_two_bytes(value as int);
            },
            TokenView::LabelUsage { name } => {
                lemma_two_bytes(symbols[name] as int);
            },
            _ => {},
        }
    }
}

/// The two bytes of a number spell its low sixteen bits.
proof fn lemma_two_bytes(value: int)
    ensures
        0 <= (value % 0x1_0000) / 0x100 < 0x100,
        ((value % 0x1_0000) / 0x100) * 0x100 + value % 0x100 == value % 0x1_0000,
{
    let low = value % 0x1_0000;
    assert(low % 0x100 == value % 0x100) by (nonlinear_arith)
        requires
            low == value % 0x1_0000,
    ;
}

/// Whether the encoding of `record` stands in the program of `s` at the
/// program counter.
pub open spec fn stands_at_pc(s: VmState, record: InstructionView, symbols: Map<Seq<char>, u32>)
    -> bool {
    &&& 0 <= s.pc
    &&& s.pc + RECORD_WIDTH <= s.program.len()
    &&& record.encode(symbols) == Ok::<Seq<u8>, crate::assembler::AssemblyErrorView>(
        s.program.subrange(s.pc, s.pc + RECORD_WIDTH),
    )
}

/// The machine fetches from the encoding of a valid record what the record
/// means.
pub proof fn lemma_fetch(s: VmState, record: InstructionView, symbols: Map<Seq<char>, u32>)
    requires
        record.valid(symbols),
        stands_at_pc(s, record, symbols),
    ensures
        s.fetch() == record.meaning(symbols),
{
    lemma_decode_encode(record, symbols);
    let bytes = s.program.subrange(s.pc, s.pc + RECORD_WIDTH);
    assert(bytes[0] == s.program[s.pc]);
    assert(bytes[2] == s.program[s.pc + 2]);
    assert(bytes[3] == s.program[s.pc + 3]);
    assert(s.fetch().registers =~= decode(bytes, 0).registers);
}

/// `LOAD` leaves in its register exactly the sixteen-bit number that the
/// record spells, which is not negative, and nothing else changes but the
/// program counter.
pub proof fn lemma_load_reads_back(
    s: VmState,
    record: InstructionView,
    symbols: Map<Seq<char>, u32>,
)
    requires
        record.valid(symbols),
        record.operation() == Opcode::LOAD,
        stands_at_pc(s, record, symbols),
        record.operand1->0->reg_num < REGISTER_COUNT,
        s.registers.len() == REGISTER_COUNT,
    ensures
        0 <= record.operand2->0.number(symbols) < 0x1_0000,
        s.step() == (
            VmState {
                pc: s.pc + RECORD_WIDTH,
                registers: s.registers.update(
                    record.operand1->0->reg_num as int,
                    record.operand2->0.number(symbols) as i32,
                ),
                ..s
            },
            Status::Running,
        ),
        s.step().0.registers[record.operand1->0->reg_num as int] == record.operand2->0.number(
            symbols,
        ),
{
    lemma_fetch(s, record, symbols);
    assert(record.fields()[0] == record.operand1);
    assert(record.fields()[1] == record.operand2);
    let d = s.fetch();
    assert(d.registers[0] == record.operand1->0->reg_num);
    assert(s.has_registers(d));
}

/// An opcode that names no operation stops the machine behind its byte and
/// changes nothing else.
pub proof fn lemma_illegal_opcode_halts(s: VmState)
    requires
        0 <= s.pc < s.program.len(),
        Opcode::of_code(s.program[s.pc]) == Opcode::IGL,
    ensures
        s.step() == (VmState { pc: s.pc + 1, ..s }, Status::IllegalOpcode),
{
}

/// The code of a program holds the encoding of each record at the offset
/// of the record.
pub proof fn lemma_record_in_code(
    records: Seq<InstructionView>,
    symbols: Map<Seq<char>, u32>,
    k: int,
)
    requires
        encode_program(records, symbols) is Ok,
        0 <= k < records.len(),
    ensures
        encode_program(records, symbols)->Ok_0.len() == RECORD_WIDTH * records.len(),
        records[k].encode(symbols) == Ok::<Seq<u8>, crate::assembler::AssemblyErrorView>(
            encode_program(records, symbols)->Ok_0.subrange(
                RECORD_WIDTH * k,
                RECORD_WIDTH * k + RECORD_WIDTH,
            ),
        ),
    decreases records.len(),
{
    let code = encode_program(records, symbols)->Ok_0;
    let front = encode_program(records.drop_last(), symbols)->Ok_0;
    let back = records.last().encode(symbols)->Ok_0;
    crate::assembler::program_parsers::lemma_code_length(records, symbols);
    crate::assembler::program_parsers::lemma_code_length(records.drop_last(), symbols);
    assert(code == front + back);
    if k == records.len() - 1 {
        assert(code.subrange(RECORD_WIDTH * k, RECORD_WIDTH * k + RECORD_WIDTH) =~= back);
    } else {
        lemma_record_in_code(records.drop_last(), symbols, k);
        assert(code.subrange(RECORD_WIDTH * k, RECORD_WIDTH * k + RECORD_WIDTH) =~= front.subrange(
            RECORD_WIDTH * k,
            RECORD_WIDTH * k + RECORD_WIDTH,
        ));
    }
}

/// A label stands for the offset of the last record that declares it.
pub proof fn lemma_label_offset(
    base: Map<Seq<char>, u32>,
    records: Seq<InstructionView>,
    name: Seq<char>,
    declared: int,
)
    requires
        0 <= declared < records.len(),
        records[declared].label_name() == Some(name),
        forall|j: int| declared < j < records.len() ==> records[j].label_name() != Some(name),
    ensures
        with_labels(base, records).contains_key(name),
        with_labels(base, records)[name] == label_offset(declared),
    decreases records.len(),
{
    if declared < records.len() - 1 {
        assert(records.last() == records[records.len() - 1]);
        assert forall|j: int| declared < j < records.drop_last().len() implies records.drop_last()[j].label_name()
            != Some(name) by {
            assert(records.drop_last()[j] == records[j]);
        }
        lemma_label_offset(base, records.drop_last(), name, declared);
    }
}

/// Whether `record` is the instruction `load $register @name`.
pub open spec fn loads_label(record: InstructionView, register: u8, name: Seq<char>) -> bool {
    &&& record.directive is None
    &&& record.opcode == Some(TokenView::Op { code: Opcode::LOAD })
    &&& record.operand1 == Some(TokenView::Register { reg_num: register })
    &&& record.operand2 == Some(TokenView::LabelUsage { name })
    &&& record.operand3 is None
}

/// Whether `record` is the instruction `jmp $register`.
pub open spec fn jumps_to(record: InstructionView, register: u8) -> bool {
    &&& record.directive is None
    &&& record.opcode == Some(TokenView::Op { code: Opcode::JMP })
    &&& record.operand1 == Some(TokenView::Register { reg_num: register })
    &&& record.operand2 is None
    &&& record.operand3 is None
}

/// A jump to a label lands on the record that declares it. Let the machine
/// hold the code of a program behind the bytes `front`, which are none for
/// a program without header and the header for an image, and let its code
/// begin there. Let the record `at` load the label `name` into a register
/// and the next record jump to that register; let the record `declared` be
/// the last to declare `name`, at an offset that sixteen bits hold. Then two
/// steps from the record `at` leave the program counter on the record
/// `declared`, whose offset the register holds.
pub proof fn lemma_jump_lands_on_label(
    records: Seq<InstructionView>,
    name: Seq<char>,
    declared: int,
    at: int,
    register: u8,
    front: Seq<u8>,
    s: VmState,
)
    requires
        0 <= declared < records.len(),
        records[declared].label_name() == Some(name),
        forall|j: int| declared < j < records.len() ==> records[j].label_name() != Some(name),
        RECORD_WIDTH * declared < 0x1_0000,
        0 <= at,
        at + 1 < records.len(),
        loads_label(records[at], register, name),
        jumps_to(records[at + 1], register),
        register < REGISTER_COUNT,
        encode_program(records, labels(records)) is Ok,
        s.program == front + encode_program(records, labels(records))->Ok_0,
        s.program.len() <= usize::MAX,
        s.code_start == front.len(),
        s.pc == s.position(RECORD_WIDTH * at),
        s.registers.len() == REGISTER_COUNT,
    ensures
        s.run(2) == (
            VmState {
                pc: s.position(RECORD_WIDTH * declared),
                registers: s.registers.update(register as int, (RECORD_WIDTH * declared) as i32),
                ..s
            },
            Status::Running,
        ),
        stands_at_pc(s.run(2).0, records[declared], labels(records)),
{
    let symbols = labels(records);
    let code = encode_program(records, symbols)->Ok_0;
    let load = records[at];
    let jump = records[at + 1];
    let base = front.len() as int;
    lemma_label_offset(Map::empty(), records, name, declared);
    lemma_record_in_code(records, symbols, at);
    lemma_record_in_code(records, symbols, at + 1);
    lemma_record_in_code(records, symbols, declared);
    assert(s.program.subrange(base + RECORD_WIDTH * at, base + RECORD_WIDTH * at + RECORD_WIDTH)
        =~= code.subrange(RECORD_WIDTH * at, RECORD_WIDTH * at + RECORD_WIDTH));
    assert(s.program.subrange(
        base + RECORD_WIDTH * (at + 1),
        base + RECORD_WIDTH * (at + 1) + RECORD_WIDTH,
    ) =~= code.subrange(RECORD_WIDTH * (at + 1), RECORD_WIDTH * (at + 1) + RECORD_WIDTH));
    assert(s.program.subrange(
        base + RECORD_WIDTH * declared,
        base + RECORD_WIDTH * declared + RECORD_WIDTH,
    ) =~= code.subrange(RECORD_WIDTH * declared, RECORD_WIDTH * declared + RECORD_WIDTH));
    assert(load.fields()[0] == load.operand1);
    assert(load.fields()[1] == load.operand2);
    assert(load.fields()[2] == load.operand3);
    assert(load.valid(symbols));
    lemma_load_reads_back(s, load, symbols);
    let (loaded, _) = s.step();
    assert(jump.fields()[0] == jump.operand1);
    assert(jump.fields()[1] == jump.operand2);
    assert(jump.fields()[2] == jump.operand3);
    assert(jump.valid(symbols));
    assert(stands_at_pc(loaded, jump, symbols));
    lemma_fetch(loaded, jump, symbols);
    let d = loaded.fetch();
    assert(d.registers[0] == register);
    assert(loaded.has_registers(d));
    reveal_with_fuel(VmState::run, 3);
}

/// In an image that the assembler gives and the machine runs, a jump to a
/// label lands on the record that declares it: the law above with the
/// header in front, from the state in which `run` starts.
pub proof fn lemma_jump_lands_on_label_in_image(
    source: Seq<char>,
    name: Seq<char>,
    declared: int,
    at: int,
    register: u8,
    s: VmState,
)
    requires
        assembled(source) == Ok::<Seq<u8>, crate::assembler::AssemblyErrorView>(s.program),
        0 <= declared < grammar::program(source)->Ok_0.len(),
        grammar::program(source)->Ok_0[declared].label_name() == Some(name),
        forall|j: int|
            declared < j < grammar::program(source)->Ok_0.len() ==> grammar::program(
                source,
            )->Ok_0[j].label_name() != Some(name),
        RECORD_WIDTH * declared < 0x1_0000,
        0 <= at,
        at + 1 < grammar::program(source)->Ok_0.len(),
        loads_label(grammar::program(source)->Ok_0[at], register, name),
        jumps_to(grammar::program(source)->Ok_0[at + 1], register),
        register < REGISTER_COUNT,
        s.program.len() <= usize::MAX,
        s.code_start == CODE_START,
        s.pc == CODE_START + RECORD_WIDTH * at,
        s.registers.len() == REGISTER_COUNT,
    ensures
        has_prefix(s.program),
        s.run(2) == (
            VmState {
                pc: CODE_START + RECORD_WIDTH * declared,
                registers: s.registers.update(register as int, (RECORD_WIDTH * declared) as i32),
                ..s
            },
            Status::Running,
        ),
        stands_at_pc(
            s.run(2).0,
            grammar::program(source)->Ok_0[declared],
            labels(grammar::program(source)->Ok_0),
        ),
{
    lemma_image_shape(source);
    let records = grammar::program(source)->Ok_0;
    assert(header().len() == CODE_START);
    lemma_jump_lands_on_label(records, name, declared, at, register, header(), s);
}

/// Every image that the assembler gives begins with the header, so that
/// the machine does not refuse it, and holds behind the header the code of
/// the program, `RECORD_WIDTH` bytes for each of its records.
pub proof fn lemma_image_shape(source: Seq<char>)
    requires
        assembled(source) is Ok,
    ensures
        grammar::program(source) is Ok,
        has_prefix(assembled(source)->Ok_0),
        assembled(source)->Ok_0.len() == CODE_START + RECORD_WIDTH * grammar::program(
            source,
        )->Ok_0.len(),
        Ok::<Seq<u8>, crate::assembler::AssemblyErrorView>(
            assembled(source)->Ok_0.subrange(
                CODE_START as int,
                assembled(source)->Ok_0.len() as int,
            ),
        ) == encode_program(
            grammar::program(source)->Ok_0,
            labels(grammar::program(source)->Ok_0),
        ),
{
    let records = grammar::program(source)->Ok_0;
    let code = encode_program(records, labels(records))->Ok_0;
    let image = assembled(source)->Ok_0;
    crate::assembler::program_parsers::lemma_code_length(records, labels(records));
    assert(image == header() + code);
    assert(image.subrange(0, crate::assembler::ELF_PREFIX_LENGTH as int)
        =~= crate::assembler::ELF_HEADER_PREFIX@);
    assert(image.subrange(CODE_START as int, image.len() as int) =~= code);
}

} // verus!
