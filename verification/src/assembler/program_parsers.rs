//! Whole programs: the records of a source text in order.

use vstd::prelude::*;
use crate::assembler::directive_parsers::directive;
use crate::assembler::grammar;
use crate::assembler::grammar::lemma_record_consumes;
use crate::assembler::helper_parsers::{record_result, SyntaxError};
use crate::assembler::instruction_parsers::{
    encodes, followed_by, instruction, AssemblerInstruction, InstructionView, RECORD_WIDTH,
};
use crate::assembler::{AssemblyError, AssemblyErrorView, SymbolTable};

verus! {

/// The records of a program in the order of its lines.
#[derive(Debug, PartialEq)]
pub struct Program {
    pub instructions: Vec<AssemblerInstruction>,
}

/// The records of `lines` as mathematical values.
pub open spec fn views(lines: Seq<AssemblerInstruction>) -> Seq<InstructionView> {
    Seq::new(lines.len(), |i: int| lines[i]@)
}

impl View for Program {
    type V = Seq<InstructionView>;

    open spec fn view(&self) -> Seq<InstructionView> {
        views(self.instructions@)
    }
}

/// The code of a program: the records of its lines one after the other, or
/// the error of the first line that has no record.
pub open spec fn encode_program(records: Seq<InstructionView>, symbols: Map<Seq<char>, u32>)
    -> Result<Seq<u8>, AssemblyErrorView>
    decreases records.len(),
{
    if records.len() == 0 {
        Ok(Seq::empty())
    } else {
        followed_by(
            encode_program(records.drop_last(), symbols),
            records.last().encode(symbols),
        )
    }
}

/// A program whose beginning has no code has none, for the same reason.
pub proof fn lemma_error_stays(
    records: Seq<InstructionView>,
    symbols: Map<Seq<char>, u32>,
    n: int,
)
    requires
        0 <= n <= records.len(),
        encode_program(records.subrange(0, n), symbols) is Err,
    ensures
        encode_program(records, symbols) == encode_program(records.subrange(0, n), symbols),
    decreases records.len() - n,
{
    if n == records.len() {
        assert(records.subrange(0, n) =~= records);
    } else {
        assert(records.subrange(0, n + 1).drop_last() =~= records.subrange(0, n));
        lemma_error_stays(records, symbols, n + 1);
    }
}

/// The code of a program has `RECORD_WIDTH` bytes for each of its lines.
pub proof fn lemma_code_length(records: Seq<InstructionView>, symbols: Map<Seq<char>, u32>)
    ensures
        encode_program(records, symbols) matches Ok(code) ==> code.len() == RECORD_WIDTH
            * records.len(),
    decreases records.len(),
{
    if records.len() > 0 {
        lemma_code_length(records.drop_last(), symbols);
    }
}

impl Program {
    /// The code of this program, with label references resolved by
    /// `symbols`.
    pub fn to_bytes(&self, symbols: &SymbolTable) -> (result: Result<Vec<u8>, AssemblyError>)
        ensures
            encodes(result, encode_program(self@, symbols@)),
    {
        let mut program: Vec<u8> = Vec::new();
        let mut i: usize = 0;
        while i < self.instructions.len()
            invariant
                i <= self.instructions.len(),
                Ok::<Seq<u8>, AssemblyErrorView>(program@) == encode_program(
                    self@.subrange(0, i as int),
                    symbols@,
                ),
            decreases self.instructions.len() - i,
        {
            proof {
                assert(self@.subrange(0, i + 1).drop_last() =~= self@.subrange(0, i as int));
                assert(self@.subrange(0, i + 1).last() == self.instructions[i as int]@);
            }
            match self.instructions[i].to_bytes(symbols) {
                Ok(bytes) => {
                    let mut bytes = bytes;
                    program.append(&mut bytes);
                },
                Err(e) => {
                    proof {
                        lemma_error_stays(self@, symbols@, i + 1);
                    }
                    return Err(e);
                },
            }
            i += 1;
        }
        assert(self@.subrange(0, i as int) =~= self@);
        Ok(program)
    }
}

/// Reads a record at the beginning of `input`: an instruction or a
/// directive.
pub fn record(input: &str) -> (result: Result<(&str, AssemblerInstruction), SyntaxError>)
    ensures
        record_result(result, grammar::record(input@), input@),
{
    match instruction(input) {
        Ok(found) => Ok(found),
        Err(_) => directive(input),
    }
}

/// Reads the program `input`: one record or more, up to the end of the
/// text. What is left on success is empty; the error holds the text from
/// the first line on that is no record.
pub fn program(input: &str) -> (result: Result<(&str, Program), SyntaxError>)
    ensures
        match grammar::program(input@) {
            Ok(records) => result matches Ok((left, found)) && found@ == records && left@.len()
                == 0,
            Err(remainder) => result matches Err(e) && e.remainder@ == remainder,
        },
{
    let mut instructions: Vec<AssemblerInstruction> = Vec::new();
    let mut left = input;
    loop
        invariant
            grammar::records(input@).0 == views(instructions@) + grammar::records(left@).0,
            grammar::records(input@).1 == grammar::records(left@).1,
        ensures
            grammar::records(input@) == (views(instructions@), left@),
        decreases left@.len(),
    {
        proof {
            lemma_record_consumes(left@);
        }
        match record(left) {
            Ok((rest, found)) => {
                let ghost before = views(instructions@);
                instructions.push(found);
                proof {
                    assert(views(instructions@) =~= before + seq![found@]);
                    assert(before + (seq![found@] + grammar::records(rest@).0) =~= (before
                        + seq![found@]) + grammar::records(rest@).0);
                }
                left = rest;
            },
            Err(_) => {
                assert(views(instructions@) + Seq::<InstructionView>::empty() =~= views(
                    instructions@,
                ));
                break;
            },
        }
    }
    if instructions.len() == 0 || !left.is_empty() {
        Err(SyntaxError { remainder: left })
    } else {
        Ok((left, Program { instructions }))
    }
}

} // verus!
