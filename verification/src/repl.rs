//! The decisions of the interactive shell: what a line of input asks for,
//! and what it does to the machine. Reading lines and showing state is left
//! to the program around this library.

use vstd::prelude::*;
use crate::assembler::grammar;
use crate::assembler::instruction_parsers::encodes;
use crate::assembler::program_parsers::{encode_program, program};
use crate::assembler::{Assembler, AssemblerPhase, AssemblyError, AssemblyErrorView};
use crate::text::{ascii_prefix, at_end, peek, same_text};
use crate::vm::{Status, VmState, VM};

verus! {

/// What the shell is to do after a line of input.
#[derive(Debug, Clone, Copy, PartialEq, Eq, Structural)]
pub enum Action {
    /// Leave the shell.
    Quit,
    /// Show the lines that were entered so far.
    History,
    /// Show the bytes of the machine's program.
    Program,
    /// Show the machine's registers.
    Registers,
    /// Ask for the name of a file and load its text.
    LoadFile,
    /// Say that the program was cleared.
    Cleared,
    /// Say how the instruction that was entered ran.
    Ran(Status),
}

/// What a line of input asks for: one of the shell's own commands, or
/// `None` for source text.
pub open spec fn command(line: Seq<char>) -> Option<Action> {
    if line == "quit"@ {
        Some(Action::Quit)
    } else if line == "history"@ {
        Some(Action::History)
    } else if line == "program"@ {
        Some(Action::Program)
    } else if line == "registers"@ {
        Some(Action::Registers)
    } else if line == "load_file"@ {
        Some(Action::LoadFile)
    } else if line == "clear_program"@ {
        Some(Action::Cleared)
    } else {
        None
    }
}

/// The code that the source text `source` stands for, with labels resolved
/// by `symbols`.
pub open spec fn code_of(source: Seq<char>, symbols: Map<Seq<char>, u32>) -> Result<
    Seq<u8>,
    AssemblyErrorView,
> {
    match grammar::program(source) {
        Ok(records) => encode_program(records, symbols),
        Err(remainder) => Err(AssemblyErrorView::Syntax { remainder }),
    }
}

/// Why a text spells no bytes.
#[derive(Debug, Clone, Copy, PartialEq, Eq, Structural)]
pub enum HexError {
    /// A word is empty.
    Empty,
    /// A word holds a character that is no hexadecimal digit, or no digit
    /// at all.
    InvalidDigit,
    /// A word spells a number that no byte holds.
    Overflow,
}

/// The value of a hexadecimal digit.
pub open spec fn hex_digit(c: char) -> Option<int> {
    if '0' <= c <= '9' {
        Some(c as int - '0' as int)
    } else if 'a' <= c <= 'f' {
        Some(c as int - 'a' as int + 10)
    } else if 'A' <= c <= 'F' {
        Some(c as int - 'A' as int + 10)
    } else {
        None
    }
}

/// The number that hexadecimal digits spell. The first character that is
/// no digit, or that takes the number beyond a byte, makes it an error.
pub open spec fn hex_number(digits: Seq<char>) -> Result<int, HexError>
    decreases digits.len(),
{
    if digits.len() == 0 {
        Ok(0)
    } else {
        match hex_number(digits.drop_last()) {
            Ok(front) => match hex_digit(digits.last()) {
                Some(digit) => if front * 16 + digit > u8::MAX {
                    Err(HexError::Overflow)
                } else {
                    Ok(front * 16 + digit)
                },
                None => Err(HexError::InvalidDigit),
            },
            Err(e) => Err(e),
        }
    }
}

/// The byte that a word spells: a plus sign or none, then hexadecimal
/// digits, at least one.
pub open spec fn hex_byte(word: Seq<char>) -> Result<u8, HexError> {
    if word.len() == 0 {
        Err(HexError::Empty)
    } else {
        let digits = if word[0] == '+' {
            word.subrange(1, word.len() as int)
        } else {
            word
        };
        if digits.len() == 0 {
            Err(HexError::InvalidDigit)
        } else {
            match hex_number(digits) {
                Ok(value) => Ok(value as u8),
                Err(e) => Err(e),
            }
        }
    }
}

/// Where the first blank of `s` at or behind position `from` stands; the
/// end of `s` where there is none.
pub open spec fn next_blank(s: Seq<char>, from: int) -> int
    decreases s.len() - from,
{
    if 0 <= from < s.len() && s[from] != ' ' {
        next_blank(s, from + 1)
    } else {
        from
    }
}

/// The bytes that the words of `s` from position `from` on spell, or the
/// error of the first word that spells none. One blank parts two words.
pub open spec fn hex_bytes(s: Seq<char>, from: int) -> Result<Seq<u8>, HexError>
    decreases s.len() - from,
{
    let end = next_blank(s, from);
    match hex_byte(s.subrange(from, end)) {
        Ok(byte) => if from <= end < s.len() {
            match hex_bytes(s, end + 1) {
                Ok(others) => Ok(seq![byte] + others),
                Err(e) => Err(e),
            }
        } else {
            Ok(seq![byte])
        },
        Err(e) => Err(e),
    }
}

/// A word ends at or behind its beginning, and holds no blank.
proof fn lemma_next_blank(s: Seq<char>, from: int)
    requires
        0 <= from <= s.len(),
    ensures
        from <= next_blank(s, from) <= s.len(),
        forall|i: int| from <= i < next_blank(s, from) ==> s[i] != ' ',
        next_blank(s, from) < s.len() ==> s[next_blank(s, from)] == ' ',
    decreases s.len() - from,
{
    if from < s.len() && s[from] != ' ' {
        lemma_next_blank(s, from + 1);
    }
}

/// Digits whose beginning spells no number spell none, for the same
/// reason.
proof fn lemma_hex_error_stays(digits: Seq<char>, n: int)
    requires
        0 <= n <= digits.len(),
        hex_number(digits.subrange(0, n)) is Err,
    ensures
        hex_number(digits) == hex_number(digits.subrange(0, n)),
    decreases digits.len() - n,
{
    if n == digits.len() {
        assert(digits.subrange(0, n) =~= digits);
    } else {
        assert(digits.subrange(0, n + 1).drop_last() =~= digits.subrange(0, n));
        lemma_hex_error_stays(digits, n + 1);
    }
}

/// The value of the hexadecimal digit with the ASCII code `b`.
fn digit_value(b: u8) -> (value: Option<u8>)
    requires
        b < 0x80,
    ensures
        match hex_digit(b as char) {
            Some(digit) => value == Some(digit as u8) && digit < 16,
            None => value is None,
        },
{
    if 48 <= b && b <= 57 {
        Some(b - 48)
    } else if 97 <= b && b <= 102 {
        Some(b - 97 + 10)
    } else if 65 <= b && b <= 70 {
        Some(b - 65 + 10)
    } else {
        None
    }
}

/// Reads the word of `input` that begins at position `from`: the byte that
/// it spells, and where it ends.
fn read_hex_word(input: &str, from: usize) -> (result: Result<(u8, usize), HexError>)
    requires
        ascii_prefix(input@, from as int),
    ensures
        match hex_byte(input@.subrange(from as int, next_blank(input@, from as int))) {
            Ok(byte) => result == Ok::<(u8, usize), HexError>(
                (byte, next_blank(input@, from as int) as usize),
            ) && ascii_prefix(input@, next_blank(input@, from as int)) && next_blank(
                input@,
                from as int,
            ) <= usize::MAX,
            Err(e) => result == Err::<(u8, usize), HexError>(e),
        },
{
    let ghost end = next_blank(input@, from as int);
    let ghost word = input@.subrange(from as int, end);
    proof {
        lemma_next_blank(input@, from as int);
    }
    let mut start = from;
    match peek(input, from) {
        Some(b) => {
            if b == 43 {
                start = from + 1;
            }
        },
        None => {
            proof {
                if from < input@.len() {
                    crate::text::lemma_char_range(input@[from as int]);
                }
            }
        },
    }
    let ghost digits = input@.subrange(start as int, end);
    proof {
        if start > from {
            assert(word[0] == '+');
            assert(digits =~= word.subrange(1, word.len() as int));
        } else if word.len() > 0 {
            assert(word[0] == input@[from as int]);
            assert(digits =~= word);
        }
    }
    let mut pos = start;
    let mut value: u8 = 0;
    assert(input@.subrange(start as int, pos as int) =~= Seq::<char>::empty());
    loop
        invariant
            from <= start <= pos <= end <= input@.len(),
            ascii_prefix(input@, pos as int),
            end == next_blank(input@, from as int),
            digits == input@.subrange(start as int, end),
            hex_number(input@.subrange(start as int, pos as int)) == Ok::<int, HexError>(
                value as int,
            ),
            forall|i: int| from <= i < end ==> input@[i] != ' ',
            end < input@.len() ==> input@[end] == ' ',
            start == from || (start == from + 1 && input@[from as int] == '+'),
            start == from && from < end ==> input@[from as int] != '+',
        ensures
            pos == end,
        decreases input@.len() - pos,
    {
        proof {
            if pos < end {
                assert(input@.subrange(start as int, pos + 1).drop_last() =~= input@.subrange(
                    start as int,
                    pos as int,
                ));
                assert(digits.subrange(0, pos + 1 - start) =~= input@.subrange(
                    start as int,
                    pos + 1,
                ));
                assert(input@.subrange(start as int, pos + 1).last() == input@[pos as int]);
                let word = input@.subrange(from as int, end);
                assert(word[0] == input@[from as int]);
                if start > from {
                    assert(digits =~= word.subrange(1, word.len() as int));
                } else {
                    assert(digits =~= word);
                }
            }
        }
        match peek(input, pos) {
            Some(b) => {
                if b == 32 {
                    break;
                }
                match digit_value(b) {
                    Some(digit) => {
                        if value > 15 {
                            proof {
                                lemma_hex_error_stays(digits, pos + 1 - start);
                            }
                            return Err(HexError::Overflow);
                        }
                        value = value * 16 + digit;
                        pos += 1;
                    },
                    None => {
                        proof {
                            lemma_hex_error_stays(digits, pos + 1 - start);
                        }
                        return Err(HexError::InvalidDigit);
                    },
                }
            },
            None => {
                if at_end(input, pos) {
                    break;
                }
                proof {
                    lemma_hex_error_stays(digits, pos + 1 - start);
                }
                return Err(HexError::InvalidDigit);
            },
        }
    }
    if pos == from {
        Err(HexError::Empty)
    } else if pos == start {
        Err(HexError::InvalidDigit)
    } else {
        Ok((value, pos))
    }
}

/// The shell: the lines that were entered, the machine, and the assembler
/// whose symbols resolve the labels of what is entered.
pub struct REPL {
    pub command_buffer: Vec<String>,
    pub vm: VM,
    pub assembler: Assembler,
}

impl REPL {
    /// A shell with a new machine, a new assembler and no lines.
    pub fn new() -> (repl: REPL)
        ensures
            repl.command_buffer@.len() == 0,
            repl.vm@ == VM::new_state(),
            repl.assembler.phase == AssemblerPhase::First,
            repl.assembler.symbols@ == Map::<Seq<char>, u32>::empty(),
    {
        REPL { vm: VM::new(), assembler: Assembler::new(), command_buffer: Vec::new() }
    }

    /// The code of the source text `source`.
    fn code(&self, source: &str) -> (result: Result<Vec<u8>, AssemblyError>)
        ensures
            encodes(result, code_of(source@, self.assembler.symbols@)),
    {
        match program(source) {
            Ok((_, program)) => program.to_bytes(&self.assembler.symbols),
            Err(e) => Err(AssemblyError::Syntax { remainder: e.remainder.to_owned() }),
        }
    }

    /// Carries out the line `line`. A command of the shell changes nothing
    /// but for `clear_program`, which empties the machine's program. Any
    /// other line is source text: its code goes behind the machine's
    /// program and the machine takes one step. Text that has no code
    /// changes nothing.
    pub fn interpret(&mut self, line: &str) -> (result: Result<Action, AssemblyError>)
        ensures
            final(self).command_buffer == old(self).command_buffer,
            final(self).assembler == old(self).assembler,
            match command(line@) {
                Some(Action::Cleared) => result == Ok::<Action, AssemblyError>(Action::Cleared)
                    && final(self).vm@ == (VmState { program: Seq::empty(), ..old(self).vm@ }),
                Some(action) => result == Ok::<Action, AssemblyError>(action) && final(self).vm@
                    == old(self).vm@,
                None => match code_of(line@, old(self).assembler.symbols@) {
                    Ok(code) => {
                        let loaded = VmState {
                            program: old(self).vm@.program + code,
                            ..old(self).vm@
                        };
                        result == Ok::<Action, AssemblyError>(Action::Ran(loaded.step().1))
                            && final(self).vm@ == loaded.step().0
                    },
                    Err(e) => result matches Err(x) && x@ == e && final(self).vm@ == old(
                        self,
                    ).vm@,
                },
            },
    {
        if same_text(line, "quit") {
            Ok(Action::Quit)
        } else if same_text(line, "history") {
            Ok(Action::History)
        } else if same_text(line, "program") {
            Ok(Action::Program)
        } else if same_text(line, "registers") {
            Ok(Action::Registers)
        } else if same_text(line, "load_file") {
            Ok(Action::LoadFile)
        } else if same_text(line, "clear_program") {
            self.vm.program.clear();
            Ok(Action::Cleared)
        } else {
            match self.code(line) {
                Ok(code) => {
                    self.vm.add_bytes(code);
                    let status = self.vm.run_once();
                    Ok(Action::Ran(status))
                },
                Err(e) => Err(e),
            }
        }
    }

    /// Puts the code of the source text `contents` behind the machine's
    /// program. Text that has no code changes nothing.
    pub fn load(&mut self, contents: &str) -> (result: Result<(), AssemblyError>)
        ensures
            final(self).command_buffer == old(self).command_buffer,
            final(self).assembler == old(self).assembler,
            match code_of(contents@, old(self).assembler.symbols@) {
                Ok(code) => result is Ok && final(self).vm@ == (VmState {
                    program: old(self).vm@.program + code,
                    ..old(self).vm@
                }),
                Err(e) => result matches Err(x) && x@ == e && final(self).vm@ == old(self).vm@,
            },
    {
        match self.code(contents) {
            Ok(code) => {
                self.vm.add_bytes(code);
                Ok(())
            },
            Err(e) => Err(e),
        }
    }

    /// Adds `line` to the lines that were entered.
    pub fn remember(&mut self, line: &str)
        ensures
            final(self).command_buffer@.len() == old(self).command_buffer@.len() + 1,
            final(self).command_buffer@.last()@ == line@,
            forall|i: int|
                0 <= i < old(self).command_buffer@.len() ==> final(self).command_buffer@[i] == old(
                    self,
                ).command_buffer@[i],
            final(self).vm == old(self).vm,
            final(self).assembler == old(self).assembler,
    {
        self.command_buffer.push(line.to_owned());
    }
}

impl REPL {
    /// The bytes that the hexadecimal words of `i` spell, without a leading
    /// `0x`; `00 01 03 E8`, for one, spells four bytes.
    pub fn parse_hex(&mut self, i: &str) -> (result: Result<Vec<u8>, HexError>)
        ensures
            *final(self) == *old(self),
            match hex_bytes(i@, 0) {
                Ok(bytes) => result matches Ok(found) && found@ == bytes,
                Err(e) => result matches Err(x) && x == e,
            },
    {
        let mut results: Vec<u8> = Vec::new();
        let mut pos: usize = 0;
        loop
            invariant
                ascii_prefix(i@, pos as int),
                match hex_bytes(i@, pos as int) {
                    Ok(others) => hex_bytes(i@, 0) == Ok::<Seq<u8>, HexError>(results@ + others),
                    Err(e) => hex_bytes(i@, 0) == Err::<Seq<u8>, HexError>(e),
                },
            decreases i@.len() - pos,
        {
            proof {
                lemma_next_blank(i@, pos as int);
            }
            match read_hex_word(i, pos) {
                Ok((byte, end)) => {
                    let ghost before = results@;
                    results.push(byte);
                    if at_end(i, end) {
                        assert(before + seq![byte] =~= results@);
                        return Ok(results);
                    }
                    proof {
                        let others = hex_bytes(i@, end + 1);
                        if others is Ok {
                            assert(before + (seq![byte] + others->Ok_0) =~= results@
                                + others->Ok_0);
                        }
                    }
                    pos = end + 1;
                },
                Err(e) => {
                    return Err(e);
                },
            }
        }
    }
}

} // verus!
