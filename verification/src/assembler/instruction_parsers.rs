//! Instruction records: what the parser makes of one line, and the bytes
//! that stand for it in an image.

use vstd::prelude::*;
use byteorder::{ByteOrder, LittleEndian};
use crate::assembler::grammar;
use crate::assembler::helper_parsers::{
    optional, record_result, unread, with_operands, SyntaxError,
};
use crate::assembler::label_parsers::label_declaration;
use crate::assembler::opcode_parsers::opcode;
use crate::assembler::{
    optional_view, AssemblyError, AssemblyErrorView, SymbolTable, Token, TokenView,
};
use crate::instruction::{Decoded, Opcode};

verus! {

/// How many bytes stand for one record in an image.
pub const RECORD_WIDTH: usize = 4;

/// One line of a program: a label or none, a directive or an opcode, and
/// the operands in their order.
#[derive(Debug, PartialEq)]
pub struct AssemblerInstruction {
    pub label: Option<Token>,
    pub directive: Option<Token>,
    pub opcode: Option<Token>,
    pub operand1: Option<Token>,
    pub operand2: Option<Token>,
    pub operand3: Option<Token>,
}

/// A record as a mathematical value.
pub struct InstructionView {
    pub label: Option<TokenView>,
    pub directive: Option<TokenView>,
    pub opcode: Option<TokenView>,
    pub operand1: Option<TokenView>,
    pub operand2: Option<TokenView>,
    pub operand3: Option<TokenView>,
}

impl View for AssemblerInstruction {
    type V = InstructionView;

    open spec fn view(&self) -> InstructionView {
        InstructionView {
            label: optional_view(self.label),
            directive: optional_view(self.directive),
            opcode: optional_view(self.opcode),
            operand1: optional_view(self.operand1),
            operand2: optional_view(self.operand2),
            operand3: optional_view(self.operand3),
        }
    }
}

/// The low sixteen bits of `value` as two bytes, the high one first.
pub open spec fn big_endian_16(value: int) -> Seq<u8> {
    seq![((value % 0x1_0000) / 0x100) as u8, (value % 0x100) as u8]
}

/// `bytes` with the bytes of one more part behind them, or the first error.
pub open spec fn followed_by(
    bytes: Result<Seq<u8>, AssemblyErrorView>,
    part: Result<Seq<u8>, AssemblyErrorView>,
) -> Result<Seq<u8>, AssemblyErrorView> {
    match bytes {
        Ok(front) => match part {
            Ok(back) => Ok(front + back),
            Err(e) => Err(e),
        },
        Err(e) => Err(e),
    }
}

impl TokenView {
    /// The bytes that stand for this token as an operand: a register's
    /// number, the low sixteen bits of an integer, or the low sixteen bits
    /// of the offset that `symbols` gives for a label.
    pub open spec fn operand_bytes(self, symbols: Map<Seq<char>, u32>) -> Result<
        Seq<u8>,
        AssemblyErrorView,
    > {
        match self {
            TokenView::Register { reg_num } => Ok(seq![reg_num]),
            TokenView::IntegerOperand { value } => Ok(big_endian_16(value as int)),
            TokenView::LabelUsage { name } => if symbols.contains_key(name) {
                Ok(big_endian_16(symbols[name] as int))
            } else {
                Err(AssemblyErrorView::UnresolvedSymbol { name })
            },
            _ => Err(AssemblyErrorView::InvalidOperand),
        }
    }

    /// The number that this token puts into the last two bytes of a record:
    /// the low sixteen bits of an integer, or of the offset that `symbols`
    /// gives for a label.
    pub open spec fn number(self, symbols: Map<Seq<char>, u32>) -> int {
        match self {
            TokenView::IntegerOperand { value } => value as int % 0x1_0000,
            TokenView::LabelUsage { name } => symbols[name] as int % 0x1_0000,
            _ => 0,
        }
    }

    /// Whether this token spells a number: an integer, or a label that
    /// `symbols` knows.
    pub open spec fn is_number(self, symbols: Map<Seq<char>, u32>) -> bool {
        match self {
            TokenView::IntegerOperand { .. } => true,
            TokenView::LabelUsage { name } => symbols.contains_key(name),
            _ => false,
        }
    }
}

/// The bytes of an operand field: none where the field is empty.
pub open spec fn field_bytes(field: Option<TokenView>, symbols: Map<Seq<char>, u32>) -> Result<
    Seq<u8>,
    AssemblyErrorView,
> {
    match field {
        Some(token) => token.operand_bytes(symbols),
        None => Ok(Seq::empty()),
    }
}

impl InstructionView {
    /// The name that this record declares as a label, if it declares one.
    pub open spec fn label_name(self) -> Option<Seq<char>> {
        match self.label {
            Some(TokenView::LabelDeclaration { name }) => Some(name),
            _ => None,
        }
    }

    /// Whether this record is either a directive or an instruction, and not
    /// both.
    pub open spec fn well_formed(self) -> bool {
        &&& self.directive is Some <==> self.opcode is None
        &&& self.directive matches Some(d) ==> d is Directive
        &&& self.opcode matches Some(o) ==> o is Op
        &&& self.label matches Some(l) ==> l is LabelDeclaration
    }

    /// The byte of the opcode field: none where the record has no opcode.
    pub open spec fn opcode_bytes(self) -> Result<Seq<u8>, AssemblyErrorView> {
        match self.opcode {
            Some(TokenView::Op { code }) => Ok(seq![code.code()]),
            Some(_) => Err(AssemblyErrorView::InvalidOpcode),
            None => Ok(Seq::empty()),
        }
    }

    /// The opcode's byte and the bytes of the first `n` operands, or the
    /// first error among them.
    pub open spec fn body_before(self, symbols: Map<Seq<char>, u32>, n: int) -> Result<
        Seq<u8>,
        AssemblyErrorView,
    >
        decreases n,
    {
        if n <= 0 {
            self.opcode_bytes()
        } else {
            followed_by(
                self.body_before(symbols, n - 1),
                field_bytes(self.fields()[n - 1], symbols),
            )
        }
    }

    /// The opcode's byte and the bytes of the operands in their order,
    /// or the first error among them.
    pub open spec fn body(self, symbols: Map<Seq<char>, u32>) -> Result<
        Seq<u8>,
        AssemblyErrorView,
    > {
        self.body_before(symbols, 3)
    }

    /// The record of `RECORD_WIDTH` bytes that stands for this line: its
    /// body, then zeros. A body that is longer has no record.
    pub open spec fn encode(self, symbols: Map<Seq<char>, u32>) -> Result<
        Seq<u8>,
        AssemblyErrorView,
    > {
        match self.body(symbols) {
            Ok(body) => if body.len() <= RECORD_WIDTH {
                Ok(body + Seq::new((RECORD_WIDTH - body.len()) as nat, |i: int| 0u8))
            } else {
                Err(AssemblyErrorView::OperandOverflow)
            },
            Err(e) => Err(e),
        }
    }

    /// The operand fields in their order.
    pub open spec fn fields(self) -> Seq<Option<TokenView>> {
        seq![self.operand1, self.operand2, self.operand3]
    }

    /// The operation of this record; `IGL` where it has none.
    pub open spec fn operation(self) -> Opcode {
        match self.opcode {
            Some(TokenView::Op { code }) => code,
            _ => Opcode::IGL,
        }
    }

    /// Whether this record is an instruction with the operands that its
    /// operation takes: the registers first, then the number where the
    /// operation takes one, and nothing else.
    pub open spec fn valid(self, symbols: Map<Seq<char>, u32>) -> bool {
        let registers = self.operation().register_operands() as int;
        &&& self.directive is None
        &&& self.opcode matches Some(TokenView::Op { .. })
        &&& forall|k: int|
            0 <= k < 3 ==> {
                let field = #[trigger] self.fields()[k];
                if k < registers {
                    field matches Some(TokenView::Register { .. })
                } else if k == registers && self.operation().has_immediate() {
                    field matches Some(token) && token.is_number(symbols)
                } else {
                    field is None
                }
            }
    }

    /// What a valid record asks of the machine.
    pub open spec fn meaning(self, symbols: Map<Seq<char>, u32>) -> Decoded {
        let registers = self.operation().register_operands();
        Decoded {
            opcode: self.operation(),
            registers: Seq::new(registers, |k: int| self.fields()[k]->0->reg_num),
            immediate: if self.operation().has_immediate() {
                Some(self.fields()[registers as int]->0.number(symbols))
            } else {
                None
            },
        }
    }
}

/// The two bytes of an offset are its bits 8 to 15 and its bits 0 to 7.
pub proof fn lemma_big_endian_16(offset: u32)
    ensures
        big_endian_16(offset as int) == seq![
            ((offset >> 8) & 0xff) as u8,
            (offset & 0xff) as u8,
        ],
{
    assert(((offset as int % 0x1_0000) / 0x100) as u8 == ((offset >> 8) & 0xff) as u8)
        by (bit_vector);
    assert((offset as int % 0x100) as u8 == (offset & 0xff) as u8) by (bit_vector);
}

/// The use of a label that `symbols` knows stands in a record as the low
/// sixteen bits of the label's offset, the high byte first.
pub proof fn lemma_label_bytes(name: Seq<char>, symbols: Map<Seq<char>, u32>)
    requires
        symbols.contains_key(name),
    ensures
        (TokenView::LabelUsage { name }).operand_bytes(symbols) == Ok::<
            Seq<u8>,
            AssemblyErrorView,
        >(seq![((symbols[name] >> 8) & 0xff) as u8, (symbols[name] & 0xff) as u8]),
{
    lemma_big_endian_16(symbols[name]);
}

/// Whether `result` holds the bytes or the error that `expected` holds.
pub open spec fn encodes(
    result: Result<Vec<u8>, AssemblyError>,
    expected: Result<Seq<u8>, AssemblyErrorView>,
) -> bool {
    match expected {
        Ok(bytes) => result matches Ok(v) && v@ == bytes,
        Err(e) => result matches Err(x) && x@ == e,
    }
}

/// Calls `LittleEndian::write_u32` of the byteorder crate on a buffer of
/// four bytes and returns the buffer. Taken from the crate, and not proved
/// here: the buffer then holds the four bytes of `value`, the lowest first.
#[verifier::external_body]
fn little_endian(value: u32) -> (bytes: [u8; 4])
    ensures
        bytes[0] == value % 0x100,
        bytes[1] == (value / 0x100) % 0x100,
        bytes[2] == (value / 0x1_0000) % 0x100,
        bytes[3] == (value / 0x100_0000) % 0x100,
{
    let mut bytes = [0u8; 4];
    LittleEndian::write_u32(&mut bytes, value);
    bytes
}

impl AssemblerInstruction {
    /// The record that stands for this line in an image.
    pub fn to_bytes(&self, symbols: &SymbolTable) -> (result: Result<Vec<u8>, AssemblyError>)
        ensures
            encodes(result, self@.encode(symbols@)),
    {
        proof {
            reveal_with_fuel(InstructionView::body_before, 4);
        }
        let mut results: Vec<u8> = Vec::new();
        match &self.opcode {
            Some(Token::Op { code }) => {
                let b: u8 = (*code).into();
                results.push(b);
            },
            Some(_) => {
                return Err(AssemblyError::InvalidOpcode);
            },
            None => {},
        }
        let fields = [&self.operand1, &self.operand2, &self.operand3];
        let mut k: usize = 0;
        while k < 3
            invariant
                k <= 3,
                fields[0] == &self.operand1,
                fields[1] == &self.operand2,
                fields[2] == &self.operand3,
                Ok::<Seq<u8>, AssemblyErrorView>(results@) == self@.body_before(symbols@, k as int),
            decreases 3 - k,
        {
            proof {
                reveal_with_fuel(InstructionView::body_before, 4);
            }
            match fields[k] {
                Some(token) => {
                    match AssemblerInstruction::extract_operand(token, &mut results, symbols) {
                        Ok(()) => {},
                        Err(e) => {
                            return Err(e);
                        },
                    }
                },
                None => {
                    assert(results@ + Seq::<u8>::empty() =~= results@);
                },
            }
            k += 1;
        }
        assert(Ok::<Seq<u8>, AssemblyErrorView>(results@) == self@.body(symbols@));
        if results.len() > RECORD_WIDTH {
            return Err(AssemblyError::OperandOverflow);
        }
        let ghost body = results@;
        while results.len() < RECORD_WIDTH
            invariant
                body.len() <= results.len() <= RECORD_WIDTH,
                results@ =~= body + Seq::new((results.len() - body.len()) as nat, |i: int| 0u8),
            decreases RECORD_WIDTH - results.len(),
        {
            results.push(0);
        }
        Ok(results)
    }

    /// Appends the bytes of the operand `t` to `results`: a register's
    /// number, the low sixteen bits of an integer, or the low sixteen bits
    /// of the offset that `symbols` gives for a label, the high byte first.
    /// A token that is no operand, or a label without symbol, appends
    /// nothing.
    pub fn extract_operand(t: &Token, results: &mut Vec<u8>, symbols: &SymbolTable) -> (result:
        Result<(), AssemblyError>)
        ensures
            match t@.operand_bytes(symbols@) {
                Ok(bytes) => result is Ok && final(results)@ == old(results)@ + bytes,
                Err(e) => result matches Err(x) && x@ == e && final(results)@ == old(results)@,
            },
    {
        match t {
            Token::Register { reg_num } => {
                results.push(*reg_num);
                assert(results@ =~= old(results)@ + seq![*reg_num]);
                Ok(())
            },
            Token::IntegerOperand { value } => {
                let value = *value;
                let converted = value as u16;
                let byte1 = converted;
                let byte2 = converted >> 8;
                assert(((value as u16) >> 8) as u8 == (((value as int) % 0x1_0000) / 0x100) as u8)
                    by (bit_vector);
                assert((value as u16) as u8 == ((value as int) % 0x100) as u8) by (bit_vector);
                results.push(byte2 as u8);
                results.push(byte1 as u8);
                assert(results@ =~= old(results)@ + big_endian_16(value as int));
                Ok(())
            },
            Token::LabelUsage { name } => {
                match symbols.symbol_value(name.as_str()) {
                    Some(value) => {
                        let wtr = little_endian(value);
                        results.push(wtr[1]);
                        results.push(wtr[0]);
                        assert(results@ =~= old(results)@ + big_endian_16(value as int));
                        Ok(())
                    },
                    None => Err(AssemblyError::UnresolvedSymbol { name: name.clone() }),
                }
            },
            _ => Err(AssemblyError::InvalidOperand),
        }
    }

    /// Whether this line carries a label.
    pub fn is_label(&self) -> (labelled: bool)
        ensures
            labelled == (self@.label is Some),
    {
        self.label.is_some()
    }

    /// The name of the label that this line declares, if it declares one.
    pub fn get_label_name(&self) -> (name: Option<String>)
        ensures
            match self@.label_name() {
                Some(declared) => name matches Some(n) && n@ == declared,
                None => name is None,
            },
    {
        match &self.label {
            Some(l) => match l {
                Token::LabelDeclaration { name } => Some(name.clone()),
                _ => None,
            },
            None => None,
        }
    }
}

/// Reads an instruction at the beginning of `input`: a label or none, a
/// mnemonic, and up to three operands.
pub fn instruction_combined(input: &str) -> (result: Result<
    (&str, AssemblerInstruction),
    SyntaxError,
>)
    ensures
        record_result(result, grammar::instruction(input@), input@),
{
    let (l, input1) = optional(label_declaration(input), input);
    match opcode(input1) {
        Ok((input2, op)) => Ok(with_operands(l, op, input2)),
        Err(_) => Err(unread(input)),
    }
}

/// Reads an instruction at the beginning of `input`.
pub fn instruction(input: &str) -> (result: Result<(&str, AssemblerInstruction), SyntaxError>)
    ensures
        record_result(result, grammar::instruction(input@), input@),
{
    instruction_combined(input)
}

} // verus!
