//! The assembler: tokens, the symbol table, and the two passes that turn a
//! parsed program into an image.

use vstd::prelude::*;
use crate::assembler::instruction_parsers::{encodes, InstructionView, RECORD_WIDTH};
use crate::assembler::program_parsers::{encode_program, program, Program};
use crate::instruction::Opcode;
use crate::text::same_text;

pub mod directive_parsers;
pub mod grammar;
pub mod helper_parsers;
pub mod instruction_parsers;
pub mod label_parsers;
pub mod opcode_parsers;
pub mod operand_parsers;
pub mod program_parsers;
pub mod register_parsers;

verus! {

/// The bytes that every image begins with: the mark of an ELF file, its
/// class, byte order and version, and further on the type of the file and
/// the machine it is for.
pub const ELF_HEADER_PREFIX: [u8; 19] = [
    127, 69, 76, 70, 1, 1, 1, 0, 0, 0, 0, 0, 0, 0, 0, 0, 2, 0, 12,
];

/// How many bytes the prefix has.
pub const ELF_PREFIX_LENGTH: usize = 19;

/// The length up to which zeros follow the prefix.
pub const ELF_HEADER_LENGTH: usize = 64;

/// The index of the first byte of code in an image: the header is
/// `ELF_HEADER_LENGTH` bytes and one more.
pub const CODE_START: usize = ELF_HEADER_LENGTH + 1;

/// The header of an image: the prefix, then zeros up to `CODE_START` bytes.
pub open spec fn header() -> Seq<u8> {
    ELF_HEADER_PREFIX@ + Seq::new((CODE_START - ELF_PREFIX_LENGTH) as nat, |i: int| 0u8)
}

/// Whether `image` begins with the prefix.
pub open spec fn has_prefix(image: Seq<u8>) -> bool {
    image.len() >= ELF_PREFIX_LENGTH && image.subrange(0, ELF_PREFIX_LENGTH as int)
        == ELF_HEADER_PREFIX@
}

/// One word of source text.
#[derive(Debug, PartialEq, Clone)]
pub enum Token {
    Op { code: Opcode },
    Register { reg_num: u8 },
    IntegerOperand { value: i32 },
    LabelDeclaration { name: String },
    LabelUsage { name: String },
    Directive { name: String },
    IrString { name: String },
}

/// A token as a mathematical value: names are sequences of characters.
pub enum TokenView {
    Op { code: Opcode },
    Register { reg_num: u8 },
    IntegerOperand { value: i32 },
    LabelDeclaration { name: Seq<char> },
    LabelUsage { name: Seq<char> },
    Directive { name: Seq<char> },
    IrString { name: Seq<char> },
}

impl View for Token {
    type V = TokenView;

    open spec fn view(&self) -> TokenView {
        match self {
            Token::Op { code } => TokenView::Op { code: *code },
            Token::Register { reg_num } => TokenView::Register { reg_num: *reg_num },
            Token::IntegerOperand { value } => TokenView::IntegerOperand { value: *value },
            Token::LabelDeclaration { name } => TokenView::LabelDeclaration { name: name@ },
            Token::LabelUsage { name } => TokenView::LabelUsage { name: name@ },
            Token::Directive { name } => TokenView::Directive { name: name@ },
            Token::IrString { name } => TokenView::IrString { name: name@ },
        }
    }
}

/// The view of a token that may be absent.
pub open spec fn optional_view(token: Option<Token>) -> Option<TokenView> {
    match token {
        Some(t) => Some(t@),
        None => None,
    }
}

/// Why a program could not be assembled.
#[derive(Debug, PartialEq, Clone)]
pub enum AssemblyError {
    /// The source text does not follow the grammar; `remainder` is the text
    /// from the first line on that could not be read.
    Syntax { remainder: String },
    /// An operand refers to a label that the program does not declare.
    UnresolvedSymbol { name: String },
    /// The opcode field of a record holds a token that is no opcode.
    InvalidOpcode,
    /// An operand field of a record holds a token that is no operand.
    InvalidOperand,
    /// The operands of a record need more than the bytes a record has.
    OperandOverflow,
}

/// An assembly error as a mathematical value.
pub enum AssemblyErrorView {
    Syntax { remainder: Seq<char> },
    UnresolvedSymbol { name: Seq<char> },
    InvalidOpcode,
    InvalidOperand,
    OperandOverflow,
}

impl View for AssemblyError {
    type V = AssemblyErrorView;

    open spec fn view(&self) -> AssemblyErrorView {
        match self {
            AssemblyError::Syntax { remainder } => AssemblyErrorView::Syntax {
                remainder: remainder@,
            },
            AssemblyError::UnresolvedSymbol { name } => AssemblyErrorView::UnresolvedSymbol {
                name: name@,
            },
            AssemblyError::InvalidOpcode => AssemblyErrorView::InvalidOpcode,
            AssemblyError::InvalidOperand => AssemblyErrorView::InvalidOperand,
            AssemblyError::OperandOverflow => AssemblyErrorView::OperandOverflow,
        }
    }
}

/// Which pass the assembler has reached.
#[derive(Debug, PartialEq, Eq, Clone, Copy, Structural)]
pub enum AssemblerPhase {
    First,
    Second,
}

/// What a symbol stands for.
#[derive(Debug, PartialEq, Eq, Clone, Copy, Structural)]
pub enum SymbolType {
    Label,
}

/// A name and the byte offset, from the start of the code, that it stands
/// for.
#[derive(Debug)]
pub struct Symbol {
    name: String,
    offset: u32,
    symbol_type: SymbolType,
}

/// A symbol as a mathematical value.
pub struct SymbolView {
    pub name: Seq<char>,
    pub offset: u32,
    pub symbol_type: SymbolType,
}

impl View for Symbol {
    type V = SymbolView;

    closed spec fn view(&self) -> SymbolView {
        SymbolView { name: self.name@, offset: self.offset, symbol_type: self.symbol_type }
    }
}

impl Symbol {
    /// The symbol `name` of the kind `symbol_type` that stands for `offset`.
    pub fn new(name: String, symbol_type: SymbolType, offset: u32) -> (symbol: Symbol)
        ensures
            symbol@ == (SymbolView { name: name@, offset, symbol_type }),
    {
        Symbol { name, symbol_type, offset }
    }
}

/// The symbols of one program. No two of them have the same name: a symbol
/// that is added under a name already there takes the place of the old one.
#[derive(Debug)]
pub struct SymbolTable {
    symbols: Vec<Symbol>,
}

impl View for SymbolTable {
    type V = Map<Seq<char>, u32>;

    /// The offset that each name of the table stands for.
    closed spec fn view(&self) -> Map<Seq<char>, u32> {
        Map::new(
            |name: Seq<char>| self.names().contains(name),
            |name: Seq<char>| self.symbols[self.names().index_of(name)].offset,
        )
    }
}

impl SymbolTable {
    /// The names of the symbols, in the order in which they came.
    closed spec fn names(&self) -> Seq<Seq<char>> {
        Seq::new(self.symbols.len() as nat, |i: int| self.symbols[i].name@)
    }

    #[verifier::type_invariant]
    closed spec fn distinct_names(&self) -> bool {
        self.names().no_duplicates()
    }

    /// A table without symbols.
    pub fn new() -> (table: SymbolTable)
        ensures
            table@ == Map::<Seq<char>, u32>::empty(),
    {
        let table = SymbolTable { symbols: Vec::new() };
        assert(table@ =~= Map::<Seq<char>, u32>::empty());
        table
    }

    /// Where in the table the symbol named `name` stands, if there is one.
    fn position(&self, name: &str) -> (found: Option<usize>)
        ensures
            match found {
                Some(i) => i < self.symbols.len() && self.symbols[i as int].name@ == name@,
                None => !self.names().contains(name@),
            },
    {
        let mut i: usize = 0;
        while i < self.symbols.len()
            invariant
                i <= self.symbols.len(),
                forall|k: int| 0 <= k < i ==> self.symbols[k].name@ != name@,
            decreases self.symbols.len() - i,
        {
            if same_text(self.symbols[i].name.as_str(), name) {
                return Some(i);
            }
            i += 1;
        }
        None
    }

    /// Adds `s` to the table; where the table holds a symbol of that name,
    /// `s` takes its place.
    pub fn add_symbol(&mut self, s: Symbol)
        ensures
            final(self)@ == old(self)@.insert(s@.name, s@.offset),
    {
        proof {
            use_type_invariant(&*self);
        }
        let ghost before = *self;
        let ghost added = s@;
        let found = self.position(s.name.as_str());
        let mut symbols = Vec::new();
        std::mem::swap(&mut symbols, &mut self.symbols);
        match found {
            Some(i) => {
                symbols[i] = s;
            },
            None => {
                symbols.push(s);
            },
        }
        proof {
            let names = Seq::new(symbols.len() as nat, |i: int| symbols[i].name@);
            match found {
                Some(i) => {
                    assert(names =~= before.names());
                },
                None => {
                    assert(names =~= before.names().push(added.name));
                },
            }
            assert(names.no_duplicates());
        }
        self.symbols = symbols;
        proof {
            let goal = before@.insert(added.name, added.offset);
            assert forall|name: Seq<char>|
                self.names().contains(name) <==> before.names().contains(name) || name
                    == added.name by {
                if before.names().contains(name) {
                    let j = before.names().index_of(name);
                    assert(self.names()[j] == name);
                }
                match found {
                    Some(i) => {
                        assert(self.names()[i as int] == added.name);
                    },
                    None => {
                        assert(self.names()[before.names().len() as int] == added.name);
                    },
                }
            }
            assert forall|name: Seq<char>| self.names().contains(name) implies (
            #[trigger] self@[name]) == goal[name] by {
                let k = self.names().index_of(name);
                assert(self.names()[k] == name);
                if name != added.name {
                    let j = before.names().index_of(name);
                    assert(before.names()[j] == name);
                    assert(self.names()[j] == name);
                    assert(k == j);
                } else {
                    match found {
                        Some(i) => {
                            assert(self.names()[i as int] == name);
                        },
                        None => {
                            assert(self.names()[before.names().len() as int] == name);
                        },
                    }
                }
            }
            assert(self@ =~= goal);
        }
    }

    /// The offset that `s` stands for, if the table holds a symbol of that
    /// name.
    pub fn symbol_value(&self, s: &str) -> (value: Option<u32>)
        ensures
            value == (if self@.contains_key(s@) {
                Some(self@[s@])
            } else {
                None
            }),
    {
        proof {
            use_type_invariant(self);
        }
        match self.position(s) {
            Some(i) => {
                proof {
                    let k = self.names().index_of(s@);
                    assert(self.names()[i as int] == s@);
                    assert(self.names()[k] == s@);
                }
                Some(self.symbols[i].offset)
            },
            None => None,
        }
    }

    /// How many symbols the table holds.
    pub fn len(&self) -> (n: usize)
        ensures
            self@.dom().finite(),
            n == self@.dom().len(),
    {
        proof {
            use_type_invariant(self);
            self.names().unique_seq_to_set();
            vstd::seq_lib::seq_to_set_is_finite(self.names());
            assert(self@.dom() =~= self.names().to_set());
        }
        self.symbols.len()
    }
}

/// The offset of the record with index `index`, as far as thirty-two bits
/// hold it.
pub open spec fn label_offset(index: int) -> u32 {
    ((RECORD_WIDTH * index) % 0x1_0000_0000) as u32
}

/// `symbols` with the labels that `records` declare, each under the offset
/// of the record that declares it. Of two records that declare the same
/// name the later one counts.
pub open spec fn with_labels(symbols: Map<Seq<char>, u32>, records: Seq<InstructionView>) -> Map<
    Seq<char>,
    u32,
>
    decreases records.len(),
{
    if records.len() == 0 {
        symbols
    } else {
        let before = with_labels(symbols, records.drop_last());
        match records.last().label_name() {
            Some(name) => before.insert(name, label_offset(records.len() - 1)),
            None => before,
        }
    }
}

/// The labels that `records` declare.
pub open spec fn labels(records: Seq<InstructionView>) -> Map<Seq<char>, u32> {
    with_labels(Map::empty(), records)
}

/// The image of the program `source`: the header, then the code of its
/// records with the labels that they declare; or the reason why it has
/// none.
pub open spec fn assembled(source: Seq<char>) -> Result<Seq<u8>, AssemblyErrorView> {
    match grammar::program(source) {
        Ok(records) => match encode_program(records, labels(records)) {
            Ok(code) => Ok(header() + code),
            Err(e) => Err(e),
        },
        Err(remainder) => Err(AssemblyErrorView::Syntax { remainder }),
    }
}

/// The assembler: the pass it has reached and the symbols it has found.
#[derive(Debug)]
pub struct Assembler {
    pub phase: AssemblerPhase,
    pub symbols: SymbolTable,
}

impl Assembler {
    /// An assembler before its first pass, without symbols.
    pub fn new() -> (assembler: Assembler)
        ensures
            assembler.phase == AssemblerPhase::First,
            assembler.symbols@ == Map::<Seq<char>, u32>::empty(),
    {
        Assembler { phase: AssemblerPhase::First, symbols: SymbolTable::new() }
    }

    /// Assembles the source text `raw` into an image: the header, then the
    /// code of the program. The symbols are those of this program alone;
    /// where the text is no program the assembler stays as it was.
    pub fn assemble(&mut self, raw: &str) -> (result: Result<Vec<u8>, AssemblyError>)
        ensures
            encodes(result, assembled(raw@)),
            match grammar::program(raw@) {
                Ok(records) => final(self).symbols@ == labels(records) && final(self).phase
                    == AssemblerPhase::Second,
                Err(_) => final(self).symbols@ == old(self).symbols@ && final(self).phase == old(
                    self,
                ).phase,
            },
    {
        match program(raw) {
            Ok((_, program)) => {
                let mut assembled_program = self.write_elf_header();
                self.symbols = SymbolTable::new();
                self.process_first_phase(&program);
                match self.process_second_phase(&program) {
                    Ok(body) => {
                        let mut body = body;
                        assembled_program.append(&mut body);
                        Ok(assembled_program)
                    },
                    Err(e) => Err(e),
                }
            },
            Err(e) => Err(AssemblyError::Syntax { remainder: e.remainder.to_owned() }),
        }
    }

    /// The first pass: collects the labels of `p`.
    pub fn process_first_phase(&mut self, p: &Program)
        ensures
            final(self).symbols@ == with_labels(old(self).symbols@, p@),
            final(self).phase == AssemblerPhase::Second,
    {
        self.extract_labels(p);
        self.phase = AssemblerPhase::Second;
    }

    /// The second pass: the code of `p`, with label references resolved by
    /// the symbols that the first pass found.
    pub fn process_second_phase(&mut self, p: &Program) -> (result: Result<Vec<u8>, AssemblyError>)
        ensures
            encodes(result, encode_program(p@, old(self).symbols@)),
            final(self).symbols@ == old(self).symbols@,
            final(self).phase == old(self).phase,
    {
        p.to_bytes(&self.symbols)
    }

    /// Adds the labels that `p` declares to the symbols.
    pub fn extract_labels(&mut self, p: &Program)
        ensures
            final(self).symbols@ == with_labels(old(self).symbols@, p@),
            final(self).phase == old(self).phase,
    {
        let mut c: u32 = 0;
        let mut index: usize = 0;
        while index < p.instructions.len()
            invariant
                index <= p.instructions.len(),
                c == label_offset(index as int),
                self.symbols@ == with_labels(old(self).symbols@, p@.subrange(0, index as int)),
                self.phase == old(self).phase,
            decreases p.instructions.len() - index,
        {
            proof {
                assert(p@.subrange(0, index + 1).drop_last() =~= p@.subrange(0, index as int));
                assert(p@.subrange(0, index + 1).last() == p.instructions[index as int]@);
            }
            let i = &p.instructions[index];
            if i.is_label() {
                match i.get_label_name() {
                    Some(name) => {
                        let symbol = Symbol::new(name, SymbolType::Label, c);
                        self.symbols.add_symbol(symbol);
                    },
                    None => {},
                };
            }
            c = c.wrapping_add(RECORD_WIDTH as u32);
            index += 1;
        }
        assert(p@.subrange(0, index as int) =~= p@);
    }

    /// The header that every image begins with.
    pub fn write_elf_header(&self) -> (image: Vec<u8>)
        ensures
            image@ == header(),
    {
        let mut image: Vec<u8> = Vec::new();
        let mut i: usize = 0;
        while i < ELF_PREFIX_LENGTH
            invariant
                i <= ELF_PREFIX_LENGTH,
                image@ =~= ELF_HEADER_PREFIX@.subrange(0, i as int),
            decreases ELF_PREFIX_LENGTH - i,
        {
            image.push(ELF_HEADER_PREFIX[i]);
            i += 1;
        }
        while image.len() <= ELF_HEADER_LENGTH
            invariant
                ELF_PREFIX_LENGTH <= image.len() <= CODE_START,
                image@ =~= ELF_HEADER_PREFIX@ + Seq::new(
                    (image.len() - ELF_PREFIX_LENGTH) as nat,
                    |i: int| 0u8,
                ),
            decreases CODE_START - image.len(),
        {
            image.push(0);
        }
        image
    }
}

} // verus!
