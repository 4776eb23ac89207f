//! The grammar of source text, as functions on sequences of characters.
//!
//! A program is one record or more. A record is a label or none, then a
//! mnemonic or a directive, then up to three operands. Blanks, tabs and line
//! ends may stand before and behind every word and mean nothing. Each
//! function here takes the text that is still to be read and gives what it
//! finds at its beginning together with the text behind it, or `None`.

use vstd::prelude::*;
use crate::assembler::instruction_parsers::InstructionView;
use crate::assembler::TokenView;
use crate::instruction::Opcode;
use crate::text::{lemma_span, lowercase, span, CharClass};

verus! {

/// The form of a word: a mark or none, then characters of one class, at
/// least `least` of them, then a mark or none.
pub struct Shape {
    pub open: Option<char>,
    pub class: CharClass,
    pub least: usize,
    pub close: Option<char>,
}

/// The characters of a word between its marks, and the text behind the
/// word and the space that follows it.
pub struct Word {
    pub text: Seq<char>,
    pub rest: Seq<char>,
}

/// The word of the form `shape` at the beginning of `s`, behind any space:
/// its characters are taken as far as they go.
pub open spec fn word(s: Seq<char>, shape: Shape) -> Option<Word> {
    let start = span(s, CharClass::Space, 0);
    let from = if shape.open is Some {
        start + 1
    } else {
        start
    };
    let to = span(s, shape.class, from);
    let end = if shape.close is Some {
        to + 1
    } else {
        to
    };
    if (shape.open matches Some(mark) ==> start < s.len() && s[start] == mark) && to - from
        >= shape.least && (shape.close matches Some(mark) ==> to < s.len() && s[to] == mark) {
        Some(
            Word {
                text: s.subrange(from, to),
                rest: s.subrange(span(s, CharClass::Space, end), s.len() as int),
            },
        )
    } else {
        None
    }
}

/// The number that decimal digits spell.
pub open spec fn decimal(digits: Seq<char>) -> nat
    decreases digits.len(),
{
    if digits.len() == 0 {
        0
    } else {
        decimal(digits.drop_last()) * 10 + (digits.last() as u32 - '0' as u32) as nat
    }
}

/// The highest number of a register.
pub const MAX_REGISTER: u32 = 31;

/// The highest number that an integer operand spells.
pub const MAX_INTEGER: u32 = 32767;

/// `name:`
pub open spec fn label_shape() -> Shape {
    Shape { open: None, class: CharClass::LetterOrDigit, least: 0, close: Some(':') }
}

/// `@name`
pub open spec fn usage_shape() -> Shape {
    Shape { open: Some('@'), class: CharClass::LetterOrDigit, least: 0, close: None }
}

/// `.name`
pub open spec fn directive_shape() -> Shape {
    Shape { open: Some('.'), class: CharClass::LetterOrDigit, least: 0, close: None }
}

/// A mnemonic: letters.
pub open spec fn mnemonic_shape() -> Shape {
    Shape { open: None, class: CharClass::Letter, least: 1, close: None }
}

/// `$digits`
pub open spec fn register_shape() -> Shape {
    Shape { open: Some('$'), class: CharClass::Digit, least: 1, close: None }
}

/// `#digits`
pub open spec fn integer_shape() -> Shape {
    Shape { open: Some('#'), class: CharClass::Digit, least: 1, close: None }
}

/// `'text'`
pub open spec fn string_shape() -> Shape {
    Shape { open: Some('\''), class: CharClass::LetterOrDigit, least: 1, close: Some('\'') }
}

/// The declaration of a label: letters and digits, then a colon.
pub open spec fn label_declaration(s: Seq<char>) -> Option<(TokenView, Seq<char>)> {
    match word(s, label_shape()) {
        Some(w) => Some((TokenView::LabelDeclaration { name: w.text }, w.rest)),
        None => None,
    }
}

/// The use of a label: an at sign, then letters and digits.
pub open spec fn label_usage(s: Seq<char>) -> Option<(TokenView, Seq<char>)> {
    match word(s, usage_shape()) {
        Some(w) => Some((TokenView::LabelUsage { name: w.text }, w.rest)),
        None => None,
    }
}

/// The name of a directive: a full stop, then letters and digits.
pub open spec fn directive_declaration(s: Seq<char>) -> Option<(TokenView, Seq<char>)> {
    match word(s, directive_shape()) {
        Some(w) => Some((TokenView::Directive { name: w.text }, w.rest)),
        None => None,
    }
}

/// A mnemonic: letters, small or capital. Letters that name no operation
/// stand for `IGL`.
pub open spec fn opcode(s: Seq<char>) -> Option<(TokenView, Seq<char>)> {
    match word(s, mnemonic_shape()) {
        Some(w) => Some((TokenView::Op { code: Opcode::named(lowercase(w.text)) }, w.rest)),
        None => None,
    }
}

/// A register: a dollar sign, then the digits of a number up to
/// `MAX_REGISTER`.
pub open spec fn register(s: Seq<char>) -> Option<(TokenView, Seq<char>)> {
    match word(s, register_shape()) {
        Some(w) => if decimal(w.text) <= MAX_REGISTER {
            Some((TokenView::Register { reg_num: decimal(w.text) as u8 }, w.rest))
        } else {
            None
        },
        None => None,
    }
}

/// An integer: a number sign, then the digits of a number up to
/// `MAX_INTEGER`.
pub open spec fn integer_operand(s: Seq<char>) -> Option<(TokenView, Seq<char>)> {
    match word(s, integer_shape()) {
        Some(w) => if decimal(w.text) <= MAX_INTEGER {
            Some((TokenView::IntegerOperand { value: decimal(w.text) as i32 }, w.rest))
        } else {
            None
        },
        None => None,
    }
}

/// A string: letters and digits, at least one, between single quotes.
pub open spec fn irstring(s: Seq<char>) -> Option<(TokenView, Seq<char>)> {
    match word(s, string_shape()) {
        Some(w) => Some((TokenView::IrString { name: w.text }, w.rest)),
        None => None,
    }
}

/// An operand: an integer, a register, the use of a label, or a string.
pub open spec fn operand(s: Seq<char>) -> Option<(TokenView, Seq<char>)> {
    if integer_operand(s) is Some {
        integer_operand(s)
    } else if register(s) is Some {
        register(s)
    } else if label_usage(s) is Some {
        label_usage(s)
    } else {
        irstring(s)
    }
}

/// What `found` found, and the text behind it; nothing, and all of `s`,
/// where it found nothing.
pub open spec fn optional(found: Option<(TokenView, Seq<char>)>, s: Seq<char>) -> (
    Option<TokenView>,
    Seq<char>,
) {
    match found {
        Some((token, rest)) => (Some(token), rest),
        None => (None, s),
    }
}

/// The record that begins with `label` and `head`, with the operands, up
/// to three, that stand at the beginning of `s`.
pub open spec fn with_operands(label: Option<TokenView>, head: TokenView, s: Seq<char>) -> (
    InstructionView,
    Seq<char>,
) {
    let (operand1, s1) = optional(operand(s), s);
    let (operand2, s2) = optional(operand(s1), s1);
    let (operand3, s3) = optional(operand(s2), s2);
    (
        InstructionView {
            label,
            directive: if head is Directive {
                Some(head)
            } else {
                None
            },
            opcode: if head is Directive {
                None
            } else {
                Some(head)
            },
            operand1,
            operand2,
            operand3,
        },
        s3,
    )
}

/// An instruction: a label or none, a mnemonic, and up to three operands.
pub open spec fn instruction(s: Seq<char>) -> Option<(InstructionView, Seq<char>)> {
    let (label, s1) = optional(label_declaration(s), s);
    match opcode(s1) {
        Some((head, s2)) => Some(with_operands(label, head, s2)),
        None => None,
    }
}

/// A directive: a label or none, the name of the directive, and up to three
/// operands.
pub open spec fn directive(s: Seq<char>) -> Option<(InstructionView, Seq<char>)> {
    let (label, s1) = optional(label_declaration(s), s);
    match directive_declaration(s1) {
        Some((head, s2)) => Some(with_operands(label, head, s2)),
        None => None,
    }
}

/// A record: an instruction or a directive.
pub open spec fn record(s: Seq<char>) -> Option<(InstructionView, Seq<char>)> {
    if instruction(s) is Some {
        instruction(s)
    } else {
        directive(s)
    }
}

/// The records at the beginning of `s`, as many as there are, and the text
/// behind them.
pub open spec fn records(s: Seq<char>) -> (Seq<InstructionView>, Seq<char>)
    decreases s.len(),
{
    match record(s) {
        Some((first, rest)) => if rest.len() < s.len() {
            let (others, end) = records(rest);
            (seq![first] + others, end)
        } else {
            (Seq::empty(), s)
        },
        None => (Seq::empty(), s),
    }
}

/// The records of the program `s`: at least one, and no text behind them.
/// Otherwise the text from the first line on that is no record.
pub open spec fn program(s: Seq<char>) -> Result<Seq<InstructionView>, Seq<char>> {
    let (found, rest) = records(s);
    if found.len() > 0 && rest.len() == 0 {
        Ok(found)
    } else {
        Err(rest)
    }
}

/// What is left behind a word is a part of the text, and a shorter one
/// where the word has a mark or a character.
pub proof fn lemma_word_consumes(s: Seq<char>, shape: Shape)
    ensures
        word(s, shape) matches Some(w) ==> w.rest.len() <= s.len() && (shape.open is Some
            || shape.close is Some || shape.least > 0 ==> w.rest.len() < s.len()),
{
    let start = span(s, CharClass::Space, 0);
    lemma_span(s, CharClass::Space, 0);
    if word(s, shape) is Some {
        let from = if shape.open is Some {
            start + 1
        } else {
            start
        };
        lemma_span(s, shape.class, from);
        let to = span(s, shape.class, from);
        let end = if shape.close is Some {
            to + 1
        } else {
            to
        };
        lemma_span(s, CharClass::Space, end);
    }
}

/// What is left behind an operand is shorter than the text.
pub proof fn lemma_operand_consumes(s: Seq<char>)
    ensures
        operand(s) matches Some((_, rest)) ==> rest.len() < s.len(),
        optional(operand(s), s).1.len() <= s.len(),
{
    lemma_word_consumes(s, integer_shape());
    lemma_word_consumes(s, register_shape());
    lemma_word_consumes(s, usage_shape());
    lemma_word_consumes(s, string_shape());
}

/// What is left behind a record is shorter than the text.
pub proof fn lemma_record_consumes(s: Seq<char>)
    ensures
        instruction(s) matches Some((_, rest)) ==> rest.len() < s.len(),
        directive(s) matches Some((_, rest)) ==> rest.len() < s.len(),
        record(s) matches Some((_, rest)) ==> rest.len() < s.len(),
{
    lemma_word_consumes(s, label_shape());
    let s1 = optional(label_declaration(s), s).1;
    lemma_word_consumes(s1, mnemonic_shape());
    lemma_word_consumes(s1, directive_shape());
    if opcode(s1) is Some {
        let s2 = opcode(s1).unwrap().1;
        lemma_operand_consumes(s2);
        let s3 = optional(operand(s2), s2).1;
        lemma_operand_consumes(s3);
        let s4 = optional(operand(s3), s3).1;
        lemma_operand_consumes(s4);
    }
    if directive_declaration(s1) is Some {
        let s2 = directive_declaration(s1).unwrap().1;
        lemma_operand_consumes(s2);
        let s3 = optional(operand(s2), s2).1;
        lemma_operand_consumes(s3);
        let s4 = optional(operand(s3), s3).1;
        lemma_operand_consumes(s4);
    }
}

/// Every record that the grammar finds is either a directive or an
/// instruction, with tokens of the right kind in its fields.
pub proof fn lemma_record_well_formed(s: Seq<char>)
    ensures
        record(s) matches Some((found, _)) ==> found.well_formed(),
{
}

} // verus!
