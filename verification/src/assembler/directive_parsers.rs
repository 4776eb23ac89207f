//! Directives.

use vstd::prelude::*;
use crate::assembler::grammar;
use crate::assembler::grammar::Shape;
use crate::assembler::helper_parsers::{
    optional, read_word, record_result, token_result, unread, with_operands, SyntaxError,
};
use crate::assembler::instruction_parsers::AssemblerInstruction;
use crate::assembler::label_parsers::label_declaration;
use crate::assembler::Token;
use crate::text::CharClass;

verus! {

/// Reads the name of a directive, `.name`, at the beginning of `input`.
pub fn directive_declaration(input: &str) -> (result: Result<(&str, Token), SyntaxError>)
    ensures
        token_result(result, grammar::directive_declaration(input@), input@),
{
    let shape = Shape { open: Some('.'), class: CharClass::LetterOrDigit, least: 0, close: None };
    match read_word(input, &shape) {
        Some((dir, leftover)) => Ok((leftover, Token::Directive { name: dir.to_owned() })),
        None => Err(unread(input)),
    }
}

/// Reads a directive at the beginning of `input`: a label or none, the
/// name of the directive, and up to three operands.
pub fn directive_combined(input: &str) -> (result: Result<
    (&str, AssemblerInstruction),
    SyntaxError,
>)
    ensures
        record_result(result, grammar::directive(input@), input@),
{
    let (l, input1) = optional(label_declaration(input), input);
    match directive_declaration(input1) {
        Ok((input2, dir)) => Ok(with_operands(l, dir, input2)),
        Err(_) => Err(unread(input)),
    }
}

/// Reads a directive at the beginning of `input`.
pub fn directive(input: &str) -> (result: Result<(&str, AssemblerInstruction), SyntaxError>)
    ensures
        record_result(result, grammar::directive(input@), input@),
{
    directive_combined(input)
}

} // verus!
