//! Mnemonics.

use vstd::prelude::*;
use crate::assembler::grammar;
use crate::assembler::grammar::Shape;
use crate::assembler::helper_parsers::{read_word, token_result, unread, SyntaxError};
use crate::assembler::Token;
use crate::instruction::Opcode;
use crate::text::CharClass;

verus! {

/// Reads a mnemonic at the beginning of `input`. Letters that name no
/// operation are read as `IGL`.
pub fn opcode(input: &str) -> (result: Result<(&str, Token), SyntaxError>)
    ensures
        token_result(result, grammar::opcode(input@), input@),
{
    let shape = Shape { open: None, class: CharClass::Letter, least: 1, close: None };
    match read_word(input, &shape) {
        Some((word, leftover)) => Ok((leftover, Token::Op { code: Opcode::from(word) })),
        None => Err(unread(input)),
    }
}

} // verus!
