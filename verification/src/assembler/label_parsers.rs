//! Labels: where one is declared and where one is used.

use vstd::prelude::*;
use crate::assembler::grammar;
use crate::assembler::grammar::Shape;
use crate::assembler::helper_parsers::{read_word, token_result, unread, SyntaxError};
use crate::assembler::Token;
use crate::text::CharClass;

verus! {

/// Reads the declaration of a label, `name:`, at the beginning of `input`.
pub fn label_declaration(input: &str) -> (result: Result<(&str, Token), SyntaxError>)
    ensures
        token_result(result, grammar::label_declaration(input@), input@),
{
    let shape = Shape { open: None, class: CharClass::LetterOrDigit, least: 0, close: Some(':') };
    match read_word(input, &shape) {
        Some((name, leftover)) => Ok((leftover, Token::LabelDeclaration { name: name.to_owned() })),
        None => Err(unread(input)),
    }
}

/// Reads the use of a label, `@name`, at the beginning of `input`.
pub fn label_usage(input: &str) -> (result: Result<(&str, Token), SyntaxError>)
    ensures
        token_result(result, grammar::label_usage(input@), input@),
{
    let shape = Shape { open: Some('@'), class: CharClass::LetterOrDigit, least: 0, close: None };
    match read_word(input, &shape) {
        Some((name, leftover)) => Ok((leftover, Token::LabelUsage { name: name.to_owned() })),
        None => Err(unread(input)),
    }
}

} // verus!
