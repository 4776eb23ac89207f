//! Registers.

use vstd::prelude::*;
use crate::assembler::grammar;
use crate::assembler::grammar::{Shape, MAX_REGISTER};
use crate::assembler::helper_parsers::{
    decimal_value, read_word, token_result, unread, SyntaxError,
};
use crate::assembler::Token;
use crate::text::{lemma_span, CharClass};

verus! {

/// Reads a register, `$number`, at the beginning of `input`.
pub fn register(input: &str) -> (result: Result<(&str, Token), SyntaxError>)
    ensures
        token_result(result, grammar::register(input@), input@),
{
    let shape = Shape { open: Some('$'), class: CharClass::Digit, least: 1, close: None };
    match read_word(input, &shape) {
        Some((digits, leftover)) => {
            proof {
                let start = crate::text::span(input@, CharClass::Space, 0);
                lemma_span(input@, CharClass::Space, 0);
                lemma_span(input@, CharClass::Digit, start + 1);
            }
            match decimal_value(digits, MAX_REGISTER) {
                Some(number) => Ok((leftover, Token::Register { reg_num: number as u8 })),
                None => Err(unread(input)),
            }
        },
        None => Err(unread(input)),
    }
}

} // verus!
