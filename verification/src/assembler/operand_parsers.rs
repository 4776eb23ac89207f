//! Operands: integers, registers, uses of labels and strings.

use vstd::prelude::*;
use crate::assembler::grammar;
use crate::assembler::grammar::{Shape, MAX_INTEGER};
use crate::assembler::helper_parsers::{
    decimal_value, read_word, token_result, unread, SyntaxError,
};
use crate::assembler::label_parsers::label_usage;
use crate::assembler::register_parsers::register;
use crate::assembler::Token;
use crate::text::{lemma_span, CharClass};

verus! {

/// Reads an integer, `#number`, at the beginning of `input`.
pub fn integer_operand(input: &str) -> (result: Result<(&str, Token), SyntaxError>)
    ensures
        token_result(result, grammar::integer_operand(input@), input@),
{
    let shape = Shape { open: Some('#'), class: CharClass::Digit, least: 1, close: None };
    match read_word(input, &shape) {
        Some((digits, leftover)) => {
            proof {
                let start = crate::text::span(input@, CharClass::Space, 0);
                lemma_span(input@, CharClass::Space, 0);
                lemma_span(input@, CharClass::Digit, start + 1);
            }
            match decimal_value(digits, MAX_INTEGER) {
                Some(number) => Ok((leftover, Token::IntegerOperand { value: number as i32 })),
                None => Err(unread(input)),
            }
        },
        None => Err(unread(input)),
    }
}

/// Reads a string, `'text'`, at the beginning of `input`.
pub fn irstring(input: &str) -> (result: Result<(&str, Token), SyntaxError>)
    ensures
        token_result(result, grammar::irstring(input@), input@),
{
    let shape = Shape {
        open: Some('\''),
        class: CharClass::LetterOrDigit,
        least: 1,
        close: Some('\''),
    };
    match read_word(input, &shape) {
        Some((content, leftover)) => Ok((leftover, Token::IrString { name: content.to_owned() })),
        None => Err(unread(input)),
    }
}

/// Reads an operand at the beginning of `input`.
pub fn operand(input: &str) -> (result: Result<(&str, Token), SyntaxError>)
    ensures
        token_result(result, grammar::operand(input@), input@),
{
    match integer_operand(input) {
        Ok(found) => Ok(found),
        Err(_) => match register(input) {
            Ok(found) => Ok(found),
            Err(_) => match label_usage(input) {
                Ok(found) => Ok(found),
                Err(_) => irstring(input),
            },
        },
    }
}

} // verus!
