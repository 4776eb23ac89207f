//! What the parsers share: reading one word of a given form, reading a
//! number, and the error that says what could not be read.

use vstd::prelude::*;
use crate::assembler::grammar;
use crate::assembler::grammar::{decimal, word, Shape};
use crate::assembler::instruction_parsers::{AssemblerInstruction, InstructionView};
use crate::assembler::operand_parsers::operand;
use crate::assembler::{optional_view, Token, TokenView};
use crate::text::{ascii_prefix, part, peek, rest, scan, span, CharClass};

verus! {

/// The text that a parser could not read.
#[derive(Debug, PartialEq, Clone, Copy)]
pub struct SyntaxError<'a> {
    pub remainder: &'a str,
}

/// Whether `result` is what the grammar expects of a parser of tokens on
/// the text `input`.
pub open spec fn token_result(
    result: Result<(&str, Token), SyntaxError>,
    expected: Option<(TokenView, Seq<char>)>,
    input: Seq<char>,
) -> bool {
    match expected {
        Some((token, rest)) => result matches Ok((left, found)) && found@ == token && left@
            == rest,
        None => result matches Err(e) && e.remainder@ == input,
    }
}

/// Whether `result` is what the grammar expects of a parser of records on
/// the text `input`.
pub open spec fn record_result(
    result: Result<(&str, AssemblerInstruction), SyntaxError>,
    expected: Option<(InstructionView, Seq<char>)>,
    input: Seq<char>,
) -> bool {
    match expected {
        Some((record, rest)) => result matches Ok((left, found)) && found@ == record && left@
            == rest,
        None => result matches Err(e) && e.remainder@ == input,
    }
}

/// The error that says that none of `input` could be read.
pub(crate) fn unread(input: &str) -> (error: SyntaxError)
    ensures
        error.remainder@ == input@,
{
    SyntaxError { remainder: input }
}

/// `s` without the space at its beginning.
pub open spec fn trimmed(s: Seq<char>) -> Seq<char> {
    s.subrange(span(s, CharClass::Space, 0), s.len() as int)
}

/// Whether `result` is what `ws` makes of what the parser between the
/// spaces found: the same value with the text behind it and behind the space
/// that follows; or, where the parser found nothing, the error that says
/// that none of `input` could be read.
pub open spec fn spaced<O>(
    result: Result<(&str, O), SyntaxError>,
    found: Result<(&str, O), SyntaxError>,
    input: Seq<char>,
) -> bool {
    match found {
        Ok((left, value)) => result matches Ok((behind, same)) && same == value && behind@
            == trimmed(left@),
        Err(_) => result matches Err(e) && e.remainder@ == input,
    }
}

/// Runs the parser `inner` between spaces: on `i` without the space at its
/// beginning, and takes the space behind what `inner` read.
pub fn ws<'a, O, F>(inner: F, i: &'a str) -> (result: Result<(&'a str, O), SyntaxError<'a>>)
    where
        F: Fn(&'a str) -> Result<(&'a str, O), SyntaxError<'a>>,
    requires
        forall|text: &'a str| text@ == trimmed(i@) ==> call_requires(inner, (text,)),
    ensures
        exists|text: &'a str, found: Result<(&'a str, O), SyntaxError<'a>>|
            text@ == trimmed(i@) && call_ensures(inner, (text,), found) && spaced(
                result,
                found,
                i@,
            ),
{
    let start = scan(i, CharClass::Space, 0);
    let text = rest(i, start);
    match inner(text) {
        Ok((left, value)) => {
            let stop = scan(left, CharClass::Space, 0);
            Ok((rest(left, stop), value))
        },
        Err(_) => Err(unread(i)),
    }
}

/// Whether the character at position `pos` of `input` is the ASCII
/// character `mark`.
fn stands_at(input: &str, pos: usize, mark: char) -> (found: bool)
    requires
        ascii_prefix(input@, pos as int),
        mark <= '\u{7f}',
    ensures
        found == (pos < input@.len() && input@[pos as int] == mark),
        found ==> ascii_prefix(input@, pos + 1) && pos < usize::MAX,
{
    match peek(input, pos) {
        Some(b) => b as char == mark,
        None => false,
    }
}

/// Reads the word of the form `shape` at the beginning of `input`: its
/// characters, and what is left of `input` behind it.
pub(crate) fn read_word<'a>(input: &'a str, shape: &Shape) -> (found: Option<(&'a str, &'a str)>)
    requires
        shape.open matches Some(mark) ==> mark <= '\u{7f}',
        shape.close matches Some(mark) ==> mark <= '\u{7f}',
    ensures
        match word(input@, *shape) {
            Some(w) => found matches Some((text, left)) && text@ == w.text && left@ == w.rest,
            None => found is None,
        },
{
    let start = scan(input, CharClass::Space, 0);
    let mut from = start;
    match shape.open {
        Some(mark) => {
            if !stands_at(input, start, mark) {
                return None;
            }
            from = start + 1;
        },
        None => {},
    }
    let to = scan(input, shape.class, from);
    if to - from < shape.least {
        return None;
    }
    let mut end = to;
    match shape.close {
        Some(mark) => {
            if !stands_at(input, to, mark) {
                return None;
            }
            end = to + 1;
        },
        None => {},
    }
    let text = part(input, from, to);
    let stop = scan(input, CharClass::Space, end);
    let left = rest(input, stop);
    Some((text, left))
}

/// The number of a longer text of digits is no smaller.
pub proof fn lemma_decimal_grows(digits: Seq<char>, n: int)
    requires
        0 <= n <= digits.len(),
        forall|i: int| 0 <= i < digits.len() ==> CharClass::Digit.holds(#[trigger] digits[i]),
    ensures
        decimal(digits.subrange(0, n)) <= decimal(digits),
    decreases digits.len() - n,
{
    if n == digits.len() {
        assert(digits.subrange(0, n) =~= digits);
    } else {
        lemma_decimal_grows(digits, n + 1);
        assert(digits.subrange(0, n + 1).drop_last() =~= digits.subrange(0, n));
    }
}

/// The number that the digits `digits` spell, where it is at most `limit`.
pub(crate) fn decimal_value(digits: &str, limit: u32) -> (value: Option<u32>)
    requires
        forall|i: int| 0 <= i < digits@.len() ==> CharClass::Digit.holds(#[trigger] digits@[i]),
        limit <= 0x0fff_ffff,
    ensures
        value == (if decimal(digits@) <= limit {
            Some(decimal(digits@) as u32)
        } else {
            None
        }),
{
    let mut value: u32 = 0;
    let mut i: usize = 0;
    assert(digits@.subrange(0, 0) =~= Seq::<char>::empty());
    loop
        invariant
            ascii_prefix(digits@, i as int),
            forall|k: int| 0 <= k < digits@.len() ==> CharClass::Digit.holds(#[trigger] digits@[k]),
            value == decimal(digits@.subrange(0, i as int)),
            value <= limit <= 0x0fff_ffff,
        decreases digits@.len() - i,
    {
        match peek(digits, i) {
            Some(b) => {
                proof {
                    assert(digits@.subrange(0, i + 1).drop_last() =~= digits@.subrange(
                        0,
                        i as int,
                    ));
                    assert(digits@.subrange(0, i + 1).last() == digits@[i as int]);
                    assert(CharClass::Digit.holds(digits@[i as int]));
                }
                let digit = (b - 48) as u32;
                value = value * 10 + digit;
                i += 1;
                if value > limit {
                    proof {
                        lemma_decimal_grows(digits@, i as int);
                    }
                    return None;
                }
            },
            None => {
                proof {
                    if i < digits@.len() {
                        assert(CharClass::Digit.holds(digits@[i as int]));
                    }
                    assert(digits@.subrange(0, i as int) =~= digits@);
                }
                return Some(value);
            },
        }
    }
}

/// The token that `result` found and the text behind it; no token, and
/// all of `input`, where it found none.
pub(crate) fn optional<'a>(result: Result<(&'a str, Token), SyntaxError>, input: &'a str) -> (found: (
    Option<Token>,
    &'a str,
))
    ensures
        result matches Ok((left, token)) ==> found.0 == Some(token) && found.1@ == left@,
        result is Err ==> found.0 is None && found.1@ == input@,
{
    match result {
        Ok((left, token)) => (Some(token), left),
        Err(_) => (None, input),
    }
}

/// Reads the operands, up to three, at the beginning of `input`, and makes
/// the record that begins with `label` and `head`.
pub(crate) fn with_operands<'a>(label: Option<Token>, head: Token, input: &'a str) -> (found: (
    &'a str,
    AssemblerInstruction,
))
    ensures
        found.1@ == grammar::with_operands(optional_view(label), head@, input@).0,
        found.0@ == grammar::with_operands(optional_view(label), head@, input@).1,
{
    let (operand1, input1) = optional(operand(input), input);
    let (operand2, input2) = optional(operand(input1), input1);
    let (operand3, input3) = optional(operand(input2), input2);
    let record = match head {
        Token::Directive { name } => AssemblerInstruction {
            label,
            directive: Some(Token::Directive { name }),
            opcode: None,
            operand1,
            operand2,
            operand3,
        },
        head => AssemblerInstruction {
            label,
            directive: None,
            opcode: Some(head),
            operand1,
            operand2,
            operand3,
        },
    };
    (input3, record)
}

} // verus!
