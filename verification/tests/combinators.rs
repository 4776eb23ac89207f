//! The grammar once more, put together from nom's combinators, and held
//! against the parsers of the library on texts that both read alike.

use bumbam::assembler::directive_parsers::{directive_combined, directive_declaration};
use bumbam::assembler::helper_parsers::{ws, SyntaxError};
use bumbam::assembler::instruction_parsers::{instruction_combined, AssemblerInstruction};
use bumbam::assembler::label_parsers::{label_declaration, label_usage};
use bumbam::assembler::opcode_parsers::opcode;
use bumbam::assembler::operand_parsers::{integer_operand, irstring, operand};
use bumbam::assembler::program_parsers::{program, record};
use bumbam::assembler::register_parsers::register;
use bumbam::assembler::Token;
use bumbam::instruction::Opcode;

use nom::branch::alt;
use nom::bytes::complete::tag;
use nom::character::complete::{alpha1, alphanumeric0, alphanumeric1, digit1, multispace0};
use nom::combinator;
use nom::combinator::{opt, verify};
use nom::multi::many1;
use nom::sequence::{delimited, preceded, terminated, tuple};
use nom::IResult;

fn nom_register(input: &str) -> IResult<&str, Token> {
    let (leftover, digits) =
        delimited(multispace0, preceded(tag("$"), digit1), multispace0)(input)?;
    Ok((
        leftover,
        Token::Register {
            reg_num: digits.parse::<u8>().unwrap(),
        },
    ))
}

fn nom_integer_operand(input: &str) -> IResult<&str, Token> {
    let (leftover, digits) =
        delimited(multispace0, preceded(tag("#"), digit1), multispace0)(input)?;
    Ok((
        leftover,
        Token::IntegerOperand {
            value: digits.parse::<i32>().unwrap(),
        },
    ))
}

fn nom_irstring(input: &str) -> IResult<&str, Token> {
    let (leftover, content) = delimited(tag("'"), alphanumeric1, tag("'"))(input)?;
    Ok((
        leftover,
        Token::IrString {
            name: content.to_string(),
        },
    ))
}

fn nom_operand(input: &str) -> IResult<&str, Token> {
    alt((nom_integer_operand, nom_register, nom_irstring))(input)
}

fn nom_opcode(input: &str) -> IResult<&str, Token> {
    let (leftover, word) = delimited(multispace0, alpha1, multispace0)(input)?;
    Ok((
        leftover,
        Token::Op {
            code: Opcode::from(word.to_lowercase().as_str()),
        },
    ))
}

fn nom_label_declaration(input: &str) -> IResult<&str, Token> {
    let (leftover, name) = terminated(terminated(alphanumeric0, tag(":")), multispace0)(input)?;
    Ok((
        leftover,
        Token::LabelDeclaration {
            name: name.to_string(),
        },
    ))
}

fn nom_label_usage(input: &str) -> IResult<&str, Token> {
    let (leftover, name) = terminated(preceded(tag("@"), alphanumeric0), multispace0)(input)?;
    Ok((
        leftover,
        Token::LabelUsage {
            name: name.to_string(),
        },
    ))
}

fn nom_directive_declaration(input: &str) -> IResult<&str, Token> {
    let (leftover, name) = terminated(preceded(tag("."), alphanumeric0), multispace0)(input)?;
    Ok((
        leftover,
        Token::Directive {
            name: name.to_string(),
        },
    ))
}

fn nom_instruction(input: &str) -> IResult<&str, AssemblerInstruction> {
    let (leftover, (l, op, o1, o2, o3)) = tuple((
        opt(nom_label_declaration),
        nom_opcode,
        opt(nom_operand),
        opt(nom_operand),
        opt(nom_operand),
    ))(input)?;
    Ok((
        leftover,
        AssemblerInstruction {
            label: l,
            directive: None,
            opcode: Some(op),
            operand1: o1,
            operand2: o2,
            operand3: o3,
        },
    ))
}

fn nom_directive(input: &str) -> IResult<&str, AssemblerInstruction> {
    let (leftover, (l, dir, o1, o2, o3)) = tuple((
        opt(nom_label_declaration),
        nom_directive_declaration,
        opt(nom_operand),
        opt(nom_operand),
        opt(nom_operand),
    ))(input)?;
    Ok((
        leftover,
        AssemblerInstruction {
            label: l,
            directive: Some(dir),
            opcode: None,
            operand1: o1,
            operand2: o2,
            operand3: o3,
        },
    ))
}

fn nom_program(input: &str) -> IResult<&str, Vec<AssemblerInstruction>> {
    many1(nom_instruction)(input)
}

/// What a parser of nom found, with the space before the rest taken off.
fn read<T>(result: IResult<&str, T>) -> Option<(&str, T)> {
    result
        .ok()
        .map(|(rest, found)| (rest.trim_start_matches([' ', '\t', '\r', '\n']), found))
}

/// Letters, at least one, with no space around them.
fn letters(text: &str) -> Result<(&str, &str), SyntaxError> {
    let end = text
        .find(|c: char| !c.is_ascii_alphabetic())
        .unwrap_or(text.len());
    if end == 0 {
        Err(SyntaxError { remainder: text })
    } else {
        Ok((&text[end..], &text[..end]))
    }
}

#[test]
fn parsers_between_spaces_are_read_alike() {
    let mut all = vec![
        "abc".to_string(),
        " abc ".to_string(),
        "\t\nabc\r\n def".to_string(),
        "".to_string(),
        "  ".to_string(),
        " 1".to_string(),
    ];
    all.extend(texts(&ALPHABET, 8, 20000));
    for text in all {
        let expected: IResult<&str, &str> = delimited(multispace0, alpha1, multispace0)(&text);
        assert_eq!(ws(letters, &text).ok(), expected.ok(), "{:?}", text);
    }
}

#[test]
fn registers_are_read_alike() {
    for text in [
        "$0", "$31", "$007", " $1", "\t\n$12  $13", "$1a", "$", "0", "$a", "", "$ 1", "#1", "$1$2",
        " ",
    ] {
        assert_eq!(register(text).ok(), read(nom_register(text)), "{:?}", text);
    }
}

#[test]
fn integers_are_read_alike() {
    for text in [
        "#0", "#10", "#32767", " #5\n", "#12ab", "#", "10", "#-1", "# 1", "", "$1", "#1#2",
    ] {
        assert_eq!(
            integer_operand(text).ok(),
            read(nom_integer_operand(text)),
            "{:?}",
            text
        );
    }
}

#[test]
fn strings_are_read_alike() {
    for text in [
        "'Ciaone'", "'a1' 'b2'", "''", "'a b'", "'abc", "abc'", "'a'b", "", "'\u{e9}'",
    ] {
        assert_eq!(irstring(text).ok(), read(nom_irstring(text)), "{:?}", text);
    }
}

#[test]
fn mnemonics_are_read_alike() {
    for text in [
        "load", "LOAD", " hlt ", "aold", "jmpe @test", "add$1", "a", "", "1a", "$1", "\u{e9}", "ad\u{e9}",
        "inc\n\ndec",
    ] {
        assert_eq!(opcode(text).ok(), read(nom_opcode(text)), "{:?}", text);
    }
}

#[test]
fn labels_are_read_alike() {
    for text in [
        "test:", "test: hlt", "t1:\n", ":", "test", "test :", "", "a:b:", "\u{e9}:", "a\u{e9}:",
    ] {
        assert_eq!(
            label_declaration(text).ok(),
            read(nom_label_declaration(text)),
            "{:?}",
            text
        );
    }
    for text in ["@test", "@test \n$1", "@", "@1a", "test", "", "@@", "@a\u{e9}"] {
        assert_eq!(label_usage(text).ok(), read(nom_label_usage(text)), "{:?}", text);
    }
}

#[test]
fn directive_names_are_read_alike() {
    for text in [".data", ".asciiz 'Something'", ".", ".1", "data", "", "..", ". x"] {
        assert_eq!(
            directive_declaration(text).ok(),
            read(nom_directive_declaration(text)),
            "{:?}",
            text
        );
    }
}

#[test]
fn operands_are_read_alike() {
    for text in ["#1 $2", "$2 #1", "'x'", "x", "", " $3", " #4"] {
        assert_eq!(operand(text).ok(), read(nom_operand(text)), "{:?}", text);
    }
}

#[test]
fn instructions_are_read_alike() {
    for text in [
        "label: HLT",
        "HLT\n",
        "label: ALOC $0",
        "ALOC $0\n",
        "label: load $0 #100\n",
        "load $0 #100\n",
        "label: add $0 $1 $2\n",
        "add $0 $1 $2\n",
        "add $0 $1 $2 $3",
        "  inc $0",
        "1: jmp $1",
        "label:",
        "$1",
        "",
        "load #1 'x' $2 rest",
    ] {
        assert_eq!(
            instruction_combined(text).ok(),
            read(nom_instruction(text)),
            "{:?}",
            text
        );
    }
}

#[test]
fn directives_are_read_alike() {
    for text in [
        "label: .asciiz 'Something'",
        ".data\n",
        ".word #1 #2 #3 #4",
        "label: .",
        "hlt",
        "label:",
        "",
    ] {
        assert_eq!(
            directive_combined(text).ok(),
            read(nom_directive(text)),
            "{:?}",
            text
        );
    }
}

#[test]
fn programs_of_instructions_are_read_alike() {
    for text in [
        "load $0 #100\nload $1 #200",
        "load $0 #100\nload $1 #200\nadd $0 $1 $2\nhlt",
        "load $0 #100\nload $1 #1\nload $2 #0\ntest: inc $0\nneq $0 $2\njmp $0\nhlt",
        "hlt",
        "a: hlt\n\n\nb: hlt\n",
    ] {
        let (rest, instructions) = nom_program(text).unwrap();
        assert_eq!(rest, "");
        let (left, found) = program(text).unwrap();
        assert_eq!(left, "");
        assert_eq!(found.instructions, instructions, "{:?}", text);
    }
}

/// A word between spaces.
fn spaced<'a, O>(
    inner: impl FnMut(&'a str) -> IResult<&'a str, O>,
) -> impl FnMut(&'a str) -> IResult<&'a str, O> {
    delimited(multispace0, inner, multispace0)
}

/// Digits that spell a number up to `limit`.
fn number_up_to<'a>(limit: u64) -> impl FnMut(&'a str) -> IResult<&'a str, u64> {
    combinator::map(
        verify(digit1, move |digits: &str| {
            digits.len() <= 18 && digits.parse::<u64>().unwrap() <= limit
        }),
        |digits: &str| digits.parse::<u64>().unwrap(),
    )
}

fn full_operand(input: &str) -> IResult<&str, Token> {
    alt((
        combinator::map(spaced(preceded(tag("#"), number_up_to(32767))), |n| {
            Token::IntegerOperand { value: n as i32 }
        }),
        combinator::map(spaced(preceded(tag("$"), number_up_to(31))), |n| {
            Token::Register { reg_num: n as u8 }
        }),
        combinator::map(spaced(preceded(tag("@"), alphanumeric0)), |name: &str| {
            Token::LabelUsage {
                name: name.to_string(),
            }
        }),
        combinator::map(
            spaced(delimited(tag("'"), alphanumeric1, tag("'"))),
            |name: &str| Token::IrString {
                name: name.to_string(),
            },
        ),
    ))(input)
}

fn full_label(input: &str) -> IResult<&str, Token> {
    combinator::map(spaced(terminated(alphanumeric0, tag(":"))), |name: &str| {
        Token::LabelDeclaration {
            name: name.to_string(),
        }
    })(input)
}

fn full_record(input: &str) -> IResult<&str, AssemblerInstruction> {
    let head = alt((
        combinator::map(spaced(alpha1), |word: &str| Token::Op {
            code: Opcode::from(word),
        }),
        combinator::map(spaced(preceded(tag("."), alphanumeric0)), |name: &str| {
            Token::Directive {
                name: name.to_string(),
            }
        }),
    ));
    let (leftover, (l, head, o1, o2, o3)) = tuple((
        opt(full_label),
        head,
        opt(full_operand),
        opt(full_operand),
        opt(full_operand),
    ))(input)?;
    let is_directive = matches!(head, Token::Directive { .. });
    Ok((
        leftover,
        AssemblerInstruction {
            label: l,
            directive: if is_directive { Some(head.clone()) } else { None },
            opcode: if is_directive { None } else { Some(head) },
            operand1: o1,
            operand2: o2,
            operand3: o3,
        },
    ))
}

/// Texts of up to `longest` characters, drawn evenly from `alphabet` by a
/// generator that gives the same texts every time.
fn texts(alphabet: &[char], longest: usize, count: usize) -> Vec<String> {
    let mut state: u64 = 0x2545_f491_4f6c_dd1d;
    let mut next = move |bound: usize| {
        state ^= state << 13;
        state ^= state >> 7;
        state ^= state << 17;
        (state % bound as u64) as usize
    };
    let mut found = Vec::new();
    for _ in 0..count {
        let length = next(longest + 1);
        let mut text = String::new();
        for _ in 0..length {
            text.push(alphabet[next(alphabet.len())]);
        }
        found.push(text);
    }
    found
}

const ALPHABET: [char; 20] = [
    'a', 'd', 'L', 'h', 't', '0', '1', '3', '9', ':', '$', '#', '@', '\'', '.', ' ', ' ', '\n',
    '\t', '\u{e9}',
];

#[test]
fn random_operands_are_read_alike() {
    for text in texts(&ALPHABET, 8, 40000) {
        assert_eq!(
            operand(&text).ok(),
            full_operand(&text).ok(),
            "{:?}",
            text
        );
    }
}

#[test]
fn random_records_are_read_alike() {
    for text in texts(&ALPHABET, 14, 40000) {
        assert_eq!(record(&text).ok(), full_record(&text).ok(), "{:?}", text);
    }
}

#[test]
fn random_programs_are_read_alike() {
    for text in texts(&ALPHABET, 24, 40000) {
        let expected = match many1(full_record)(text.as_str()) {
            Ok(("", records)) => Ok(records),
            Ok((rest, _)) => Err(rest),
            Err(_) => Err(text.as_str()),
        };
        let found = match program(&text) {
            Ok((left, found)) => {
                assert_eq!(left, "");
                Ok(found.instructions)
            }
            Err(e) => Err(e.remainder),
        };
        assert_eq!(found, expected, "{:?}", text);
    }
}
