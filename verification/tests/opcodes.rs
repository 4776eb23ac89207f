use bumbam::instruction::Opcode;

const ALL: [(u8, &str, Opcode); 20] = [
    (0, "hlt", Opcode::HLT),
    (1, "load", Opcode::LOAD),
    (2, "add", Opcode::ADD),
    (3, "sub", Opcode::SUB),
    (4, "mul", Opcode::MUL),
    (5, "div", Opcode::DIV),
    (6, "jmp", Opcode::JMP),
    (7, "jmpf", Opcode::JMPF),
    (8, "jmpb", Opcode::JMPB),
    (9, "eq", Opcode::EQ),
    (10, "neq", Opcode::NEQ),
    (11, "gt", Opcode::GT),
    (12, "lt", Opcode::LT),
    (13, "gtq", Opcode::GTQ),
    (14, "ltq", Opcode::LTQ),
    (15, "jeq", Opcode::JEQ),
    (16, "jneq", Opcode::JNEQ),
    (17, "aloc", Opcode::ALOC),
    (18, "inc", Opcode::INC),
    (19, "dec", Opcode::DEC),
];

#[test]
fn every_opcode_has_its_byte() {
    for (byte, _, opcode) in ALL {
        assert_eq!(Opcode::from(byte), opcode);
        assert_eq!(u8::from(opcode), byte);
    }
    assert_eq!(u8::from(Opcode::IGL), 20);
}

#[test]
fn every_other_byte_is_illegal() {
    for byte in 20..=255u8 {
        assert_eq!(Opcode::from(byte), Opcode::IGL);
    }
}

#[test]
fn opcode_survives_its_byte() {
    for (_, _, opcode) in ALL {
        assert_eq!(Opcode::from(u8::from(opcode)), opcode);
    }
    assert_eq!(Opcode::from(u8::from(Opcode::IGL)), Opcode::IGL);
}

#[test]
fn every_opcode_has_its_mnemonic() {
    for (_, word, opcode) in ALL {
        assert_eq!(Opcode::from(word), opcode);
        assert_eq!(Opcode::from(word.to_uppercase().as_str()), opcode);
    }
    assert_eq!(Opcode::from("LoAd"), Opcode::LOAD);
    assert_eq!(Opcode::from("jNeQ"), Opcode::JNEQ);
}

#[test]
fn other_words_are_illegal() {
    for word in [
        "", "jmpe", "igl", "loa", "loadd", " load", "load ", "l0ad", "h\u{212a}t", "lo\u{e4}d",
        "\u{ff4c}oad", "add\0", "`dd", "{ec",
    ] {
        assert_eq!(Opcode::from(word), Opcode::IGL, "{:?}", word);
    }
}
