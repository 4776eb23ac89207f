use bumbam::instruction::{Instruction, Opcode};

#[test]
fn instruction_test_create_hlt() {
    let opcode = Opcode::HLT;
    assert_eq!(opcode, Opcode::HLT);
}

#[test]
fn instruction_test_create_load() {
    let opcode = Opcode::LOAD;
    assert_eq!(opcode, Opcode::LOAD);
}

#[test]
fn instruction_test_create_instruction() {
    let instruction = Instruction::new(Opcode::HLT);
    assert_eq!(instruction.opcode, Opcode::HLT);
}

#[test]
fn test_str_to_opcode() {
    let opcode = Opcode::from("load");
    assert_eq!(opcode, Opcode::LOAD);
    let opcode = Opcode::from("illegal");
    assert_eq!(opcode, Opcode::IGL);
}
