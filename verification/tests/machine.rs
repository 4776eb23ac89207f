use bumbam::assembler::{CODE_START, ELF_HEADER_PREFIX};
use bumbam::vm::{Status, REGISTER_COUNT, VM};

fn machine(program: Vec<u8>) -> VM {
    let mut vm = VM::new();
    vm.add_bytes(program);
    vm
}

fn image(code: Vec<u8>) -> Vec<u8> {
    let mut image = ELF_HEADER_PREFIX.to_vec();
    image.resize(CODE_START, 0);
    image.extend(code);
    image
}

#[test]
fn new_machine_is_empty() {
    let vm = VM::new();
    assert_eq!(vm.registers, [0; 32]);
    assert_eq!(vm.registers.len(), REGISTER_COUNT);
    assert_eq!(vm.pc, 0);
    assert_eq!(vm.code_start, 0);
    assert!(vm.program.is_empty());
    assert!(vm.heap.is_empty());
    assert_eq!(vm.remainder, 0);
    assert_eq!(vm.equal_flag, false);
}

#[test]
fn add_byte_and_add_bytes_append() {
    let mut vm = VM::new();
    vm.add_byte(7);
    vm.add_bytes(vec![8, 9]);
    vm.add_byte(10);
    assert_eq!(vm.program, vec![7, 8, 9, 10]);
    assert_eq!(vm.pc, 0);
}

#[test]
fn step_at_end_of_program_does_nothing() {
    let mut vm = VM::new();
    assert_eq!(vm.run_once(), Status::EndOfProgram);
    assert_eq!(vm.pc, 0);
    let mut vm = machine(vec![0, 0, 0, 0]);
    vm.pc = 9;
    assert_eq!(vm.run_once(), Status::EndOfProgram);
    assert_eq!(vm.pc, 9);
}

#[test]
fn hlt_stops_behind_its_byte() {
    let mut vm = machine(vec![0]);
    assert_eq!(vm.run_once(), Status::Halted);
    assert_eq!(vm.pc, 1);
}

#[test]
fn load_zero_extends_sixteen_bits() {
    let mut vm = machine(vec![1, 3, 255, 255]);
    assert_eq!(vm.run_once(), Status::Running);
    assert_eq!(vm.registers[3], 65535);
    assert_eq!(vm.pc, 4);
    let mut vm = machine(vec![1, 31, 0x80, 0x00]);
    assert_eq!(vm.run_once(), Status::Running);
    assert_eq!(vm.registers[31], 32768);
}

#[test]
fn arithmetic_writes_third_register() {
    let mut vm = machine(vec![2, 0, 1, 2, 3, 0, 1, 3, 4, 0, 1, 4, 5, 0, 1, 5]);
    vm.registers[0] = -7;
    vm.registers[1] = 2;
    assert_eq!(vm.run_once(), Status::Running);
    assert_eq!(vm.registers[2], -5);
    assert_eq!(vm.run_once(), Status::Running);
    assert_eq!(vm.registers[3], -9);
    assert_eq!(vm.run_once(), Status::Running);
    assert_eq!(vm.registers[4], -14);
    assert_eq!(vm.run_once(), Status::Running);
    assert_eq!(vm.registers[5], -3);
    assert_eq!(vm.remainder, -1);
    assert_eq!(vm.pc, 16);
}

#[test]
fn div_sets_quotient_and_remainder() {
    let mut vm = machine(vec![5, 0, 1, 2]);
    vm.registers[0] = 24;
    vm.registers[1] = 5;
    assert_eq!(vm.run_once(), Status::Running);
    assert_eq!(vm.registers[2], 4);
    assert_eq!(vm.remainder, 4);
}

#[test]
fn div_rounds_towards_zero() {
    let cases = [(7, -2, -3, 1), (-7, -2, 3, -1), (-7, 2, -3, -1), (0, 5, 0, 0), (6, 3, 2, 0)];
    for (x, y, q, r) in cases {
        let mut vm = machine(vec![5, 0, 1, 2]);
        vm.registers[0] = x;
        vm.registers[1] = y;
        assert_eq!(vm.run_once(), Status::Running);
        assert_eq!(vm.registers[2], q);
        assert_eq!(vm.remainder, r);
    }
}

#[test]
fn division_by_zero_is_a_fault() {
    let mut vm = machine(vec![5, 0, 1, 2]);
    vm.registers[0] = 24;
    vm.registers[2] = 77;
    vm.remainder = 5;
    assert_eq!(vm.run_once(), Status::ArithmeticFault);
    assert_eq!(vm.registers[2], 77);
    assert_eq!(vm.remainder, 5);
    assert_eq!(vm.pc, 1);
}

#[test]
fn overflow_is_a_fault() {
    let programs: [(u8, i32, i32); 4] = [
        (2, i32::MAX, 1),
        (3, i32::MIN, 1),
        (4, 65536, 65536),
        (5, i32::MIN, -1),
    ];
    for (code, x, y) in programs {
        let mut vm = machine(vec![code, 0, 1, 2]);
        vm.registers[0] = x;
        vm.registers[1] = y;
        vm.registers[2] = 9;
        assert_eq!(vm.run_once(), Status::ArithmeticFault);
        assert_eq!(vm.registers[2], 9);
        assert_eq!(vm.pc, 1);
    }
}

#[test]
fn largest_results_are_no_fault() {
    let mut vm = machine(vec![2, 0, 1, 2, 3, 3, 1, 4]);
    vm.registers[0] = i32::MAX - 1;
    vm.registers[1] = 1;
    vm.registers[3] = i32::MIN + 1;
    assert_eq!(vm.run_once(), Status::Running);
    assert_eq!(vm.registers[2], i32::MAX);
    assert_eq!(vm.run_once(), Status::Running);
    assert_eq!(vm.registers[4], i32::MIN);
}

#[test]
fn inc_and_dec_fault_at_the_limits() {
    let mut vm = machine(vec![18, 0, 0, 0]);
    vm.registers[0] = i32::MAX;
    assert_eq!(vm.run_once(), Status::ArithmeticFault);
    assert_eq!(vm.registers[0], i32::MAX);
    assert_eq!(vm.pc, 1);
    let mut vm = machine(vec![19, 0, 0, 0]);
    vm.registers[0] = i32::MIN;
    assert_eq!(vm.run_once(), Status::ArithmeticFault);
    assert_eq!(vm.registers[0], i32::MIN);
    let mut vm = machine(vec![19, 5, 0, 0]);
    assert_eq!(vm.run_once(), Status::Running);
    assert_eq!(vm.registers[5], -1);
    assert_eq!(vm.pc, 4);
}

#[test]
fn jumps_move_the_program_counter() {
    let mut vm = machine(vec![6, 1]);
    vm.registers[1] = 1000;
    assert_eq!(vm.run_once(), Status::Running);
    assert_eq!(vm.pc, 1000);
    assert_eq!(vm.run_once(), Status::EndOfProgram);

    let mut vm = machine(vec![0, 0, 7, 1]);
    vm.pc = 2;
    vm.registers[1] = -4;
    assert_eq!(vm.run_once(), Status::Running);
    assert_eq!(vm.pc, 0);

    let mut vm = machine(vec![0, 0, 8, 1]);
    vm.pc = 2;
    vm.registers[1] = -6;
    assert_eq!(vm.run_once(), Status::Running);
    assert_eq!(vm.pc, 10);
}

#[test]
fn jumps_out_of_range_are_faults() {
    let mut vm = machine(vec![6, 0]);
    vm.registers[0] = -1;
    assert_eq!(vm.run_once(), Status::ArithmeticFault);
    assert_eq!(vm.pc, 1);

    let mut vm = machine(vec![8, 0]);
    vm.registers[0] = 3;
    assert_eq!(vm.run_once(), Status::ArithmeticFault);
    assert_eq!(vm.pc, 1);

    let mut vm = machine(vec![7, 0]);
    vm.registers[0] = -3;
    assert_eq!(vm.run_once(), Status::ArithmeticFault);
    assert_eq!(vm.pc, 1);

    let mut vm = machine(vec![15, 0]);
    vm.equal_flag = true;
    vm.registers[0] = i32::MIN;
    assert_eq!(vm.run_once(), Status::ArithmeticFault);
    assert_eq!(vm.pc, 1);
}

#[test]
fn conditional_jumps_follow_the_flag() {
    let mut vm = machine(vec![15, 0, 0, 0]);
    vm.registers[0] = 7;
    vm.equal_flag = false;
    assert_eq!(vm.run_once(), Status::Running);
    assert_eq!(vm.pc, 2);

    let mut vm = machine(vec![16, 0, 0, 0]);
    vm.registers[0] = 7;
    vm.equal_flag = true;
    assert_eq!(vm.run_once(), Status::Running);
    assert_eq!(vm.pc, 2);
}

#[test]
fn comparisons_read_the_padding_byte() {
    let mut vm = machine(vec![9, 0, 1, 99]);
    assert_eq!(vm.run_once(), Status::Running);
    assert_eq!(vm.equal_flag, true);
    assert_eq!(vm.pc, 4);
}

#[test]
fn aloc_gives_zero_bytes() {
    let mut vm = machine(vec![17, 0, 0, 0, 17, 1, 0, 0]);
    vm.registers[0] = 1024;
    vm.heap = vec![1, 2, 3];
    assert_eq!(vm.run_once(), Status::Running);
    assert_eq!(vm.heap, vec![0u8; 1024]);
    assert_eq!(vm.pc, 4);
    assert_eq!(vm.run_once(), Status::Running);
    assert!(vm.heap.is_empty());
}

#[test]
fn aloc_of_a_negative_size_is_a_fault() {
    let mut vm = machine(vec![17, 0, 0, 0]);
    vm.registers[0] = -1;
    vm.heap = vec![1, 2, 3];
    assert_eq!(vm.run_once(), Status::ArithmeticFault);
    assert_eq!(vm.heap, vec![1, 2, 3]);
    assert_eq!(vm.pc, 1);
}

#[test]
fn illegal_opcode_leaves_registers_alone() {
    for code in [20u8, 21, 100, 255] {
        let mut vm = machine(vec![1, 0, 0, 9, code, 1, 2, 3]);
        assert_eq!(vm.run_once(), Status::Running);
        let before = vm.registers;
        assert_eq!(vm.run_once(), Status::IllegalOpcode);
        assert_eq!(vm.registers, before);
        assert_eq!(vm.pc, 5);
        assert_eq!(vm.remainder, 0);
        assert_eq!(vm.equal_flag, false);
        assert!(vm.heap.is_empty());
    }
}

#[test]
fn missing_operand_bytes_are_a_fault() {
    for program in [vec![1u8, 0, 1], vec![2, 0, 1], vec![6], vec![9, 0, 1], vec![17, 0], vec![18]] {
        let mut vm = machine(program);
        vm.registers[0] = 3;
        assert_eq!(vm.run_once(), Status::TruncatedInstruction);
        assert_eq!(vm.pc, 1);
        assert_eq!(vm.registers[0], 3);
        assert!(vm.heap.is_empty());
    }
}

#[test]
fn unknown_registers_are_a_fault() {
    let programs = [
        vec![1u8, 32, 0, 1],
        vec![2, 0, 0, 32],
        vec![2, 0, 200, 0],
        vec![6, 32],
        vec![9, 32, 0, 0],
        vec![9, 0, 32, 0],
        vec![15, 255],
        vec![17, 32, 0, 0],
        vec![18, 32, 0, 0],
    ];
    for program in programs {
        let mut vm = machine(program);
        assert_eq!(vm.run_once(), Status::InvalidRegister);
        assert_eq!(vm.pc, 1);
        assert_eq!(vm.registers, [0; 32]);
    }
}

#[test]
fn unknown_register_counts_before_arithmetic() {
    let mut vm = machine(vec![5, 0, 1, 32]);
    vm.registers[0] = 1;
    assert_eq!(vm.run_once(), Status::InvalidRegister);
}

#[test]
fn run_refuses_a_corrupted_header() {
    let mut bytes = image(vec![1, 0, 1, 244, 0]);
    bytes[0] = 126;
    let mut vm = machine(bytes.clone());
    assert_eq!(vm.run(), Status::InvalidHeader);
    assert_eq!(vm.pc, 0);
    assert_eq!(vm.code_start, 0);
    assert_eq!(vm.registers, [0; 32]);
    assert_eq!(vm.program, bytes);
}

#[test]
fn run_refuses_a_short_image() {
    let mut vm = machine(ELF_HEADER_PREFIX[..18].to_vec());
    assert_eq!(vm.run(), Status::InvalidHeader);
    assert_eq!(vm.pc, 0);
    let mut vm = VM::new();
    assert_eq!(vm.run(), Status::InvalidHeader);
}

#[test]
fn run_starts_behind_the_header() {
    let mut vm = machine(image(vec![1, 0, 1, 244, 0, 0, 0, 0]));
    assert_eq!(vm.run(), Status::Halted);
    assert_eq!(vm.registers[0], 500);
    assert_eq!(vm.pc, CODE_START + 5);
    assert_eq!(vm.code_start, CODE_START);
}

#[test]
fn run_ends_at_the_end_of_the_code() {
    let mut vm = machine(image(vec![18, 4, 0, 0]));
    assert_eq!(vm.run(), Status::EndOfProgram);
    assert_eq!(vm.registers[4], 1);
    assert_eq!(vm.pc, CODE_START + 4);
    let mut vm = machine(ELF_HEADER_PREFIX.to_vec());
    assert_eq!(vm.run(), Status::EndOfProgram);
    assert_eq!(vm.pc, CODE_START);
}

#[test]
fn run_bounded_stops_at_the_limit() {
    // load $1 #4; inc $0; jmp $1 (back to the inc)
    let code = vec![1, 1, 0, 4, 18, 0, 0, 0, 6, 1];
    let mut vm = machine(image(code.clone()));
    assert_eq!(vm.run_bounded(0), Status::Running);
    assert_eq!(vm.pc, CODE_START);
    assert_eq!(vm.registers[0], 0);
    let mut vm = machine(image(code.clone()));
    assert_eq!(vm.run_bounded(1), Status::Running);
    assert_eq!(vm.pc, CODE_START + 4);
    let mut vm = machine(image(code));
    assert_eq!(vm.run_bounded(21), Status::Running);
    assert_eq!(vm.registers[0], 10);
    assert_eq!(vm.pc, CODE_START + 4);
}

#[test]
fn run_reports_the_fault_that_ends_it() {
    let mut vm = machine(image(vec![18, 0, 0, 0, 200, 0, 0, 0]));
    assert_eq!(vm.run(), Status::IllegalOpcode);
    assert_eq!(vm.registers[0], 1);
    assert_eq!(vm.pc, CODE_START + 5);
}

#[test]
fn jumps_in_an_image_count_from_the_code() {
    // jmp $1 with the offset 8 in the register; hlt; inc $0; hlt
    let code = vec![6, 1, 0, 0, 0, 0, 0, 0, 18, 0, 0, 0, 0];
    let mut vm = machine(image(code.clone()));
    vm.registers[1] = 8;
    assert_eq!(vm.run_bounded(1), Status::Running);
    assert_eq!(vm.pc, CODE_START + 8);
    let mut vm = machine(image(code));
    vm.registers[1] = 8;
    assert_eq!(vm.run(), Status::Halted);
    assert_eq!(vm.registers[0], 1);
    assert_eq!(vm.pc, CODE_START + 13);
}

#[test]
fn conditional_jumps_in_an_image_count_from_the_code() {
    for (code, flag) in [(15u8, true), (16u8, false)] {
        let mut vm = machine(image(vec![code, 2, 0, 0, 0, 0, 18, 0, 0, 0]));
        vm.registers[2] = 6;
        vm.equal_flag = flag;
        assert_eq!(vm.run(), Status::EndOfProgram);
        assert_eq!(vm.registers[0], 1);
        assert_eq!(vm.pc, CODE_START + 10);
    }
}

#[test]
fn relative_jumps_in_an_image_move_from_the_instruction() {
    // inc $0; jmpb $1 with 6 in the register goes back to the inc
    let mut vm = machine(image(vec![18, 0, 0, 0, 8, 1]));
    vm.registers[1] = 6;
    assert_eq!(vm.run_bounded(2), Status::Running);
    assert_eq!(vm.pc, CODE_START);
    // jmpf $1 with 2 in the register passes over two bytes
    let mut vm = machine(image(vec![7, 1, 0, 0, 18, 0, 0, 0]));
    vm.registers[1] = 2;
    assert_eq!(vm.run(), Status::EndOfProgram);
    assert_eq!(vm.registers[0], 1);
}

#[test]
fn jumps_before_the_code_are_faults() {
    let mut vm = machine(image(vec![8, 1]));
    vm.registers[1] = 3;
    assert_eq!(vm.run(), Status::ArithmeticFault);
    assert_eq!(vm.pc, CODE_START + 1);

    let mut vm = machine(image(vec![6, 1]));
    vm.registers[1] = -1;
    assert_eq!(vm.run(), Status::ArithmeticFault);
    assert_eq!(vm.pc, CODE_START + 1);

    let mut vm = machine(image(vec![8, 1]));
    vm.registers[1] = 2;
    assert_eq!(vm.run_bounded(1), Status::Running);
    assert_eq!(vm.pc, CODE_START);

    let mut vm = machine(vec![0, 0, 0, 0, 8, 1]);
    vm.code_start = 4;
    vm.pc = 4;
    vm.registers[1] = 3;
    assert_eq!(vm.run_once(), Status::ArithmeticFault);
    assert_eq!(vm.pc, 5);
}

#[test]
fn jump_to_the_largest_place_is_no_fault() {
    let mut vm = machine(vec![6, 1]);
    vm.registers[1] = i32::MAX;
    assert_eq!(vm.run_once(), Status::Running);
    assert_eq!(vm.pc, i32::MAX as usize);
    let mut vm = machine(image(vec![6, 1]));
    vm.registers[1] = i32::MAX;
    assert_eq!(vm.run_bounded(1), Status::Running);
    assert_eq!(vm.pc, CODE_START + i32::MAX as usize);
}
