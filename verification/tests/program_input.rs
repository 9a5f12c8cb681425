use riscv_mutator::instructions::{Argument, Instruction};
use riscv_mutator::parser::ParseError;
use riscv_mutator::program_input::ProgramInput;
use riscv_mutator::riscv::{imm12, rd, riscv_g, rs1, rs2};

fn two_instruction_program() -> ProgramInput {
    let table = riscv_g();
    let add = riscv_mutator::asm_text::find_template(&table, "add").unwrap();
    let addi = riscv_mutator::asm_text::find_template(&table, "addi").unwrap();
    let inst1 = Instruction::new(
        &add,
        vec![
            Argument::new(&rd(), 1),
            Argument::new(&rs1(), 2),
            Argument::new(&rs2(), 4),
        ],
    );
    let inst2 = Instruction::new(
        &addi,
        vec![
            Argument::new(&rd(), 3),
            Argument::new(&rs1(), 5),
            Argument::new(&imm12(), 11),
        ],
    );
    ProgramInput::new(vec![inst1, inst2])
}

#[test]
fn serialize_round_trip() {
    let p = two_instruction_program();
    let bytes = p.serialize();
    assert_eq!(bytes.len(), 8);
    let q = ProgramInput::deserialize(&bytes).unwrap();
    assert!(p == q);
}

#[test]
fn deserialize_rejects_bad_input() {
    assert_eq!(
        ProgramInput::deserialize(&vec![1, 2, 3]),
        Err(ParseError::TrailingGarbage)
    );
    assert_eq!(
        ProgramInput::deserialize(&vec![0xff, 0xff, 0xff, 0xff]),
        Err(ParseError::UnknownEncoding(0xffffffff))
    );
}

#[test]
fn name_of_empty_program() {
    // the digest of no bytes is the bare seed
    let p = ProgramInput::new(Vec::new());
    assert_eq!(p.generate_name(0), "size:0-hash:cbf29ce484222325");
}

#[test]
fn name_of_known_program() {
    // digest of the eight bytes b3 00 41 00 93 81 b2 00 under the fixed
    // seeded 64-bit fold
    let p = two_instruction_program();
    assert_eq!(p.generate_name(0), "size:2-hash:27cd12a8aa9e1175");
}

#[test]
fn name_is_stable_and_well_shaped() {
    let p = two_instruction_program();
    let q = two_instruction_program();
    let name = p.generate_name(0);
    assert_eq!(name, q.generate_name(7));
    assert!(name.starts_with("size:2-hash:"));
    let digest: Vec<char> = name.chars().skip("size:2-hash:".len()).collect();
    assert_eq!(digest.len(), 16);
    for c in digest {
        assert!(c.is_ascii_hexdigit() && !c.is_uppercase());
    }
}

#[test]
fn target_bytes_and_unparse() {
    let p = two_instruction_program();
    let bytes = p.target_bytes();
    assert_eq!(bytes.len(), 4 * p.len());
    let mut out = vec![9, 9, 9];
    p.unparse(&mut out);
    assert_eq!(out, bytes);
    // the first word is the ADD encoding, little endian
    assert_eq!(&bytes[0..4], &[0xb3, 0x00, 0x41, 0x00]);
}

#[test]
fn crop_takes_a_slice() {
    let p = two_instruction_program();
    let tail = p.crop(1, 2).unwrap();
    assert_eq!(tail.len(), 1);
    assert_eq!(tail.insts()[0], p.insts()[1]);
    assert!(p.crop(0, 3).is_err());
    assert!(p.crop(1, 1).is_err());
    assert!(p.crop(2, 1).is_err());
}

#[test]
fn insts_mut_edits_in_place() {
    let mut p = two_instruction_program();
    let backup = p.insts()[0].clone();
    let held = p.insts_mut();
    let moved = held.remove(0);
    assert_eq!(moved, backup);
    assert_eq!(p.len(), 1);
}
