use riscv_mutator::instructions::{Argument, Instruction, InstructionTemplate};
use riscv_mutator::riscv::{imm12, rd, riscv_g, rs1, rs2};

fn template(name: &str) -> InstructionTemplate {
    riscv_mutator::asm_text::find_template(&riscv_g(), name).expect("template not in the table")
}

#[test]
fn encode_add() {
    let add = template("add");
    let inst = Instruction::new(
        &add,
        vec![
            Argument::new(&rd(), 1),
            Argument::new(&rs1(), 2),
            Argument::new(&rs2(), 4),
        ],
    );
    assert_eq!(inst.encode(), 0x004100b3);
}

#[test]
fn compare_inst() {
    let add = template("add");
    let inst1 = Instruction::new(
        &add,
        vec![
            Argument::new(&rd(), 1),
            Argument::new(&rs1(), 2),
            Argument::new(&rs2(), 4),
        ],
    );
    let inst2 = Instruction::new(
        &add,
        vec![
            Argument::new(&rd(), 1),
            Argument::new(&rs1(), 2),
            Argument::new(&rs2(), 4),
        ],
    );
    assert!(inst1 == inst2);
}

#[test]
fn encode_add_all_args() {
    let add = template("add");
    let inst = Instruction::new(
        &add,
        vec![
            Argument::new(&rd(), 1),
            Argument::new(&rs1(), 2),
            Argument::new(&rs2(), 4),
        ],
    );
    assert_eq!(inst.encode(), 0x004100B3);

    // Do a whole decode-encode roundabout with this instruction.
    assert_eq!(add.decode(inst.encode()).unwrap(), inst);
}

#[test]
fn set_arg_replaces_field() {
    let addi = riscv_mutator::riscv::addi_template();
    let mut inst = Instruction::new(
        &addi,
        vec![
            Argument::new(&rd(), 1),
            Argument::new(&rs1(), 2),
            Argument::new(&imm12(), 3),
        ],
    );
    inst.set_arg(Argument::new(&rd(), 7));
    // the rd value is dropped and the new one appended at the end
    assert_eq!(inst.arguments().len(), 3);
    assert_eq!(inst.arguments()[2].arg_spec(), &rd());
    assert_eq!(inst.arguments()[2].value(), 7);
    // the encoding carries the new value
    let word = inst.encode();
    let redecoded = addi.decode(word).unwrap();
    assert_eq!(redecoded.arguments()[0].value(), 7);
    assert_eq!(redecoded.arguments()[1].value(), 2);
    assert_eq!(redecoded.arguments()[2].value(), 3);
}

#[test]
fn extract_reads_fields() {
    // ADD x1, x2, x4 encoded by hand: rd=1, rs1=2, rs2=4
    let word: u32 = 0x004100b3;
    assert_eq!(rd().extract(word).value(), 1);
    assert_eq!(rs1().extract(word).value(), 2);
    assert_eq!(rs2().extract(word).value(), 4);
    assert_eq!(rd().max_value(), 32);
    assert_eq!(imm12().length(), 12);
    assert_eq!(rd().name(), "rd");
}

#[test]
fn matches_checks_fixed_bits() {
    let add = template("add");
    assert!(add.matches(0x004100b3));
    // an addi word does not match the add template
    assert!(!add.matches(0x00310193));
    assert!(add.decode(0x00310193).is_none());
}
