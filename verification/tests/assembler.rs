use riscv_mutator::assembler::assemble_instructions;
use riscv_mutator::generator::InstGenerator;
use riscv_mutator::instructions::{Argument, Instruction};
use riscv_mutator::parser::parse_instructions;
use riscv_mutator::riscv::{imm12, rd, riscv_g, rs1, rs2};
use riscv_mutator::rng::{RandomSource, Rng};

#[test]
fn assemble_two_instructions() {
    let table = riscv_g();
    let add = riscv_mutator::asm_text::find_template(&table, "add").unwrap();
    let addi = riscv_mutator::asm_text::find_template(&table, "addi").unwrap();
    let inst1 = Instruction::new(
        &add,
        vec![
            Argument::new(&rd(), 1),
            Argument::new(&rs1(), 2),
            Argument::new(&rs2(), 4),
        ],
    );
    let inst2 = Instruction::new(
        &addi,
        vec![
            Argument::new(&rd(), 3),
            Argument::new(&rs1(), 5),
            Argument::new(&imm12(), 11),
        ],
    );

    let insts = vec![inst1, inst2];
    let assembled = assemble_instructions(&insts);
    // Two instructions should be 8 byte.
    assert_eq!(assembled.len(), 8);

    // Parse the output and check that we get the same result.
    let parsed = parse_instructions(&assembled, &table).unwrap();
    assert_eq!(insts, parsed);
}

#[test]
fn assemble_and_parse_random_instructions() {
    let table = riscv_g();
    for i in 0..1000 {
        let mut rng = Rng::with_seed(i);

        let generator = InstGenerator::new();

        let mut insts = Vec::<Instruction>::new();

        for _ in 0..rng.below(5) {
            let inst = generator.generate_instruction(&mut rng, &table);
            insts.push(inst);
        }

        let assembled = assemble_instructions(&insts);
        assert_eq!(assembled.len(), 4 * insts.len());

        // Parse the output and check that we get the same result.
        let parsed = parse_instructions(&assembled, &table)
            .unwrap_or_else(|e| panic!("{}: Failed to parse instructions: {:?}", i, e));
        assert_eq!(insts, parsed, "Instructions: {:?}", insts);
    }
}
