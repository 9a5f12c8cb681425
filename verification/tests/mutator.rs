use std::cmp::min;

use riscv_mutator::assembler::assemble_instructions;
use riscv_mutator::generator::InstGenerator;
use riscv_mutator::instructions::{Instruction, InstructionTemplate};
use riscv_mutator::mutator::{Mutation, MutationResult, RiscVInstructionMutator};
use riscv_mutator::parser::parse_instructions;
use riscv_mutator::riscv::riscv_g;
use riscv_mutator::rng::{RandomSource, Rng};

/// The test harness.
/// Contains all the data for the tests below and some utility code.
struct TestSetup {
    /// The RNG used in the test.
    rng: Rng,
    /// Our mutator which operates on the data below.
    mutator: RiscVInstructionMutator,
    /// The current set of bytes we're mutating.
    data: Vec<u8>,
    /// The previous set of bytes before the last mutation.
    old_data: Vec<u8>,
    /// How many instructions have changed during the last mutation.
    changed_insts: u32,
}

impl TestSetup {
    fn new(mutation: Mutation) -> Self {
        Self {
            rng: Rng::with_seed(0),
            mutator: RiscVInstructionMutator::new(mutation),
            data: Vec::<u8>::new(),
            old_data: Vec::<u8>::new(),
            changed_insts: 0,
        }
    }

    /// Calculates how many instructions have changed.
    fn update_changed(&mut self) {
        self.changed_insts = 0;
        let table = riscv_g();
        let new_insts = parse_instructions(&self.data, &table).unwrap();
        let old_insts = parse_instructions(&self.old_data, &table).unwrap();
        for i in 0..min(new_insts.len(), old_insts.len()) {
            if new_insts[i] != old_insts[i] {
                self.changed_insts += 1;
            }
        }
    }

    /// Performs one mutation step and updates all relevant data.
    /// Returns true when the mutation changed the data buffer.
    fn mutate(&mut self) -> bool {
        self.old_data = self.data.clone();
        let result = self.mutator.mutate_bytes(&mut self.rng, &mut self.data);
        self.update_changed();

        if result.is_ok() && result.unwrap() == MutationResult::Skipped {
            assert_eq!(self.data, self.old_data);
            return false;
        }
        true
    }

    /// Fill the byte vector with one specific encoded instruction.
    fn fill_one_inst(&mut self, template: &InstructionTemplate) {
        let inst =
            InstGenerator::new().generate_instruction(&mut self.rng, &vec![template.clone()]);
        self.data = assemble_instructions(&vec![inst]);
    }

    /// Fill the byte vector with random instructions.
    /// Does not guarantee that it generates any instructions.
    fn fill_random_inst(&mut self) {
        let generator = InstGenerator::new();
        let num_insts = self.rng.below(40) as u32;
        self.data =
            assemble_instructions(&generator.generate_instructions(
                &mut self.rng,
                &riscv_g(),
                num_insts,
            ));
    }

    /// Returns the parsed instructions in the current buffer.
    fn parsed_insts(&self) -> Vec<Instruction> {
        parse_instructions(&self.data, &riscv_g()).unwrap()
    }
}

const TRIES: u32 = 1000;

#[test]
fn mutate_add() {
    // Test that the 'Add' mutation only adds one instruction.
    let mut setup = TestSetup::new(Mutation::Add);

    for _ in 0..TRIES {
        if setup.mutate() {
            // Mutation should have added exactly one instruction.
            assert_eq!(setup.data.len(), setup.old_data.len() + 4);
        }
    }
}

#[test]
fn mutate_remove() {
    // Test that the 'Remove' mutation removes only one instruction.
    let mut setup = TestSetup::new(Mutation::Remove);

    for _ in 0..TRIES {
        setup.fill_random_inst();
        if setup.mutate() {
            // We should have removed exactly one instruction.
            assert_eq!(setup.data.len() + 4, setup.old_data.len());
        }
    }
}

#[test]
fn mutate_remove_empty_input() {
    // Test that the 'Remove' mutation works on empty inputs.
    let mut setup = TestSetup::new(Mutation::Remove);

    for _ in 0..TRIES {
        // Should never succeed on empty inputs.
        assert!(!setup.mutate());
    }
}

#[test]
fn mutate_replace() {
    // Test that replace only changes one instruction.
    let mut setup = TestSetup::new(Mutation::Replace);

    for _ in 0..TRIES {
        setup.fill_random_inst();
        if setup.mutate() {
            // One single instruction should have changed.
            assert_eq!(setup.data.len(), setup.old_data.len());
            assert_eq!(setup.changed_insts, 1);
        }
    }
}

#[test]
fn mutate_replace_empty_input() {
    // Test that replace works on empty inputs.
    let mut setup = TestSetup::new(Mutation::Replace);

    for _ in 0..TRIES {
        // Should never succeed on empty inputs.
        assert!(!setup.mutate());
    }
}

#[test]
fn mutate_replace_arg_single_instruction() {
    // Test that 'ReplaceArg' only replaces arguments.
    let mut setup = TestSetup::new(Mutation::ReplaceArg);
    let add = riscv_mutator::asm_text::find_template(&riscv_g(), "add").unwrap();

    for _ in 0..TRIES {
        setup.fill_one_inst(&add);
        let original_inst = setup.parsed_insts()[0].clone();
        if setup.mutate() {
            // This mutation does not add new instructions.
            assert_eq!(setup.data.len(), setup.old_data.len());
            // Parse the new instruction we generated.
            let new_inst = setup.parsed_insts()[0].clone();

            // The instruction should still be the ADD we created.
            assert_eq!(setup.parsed_insts()[0].template(), &add);
            // The arguments must have changed.
            assert_ne!(original_inst.arguments(), new_inst.arguments());
        }
    }
}

#[test]
fn mutate_replace_arg_multiple_instructions() {
    // Test that 'ReplaceArg' doesn't add instructions and doesn't change
    // more than one.
    let mut setup = TestSetup::new(Mutation::ReplaceArg);

    for _ in 0..TRIES {
        setup.fill_random_inst();
        if setup.mutate() {
            // This mutation does not add/remove instructions.
            assert_eq!(setup.data.len(), setup.old_data.len());
            // This mutation changes only one instruction at a time.
            assert_eq!(setup.changed_insts, 1);
        }
    }
}

#[test]
fn mutate_repeat() {
    // Test that 'RepeatSeveral' only adds instructions.
    let mut setup = TestSetup::new(Mutation::RepeatSeveral);

    for _ in 0..TRIES {
        setup.fill_random_inst();
        if setup.mutate() {
            // This mutation always adds instructions.
            assert!(setup.data.len() > setup.old_data.len());
        }
    }
}

#[test]
fn mutate_repeat_empty() {
    // Test that 'RepeatSeveral' doesn't do anything on empty inputs.
    let mut setup = TestSetup::new(Mutation::RepeatSeveral);

    for _ in 0..TRIES {
        // Should never succeed on empty inputs.
        assert!(!setup.mutate());
    }
}

#[test]
fn mutate_snippet() {
    let auipc = riscv_mutator::riscv::auipc_template();
    let jalr = riscv_mutator::riscv::jalr_template();
    for _ in 0..TRIES {
        let mut setup = TestSetup::new(Mutation::Snippet);
        assert!(setup.mutate());

        let insts = setup.parsed_insts();
        let first_inst = insts[0].clone();
        if first_inst.template() == &auipc {
            assert_eq!(insts.len(), 2);
            let jump = insts[1].clone();
            assert_eq!(jump.template(), &jalr);
        } else {
            assert_eq!(insts.len(), 1);
        }
    }
}
