use riscv_mutator::assembler::assemble_instructions;
use riscv_mutator::generator::InstGenerator;
use riscv_mutator::instructions::Instruction;
use riscv_mutator::mutator::{
    all_riscv_mutations, reducing_mutations, Mutation, MutationResult, RiscVInstructionMutator,
};
use riscv_mutator::parser::parse_instructions;
use riscv_mutator::riscv::{riscv_base, riscv_g};
use riscv_mutator::rng::Rng;

fn random_program(seed: u64, len: u32) -> Vec<Instruction> {
    let mut rng = Rng::with_seed(seed);
    InstGenerator::new().generate_instructions(&mut rng, &riscv_g(), len)
}

#[test]
fn empty_input_policy() {
    // the mutations that need a position skip an empty program;
    // Add and Snippet succeed on it
    let needs_position = [
        Mutation::Remove,
        Mutation::Replace,
        Mutation::ReplaceArg,
        Mutation::SwapTwo,
        Mutation::RepeatOne,
        Mutation::RepeatSeveral,
        Mutation::ReplaceWithNop,
    ];
    let base = riscv_base();
    for (k, m) in needs_position.iter().enumerate() {
        let mut rng = Rng::with_seed(k as u64);
        let mut program = Vec::<Instruction>::new();
        let r = RiscVInstructionMutator::new(*m).mutate(&mut rng, &base, &mut program);
        assert_eq!(r, MutationResult::Skipped);
        assert_eq!(program.len(), 0);
    }
    for (k, m) in [Mutation::Add, Mutation::Snippet].iter().enumerate() {
        let mut rng = Rng::with_seed(k as u64);
        let mut program = Vec::<Instruction>::new();
        let r = RiscVInstructionMutator::new(*m).mutate(&mut rng, &base, &mut program);
        assert_eq!(r, MutationResult::Mutated);
        assert!(program.len() >= 1);
    }
}

#[test]
fn replace_with_nop_writes_the_nop() {
    let base = riscv_base();
    for seed in 0..50 {
        let mut rng = Rng::with_seed(seed);
        let mut program = random_program(seed, 5);
        let before = program.clone();
        let r = RiscVInstructionMutator::new(Mutation::ReplaceWithNop)
            .mutate(&mut rng, &base, &mut program);
        assert_eq!(r, MutationResult::Mutated);
        assert_eq!(program.len(), before.len());
        let nop_word: u32 = 0x00000013;
        let mut changed = 0;
        for (i, inst) in program.iter().enumerate() {
            if !(inst == &before[i]) {
                changed += 1;
                assert_eq!(inst.encode(), nop_word);
            }
        }
        assert!(changed <= 1);
    }
}

#[test]
fn repeat_one_duplicates_once() {
    let base = riscv_base();
    for seed in 0..50 {
        let mut rng = Rng::with_seed(seed);
        let mut program = random_program(seed, 4);
        let before_len = program.len();
        let r =
            RiscVInstructionMutator::new(Mutation::RepeatOne).mutate(&mut rng, &base, &mut program);
        assert_eq!(r, MutationResult::Mutated);
        assert_eq!(program.len(), before_len + 1);
    }
}

#[test]
fn swap_two_keeps_the_instructions() {
    let base = riscv_base();
    for seed in 0..50 {
        let mut rng = Rng::with_seed(seed);
        let mut program = random_program(seed, 6);
        let before = program.clone();
        let r =
            RiscVInstructionMutator::new(Mutation::SwapTwo).mutate(&mut rng, &base, &mut program);
        assert_eq!(r, MutationResult::Mutated);
        assert_eq!(program.len(), before.len());
        // the same encodings, possibly in another order
        let mut a: Vec<u32> = before.iter().map(|i| i.encode()).collect();
        let mut b: Vec<u32> = program.iter().map(|i| i.encode()).collect();
        a.sort();
        b.sort();
        assert_eq!(a, b);
    }
}

#[test]
fn mutated_programs_stay_decodable() {
    // every mutation keeps every word a legal encoding under the full set
    let table = riscv_g();
    let base = riscv_base();
    let mutations = [
        Mutation::Add,
        Mutation::Replace,
        Mutation::ReplaceArg,
        Mutation::RepeatOne,
        Mutation::RepeatSeveral,
        Mutation::SwapTwo,
        Mutation::Remove,
        Mutation::ReplaceWithNop,
        Mutation::Snippet,
    ];
    for (k, m) in mutations.iter().enumerate() {
        for seed in 0..20 {
            let mut rng = Rng::with_seed(seed * 31 + k as u64);
            let mut program = random_program(seed, 8);
            RiscVInstructionMutator::new(*m).mutate(&mut rng, &base, &mut program);
            let bytes = assemble_instructions(&program);
            let parsed = parse_instructions(&bytes, &table).unwrap();
            assert_eq!(parsed.len(), program.len());
        }
    }
}

#[test]
fn snippet_shapes() {
    // one Snippet mutation on an empty program gives the call idiom
    // `auipc x2, 0; jalr x1, 4n(x2)` or the single return `jalr x0, 0(x1)`
    let base = riscv_base();
    let auipc = riscv_mutator::riscv::auipc_template();
    let jalr = riscv_mutator::riscv::jalr_template();
    let mut seen_call = false;
    let mut seen_ret = false;
    for seed in 0..50 {
        let mut rng = Rng::with_seed(seed);
        let mut program = Vec::<Instruction>::new();
        let r =
            RiscVInstructionMutator::new(Mutation::Snippet).mutate(&mut rng, &base, &mut program);
        assert_eq!(r, MutationResult::Mutated);
        if program.len() == 2 {
            seen_call = true;
            assert!(program[0].template() == &auipc);
            assert_eq!(program[0].arguments()[0].value(), 2);
            assert_eq!(program[0].arguments()[1].value(), 0);
            assert!(program[1].template() == &jalr);
            assert_eq!(program[1].arguments()[0].value(), 1);
            assert_eq!(program[1].arguments()[1].value(), 2);
            let imm = program[1].arguments()[2].value();
            assert!(imm % 4 == 0 && imm < 256);
        } else {
            seen_ret = true;
            assert_eq!(program.len(), 1);
            assert!(program[0].template() == &jalr);
            assert_eq!(program[0].arguments()[0].value(), 0);
            assert_eq!(program[0].arguments()[1].value(), 1);
            assert_eq!(program[0].arguments()[2].value(), 0);
        }
    }
    assert!(seen_call && seen_ret);
}

#[test]
fn mutation_set_factories() {
    let all = all_riscv_mutations();
    assert_eq!(all.len(), 13);
    assert!(matches!(all[0].mutation, Mutation::Add));
    assert!(matches!(all[12].mutation, Mutation::Snippet));
    let reducing = reducing_mutations();
    assert_eq!(reducing.len(), 3);
    assert!(matches!(reducing[0].mutation, Mutation::Remove));
    assert!(matches!(reducing[2].mutation, Mutation::ReplaceWithNop));
}
