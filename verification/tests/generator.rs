use riscv_mutator::generator::InstGenerator;
use riscv_mutator::instructions::Argument;
use riscv_mutator::riscv::{rd, riscv_g};
use riscv_mutator::rng::Rng;

#[test]
fn generate_random_instructions() {
    let table = riscv_g();
    for i in 0..10000 {
        let mut rng = Rng::with_seed(i);

        let generator = InstGenerator::new();
        let _inst = generator.generate_instruction(&mut rng, &table);
    }
}

#[test]
fn generate_instructions_and_reuse_arguments() {
    let table = riscv_g();
    for i in 0..20 {
        let mut rng = Rng::with_seed(i);

        let mut generator = InstGenerator::new();

        // Tell the generator that it should try to emit instructions
        // that use x35 as RD.
        let magic_value: u32 = 35;
        generator.forward_args(&vec![Argument::new(&rd(), magic_value)]);

        let mut found = false;
        // Generate 100 instructions and check that one of them actually
        // uses x35 as RD.
        for _ in 0..100 {
            let inst = generator.generate_instruction(&mut rng, &table);
            for arg in inst.arguments() {
                if arg.arg_spec() == &rd() && arg.value() == magic_value {
                    found = true;
                }
            }
        }

        assert!(found);
    }
}

#[test]
fn generated_values_fit_their_fields() {
    let table = riscv_g();
    for i in 0..200 {
        let mut rng = Rng::with_seed(1000 + i);
        let generator = InstGenerator::new();
        let inst = generator.generate_instruction(&mut rng, &table);
        for arg in inst.arguments() {
            assert!(u64::from(arg.value()) < (1u64 << arg.arg_spec().length()));
        }
    }
}
