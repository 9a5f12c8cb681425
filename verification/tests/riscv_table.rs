use riscv_mutator::assembler::assemble_instructions;
use riscv_mutator::instructions::{Argument, Instruction};
use riscv_mutator::parser::{check_no_overlap, parse_instructions};
use riscv_mutator::riscv::{all, riscv_base, riscv_g};

#[test]
fn table_sizes() {
    // every template passed its invariant check when the table was built
    assert_eq!(riscv_g().len(), 149);
    assert_eq!(riscv_base().len(), 52);
    assert_eq!(all().len(), 149);
}

#[test]
fn no_two_templates_overlap() {
    // what the parse round-trip law relies on: no word matches two templates
    assert!(check_no_overlap(&riscv_g()));
    assert!(check_no_overlap(&riscv_base()));
}

#[test]
fn every_template_round_trips() {
    // encode an instruction of every template with synthetic operand values
    // and check that the whole set parses it back unchanged
    let table = riscv_g();
    for (n, template) in table.iter().enumerate() {
        let mut args = Vec::<Argument>::new();
        for (k, op) in template.operands().iter().enumerate() {
            let value = ((n + k) as u32) % op.max_value();
            args.push(Argument::new(op, value));
        }
        let inst = Instruction::new(template, args);
        let bytes = assemble_instructions(&vec![inst.clone()]);
        let parsed = parse_instructions(&bytes, &table)
            .unwrap_or_else(|e| panic!("{}: failed to parse: {:?}", template.name(), e));
        assert_eq!(parsed.len(), 1);
        assert_eq!(parsed[0], inst, "template {}", template.name());
    }
}

#[test]
fn base_set_is_part_of_the_decoding_set() {
    // what mutation soundness relies on: everything the generator may pick
    // from also decodes under the full set
    let g = riscv_g();
    for t in riscv_base().iter() {
        assert!(g.iter().any(|u| u == t), "template {} not in riscv_g", t.name());
    }
}

#[test]
fn known_encodings() {
    let table = riscv_g();
    let lookup = |name: &str| riscv_mutator::asm_text::find_template(&table, name).unwrap();
    // fixed bits of a few well-known instructions
    assert_eq!(lookup("add").base_pattern(), 0x33);
    assert_eq!(lookup("addi").base_pattern(), 0x13);
    assert_eq!(lookup("auipc").base_pattern(), 0x17);
    assert_eq!(lookup("jalr").base_pattern(), 0x67);
    assert_eq!(lookup("ecall").base_pattern(), 0x73);
    assert_eq!(lookup("mul").base_pattern(), 0x2000033);
    assert_eq!(lookup("lr.w").base_pattern(), 0x1000202f);
    assert_eq!(lookup("fadd.d").base_pattern(), 0x2000053);
    assert_eq!(lookup("sd").base_pattern(), 0x3023);
}
