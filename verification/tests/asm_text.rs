use riscv_mutator::asm_text::{parse_inst, AsmError};
use riscv_mutator::instructions::Instruction;

fn dump_inst(inst: &Instruction) -> String {
    let mut result = inst.template().name().to_string();
    for op in inst.arguments() {
        result += " ";
        result += op.arg_spec().name();
        result += "=";
        result += &format!("{:#x}", op.value()).to_string();
    }
    result
}

fn has_error(res: Result<Instruction, AsmError>, needle: &str) {
    assert!(res.is_err());
    let err = res.err().unwrap().message();
    assert!(
        err.contains(needle),
        "'{}' does not contain '{}'",
        err,
        needle
    );
}

#[test]
fn assembly_add() {
    let input = "addi rd=0x1 rs1=0x1 imm12=0x3";
    let inst = parse_inst(input).unwrap();
    assert_eq!(dump_inst(&inst), input);
}

#[test]
fn assembly_invalid_inst() {
    let parse = parse_inst("addasdf");
    has_error(parse, "Could not find instruction");
}

#[test]
fn assembly_double_op() {
    let parse = parse_inst("addi rd=0x1 rd=0x1 rs1=0x1 imm12=0x3");
    has_error(parse, "Duplicate operand");
}

#[test]
fn assembly_invalid_format() {
    let parse = parse_inst("addi rd==0x1 rs1=0x1 imm12=0x3");
    has_error(parse, "Not in ARG=VALUE");
}

#[test]
fn assembly_invalid_op() {
    let parse = parse_inst("addi rERR=0x1 rs1=0x1 imm12=0x3");
    has_error(parse, "Failed to find operand with name");
}

#[test]
fn assembly_missing_op() {
    let parse = parse_inst("addi rd=0x1 rs1=0x1");
    has_error(parse, "Missing operands in instruction");
}

#[test]
fn assembly_no_value() {
    let parse = parse_inst("addi rd= rs1=0x1 imm12=0x3");
    has_error(parse, "Missing value in arg");
}

#[test]
fn assembly_too_large_value() {
    let parse = parse_inst("addi rd=0xfff rs1=0x1 imm12=0x3");
    has_error(parse, "Too large value ");
}

#[test]
fn assembly_non_hex_value() {
    let parse = parse_inst("addi rd=0xU rs1=0x1 imm12=0x3");
    has_error(parse, "Invalid decimal or hex value: 0xU");
}

#[test]
fn assembly_decimal_and_comments() {
    // decimal values, arguments out of order, and a trailing comment
    let inst = parse_inst("addi imm12=11 rd=3 rs1=5 # the second half").unwrap();
    assert_eq!(inst.encode(), 0x00b28193);
    // a pure comment line has no mnemonic
    has_error(parse_inst("# nothing here"), "Could not find instruction");
}

#[test]
fn assembly_encodes_add() {
    let inst = parse_inst("add rd=1 rs1=2 rs2=4").unwrap();
    assert_eq!(inst.encode(), 0x004100b3);
}
