//! The RV64-G opcode table, pinned at specification level: one operand-field
//! constructor per field shape, one template shape per encoding format, and
//! per extension both the mathematical template sequence and the function
//! that builds it, with the built table proved equal to the mathematical one
//! and every template proved well formed.

use vstd::prelude::*;

verus! {

use crate::instructions::{
    ArgSpecView, ArgumentSpec, InstructionTemplate, TemplateView, spec_operand_list, views_of,
};

// ---------------------------------------------------------------------------
// Operand field shapes
// ---------------------------------------------------------------------------
/// The `rd` field: 5 bits at offset 7.
pub open spec fn spec_rd() -> ArgSpecView {
    ArgSpecView { name: "rd"@, length: 5, offset: 7 }
}

/// Builds the `rd` operand field specification.
pub fn rd() -> (s: ArgumentSpec)
    ensures
        s@ == spec_rd(),
        s@.wf(),
{
    ArgumentSpec::new("rd", 5, 7)
}
/// The `rs1` field: 5 bits at offset 15.
pub open spec fn spec_rs1() -> ArgSpecView {
    ArgSpecView { name: "rs1"@, length: 5, offset: 15 }
}

/// Builds the `rs1` operand field specification.
pub fn rs1() -> (s: ArgumentSpec)
    ensures
        s@ == spec_rs1(),
        s@.wf(),
{
    ArgumentSpec::new("rs1", 5, 15)
}
/// The `rs2` field: 5 bits at offset 20.
pub open spec fn spec_rs2() -> ArgSpecView {
    ArgSpecView { name: "rs2"@, length: 5, offset: 20 }
}

/// Builds the `rs2` operand field specification.
pub fn rs2() -> (s: ArgumentSpec)
    ensures
        s@ == spec_rs2(),
        s@.wf(),
{
    ArgumentSpec::new("rs2", 5, 20)
}
/// The `rs3` field: 5 bits at offset 27.
pub open spec fn spec_rs3() -> ArgSpecView {
    ArgSpecView { name: "rs3"@, length: 5, offset: 27 }
}

/// Builds the `rs3` operand field specification.
pub fn rs3() -> (s: ArgumentSpec)
    ensures
        s@ == spec_rs3(),
        s@.wf(),
{
    ArgumentSpec::new("rs3", 5, 27)
}
/// The `imm20` field: 20 bits at offset 12.
pub open spec fn spec_imm20() -> ArgSpecView {
    ArgSpecView { name: "imm20"@, length: 20, offset: 12 }
}

/// Builds the `imm20` operand field specification.
pub fn imm20() -> (s: ArgumentSpec)
    ensures
        s@ == spec_imm20(),
        s@.wf(),
{
    ArgumentSpec::new("imm20", 20, 12)
}
/// The `jimm20` field: 20 bits at offset 12.
pub open spec fn spec_jimm20() -> ArgSpecView {
    ArgSpecView { name: "jimm20"@, length: 20, offset: 12 }
}

/// Builds the `jimm20` operand field specification.
pub fn jimm20() -> (s: ArgumentSpec)
    ensures
        s@ == spec_jimm20(),
        s@.wf(),
{
    ArgumentSpec::new("jimm20", 20, 12)
}
/// The `imm12` field: 12 bits at offset 20.
pub open spec fn spec_imm12() -> ArgSpecView {
    ArgSpecView { name: "imm12"@, length: 12, offset: 20 }
}

/// Builds the `imm12` operand field specification.
pub fn imm12() -> (s: ArgumentSpec)
    ensures
        s@ == spec_imm12(),
        s@.wf(),
{
    ArgumentSpec::new("imm12", 12, 20)
}
/// The `imm12hi` field: 7 bits at offset 25.
pub open spec fn spec_imm12hi() -> ArgSpecView {
    ArgSpecView { name: "imm12hi"@, length: 7, offset: 25 }
}

/// Builds the `imm12hi` operand field specification.
pub fn imm12hi() -> (s: ArgumentSpec)
    ensures
        s@ == spec_imm12hi(),
        s@.wf(),
{
    ArgumentSpec::new("imm12hi", 7, 25)
}
/// The `imm12lo` field: 5 bits at offset 7.
pub open spec fn spec_imm12lo() -> ArgSpecView {
    ArgSpecView { name: "imm12lo"@, length: 5, offset: 7 }
}

/// Builds the `imm12lo` operand field specification.
pub fn imm12lo() -> (s: ArgumentSpec)
    ensures
        s@ == spec_imm12lo(),
        s@.wf(),
{
    ArgumentSpec::new("imm12lo", 5, 7)
}
/// The `bimm12hi` field: 7 bits at offset 25.
pub open spec fn spec_bimm12hi() -> ArgSpecView {
    ArgSpecView { name: "bimm12hi"@, length: 7, offset: 25 }
}

/// Builds the `bimm12hi` operand field specification.
pub fn bimm12hi() -> (s: ArgumentSpec)
    ensures
        s@ == spec_bimm12hi(),
        s@.wf(),
{
    ArgumentSpec::new("bimm12hi", 7, 25)
}
/// The `bimm12lo` field: 5 bits at offset 7.
pub open spec fn spec_bimm12lo() -> ArgSpecView {
    ArgSpecView { name: "bimm12lo"@, length: 5, offset: 7 }
}

/// Builds the `bimm12lo` operand field specification.
pub fn bimm12lo() -> (s: ArgumentSpec)
    ensures
        s@ == spec_bimm12lo(),
        s@.wf(),
{
    ArgumentSpec::new("bimm12lo", 5, 7)
}
/// The `shamtd` field: 6 bits at offset 20.
pub open spec fn spec_shamtd() -> ArgSpecView {
    ArgSpecView { name: "shamtd"@, length: 6, offset: 20 }
}

/// Builds the `shamtd` operand field specification.
pub fn shamtd() -> (s: ArgumentSpec)
    ensures
        s@ == spec_shamtd(),
        s@.wf(),
{
    ArgumentSpec::new("shamtd", 6, 20)
}
/// The `shamtw` field: 5 bits at offset 20.
pub open spec fn spec_shamtw() -> ArgSpecView {
    ArgSpecView { name: "shamtw"@, length: 5, offset: 20 }
}

/// Builds the `shamtw` operand field specification.
pub fn shamtw() -> (s: ArgumentSpec)
    ensures
        s@ == spec_shamtw(),
        s@.wf(),
{
    ArgumentSpec::new("shamtw", 5, 20)
}
/// The `rm` field: 3 bits at offset 12.
pub open spec fn spec_rm() -> ArgSpecView {
    ArgSpecView { name: "rm"@, length: 3, offset: 12 }
}

/// Builds the `rm` operand field specification.
pub fn rm() -> (s: ArgumentSpec)
    ensures
        s@ == spec_rm(),
        s@.wf(),
{
    ArgumentSpec::new("rm", 3, 12)
}
/// The `aq` field: 1 bits at offset 26.
pub open spec fn spec_aq() -> ArgSpecView {
    ArgSpecView { name: "aq"@, length: 1, offset: 26 }
}

/// Builds the `aq` operand field specification.
pub fn aq() -> (s: ArgumentSpec)
    ensures
        s@ == spec_aq(),
        s@.wf(),
{
    ArgumentSpec::new("aq", 1, 26)
}
/// The `rl` field: 1 bits at offset 25.
pub open spec fn spec_rl() -> ArgSpecView {
    ArgSpecView { name: "rl"@, length: 1, offset: 25 }
}

/// Builds the `rl` operand field specification.
pub fn rl() -> (s: ArgumentSpec)
    ensures
        s@ == spec_rl(),
        s@.wf(),
{
    ArgumentSpec::new("rl", 1, 25)
}
/// The `fm` field: 4 bits at offset 28.
pub open spec fn spec_fm() -> ArgSpecView {
    ArgSpecView { name: "fm"@, length: 4, offset: 28 }
}

/// Builds the `fm` operand field specification.
pub fn fm() -> (s: ArgumentSpec)
    ensures
        s@ == spec_fm(),
        s@.wf(),
{
    ArgumentSpec::new("fm", 4, 28)
}
/// The `pred` field: 4 bits at offset 24.
pub open spec fn spec_pred() -> ArgSpecView {
    ArgSpecView { name: "pred"@, length: 4, offset: 24 }
}

/// Builds the `pred` operand field specification.
pub fn pred() -> (s: ArgumentSpec)
    ensures
        s@ == spec_pred(),
        s@.wf(),
{
    ArgumentSpec::new("pred", 4, 24)
}
/// The `succ` field: 4 bits at offset 20.
pub open spec fn spec_succ() -> ArgSpecView {
    ArgSpecView { name: "succ"@, length: 4, offset: 20 }
}

/// Builds the `succ` operand field specification.
pub fn succ() -> (s: ArgumentSpec)
    ensures
        s@ == spec_succ(),
        s@.wf(),
{
    ArgumentSpec::new("succ", 4, 20)
}
// ---------------------------------------------------------------------------
// Table predicates
// ---------------------------------------------------------------------------

/// Every template in the sequence is well formed.
pub open spec fn templates_wf(s: Seq<InstructionTemplate>) -> bool {
    forall|i: int| 0 <= i < s.len() ==> (#[trigger] s[i])@.wf()
}

/// The sequence holds a template with the given mathematical value.
pub open spec fn contains_template(s: Seq<InstructionTemplate>, t: TemplateView) -> bool {
    exists|i: int| 0 <= i < s.len() && (#[trigger] s[i])@ == t
}

// ---------------------------------------------------------------------------
// Bit facts behind the table
// ---------------------------------------------------------------------------

/// The value of every operand field mask.
proof fn lemma_field_masks()
    by (bit_vector)
    ensures
        (((1u32 << 1) - 1) as u32) << 25 == 0x2000000u32,
        (((1u32 << 1) - 1) as u32) << 26 == 0x4000000u32,
        (((1u32 << 3) - 1) as u32) << 12 == 0x7000u32,
        (((1u32 << 4) - 1) as u32) << 20 == 0xf00000u32,
        (((1u32 << 4) - 1) as u32) << 24 == 0xf000000u32,
        (((1u32 << 4) - 1) as u32) << 28 == 0xf0000000u32,
        (((1u32 << 5) - 1) as u32) << 7 == 0xf80u32,
        (((1u32 << 5) - 1) as u32) << 15 == 0xf8000u32,
        (((1u32 << 5) - 1) as u32) << 20 == 0x1f00000u32,
        (((1u32 << 5) - 1) as u32) << 27 == 0xf8000000u32,
        (((1u32 << 6) - 1) as u32) << 20 == 0x3f00000u32,
        (((1u32 << 7) - 1) as u32) << 25 == 0xfe000000u32,
        (((1u32 << 12) - 1) as u32) << 20 == 0xfff00000u32,
        (((1u32 << 20) - 1) as u32) << 12 == 0xfffff000u32,
{
}

/// Operand fields never overlap the fixed bits of their format, nor each
/// other.
proof fn lemma_fields_disjoint()
    by (bit_vector)
    ensures
        0xf80u32 & 0x7fu32 == 0,
        0xfffff000u32 & 0x7fu32 == 0,
        0xf80u32 & 0x707fu32 == 0,
        0xf8000u32 & 0x707fu32 == 0,
        0xfff00000u32 & 0x707fu32 == 0,
        0xfe000000u32 & 0x707fu32 == 0,
        0x1f00000u32 & 0x707fu32 == 0,
        0xf0000000u32 & 0x707fu32 == 0,
        0xf000000u32 & 0x707fu32 == 0,
        0xf00000u32 & 0x707fu32 == 0,
        0xf80u32 & 0xfe00707fu32 == 0,
        0xf8000u32 & 0xfe00707fu32 == 0,
        0x1f00000u32 & 0xfe00707fu32 == 0,
        0xf80u32 & 0xfc00707fu32 == 0,
        0xf8000u32 & 0xfc00707fu32 == 0,
        0x3f00000u32 & 0xfc00707fu32 == 0,
        0xf80u32 & 0xf800707fu32 == 0,
        0xf8000u32 & 0xf800707fu32 == 0,
        0x1f00000u32 & 0xf800707fu32 == 0,
        0x4000000u32 & 0xf800707fu32 == 0,
        0x2000000u32 & 0xf800707fu32 == 0,
        0xf80u32 & 0xf9f0707fu32 == 0,
        0xf8000u32 & 0xf9f0707fu32 == 0,
        0x4000000u32 & 0xf9f0707fu32 == 0,
        0x2000000u32 & 0xf9f0707fu32 == 0,
        0xf80u32 & 0x600007fu32 == 0,
        0xf8000u32 & 0x600007fu32 == 0,
        0x1f00000u32 & 0x600007fu32 == 0,
        0xf8000000u32 & 0x600007fu32 == 0,
        0x7000u32 & 0x600007fu32 == 0,
        0xf80u32 & 0xfe00007fu32 == 0,
        0xf8000u32 & 0xfe00007fu32 == 0,
        0x1f00000u32 & 0xfe00007fu32 == 0,
        0x7000u32 & 0xfe00007fu32 == 0,
        0xf80u32 & 0xfff0007fu32 == 0,
        0xf8000u32 & 0xfff0007fu32 == 0,
        0x7000u32 & 0xfff0007fu32 == 0,
        0xf80u32 & 0xfff0707fu32 == 0,
        0xf8000u32 & 0xfff0707fu32 == 0,
        0xf80u32 & 0xfffff000u32 == 0,
        0xf80u32 & 0xf8000u32 == 0,
        0xf80u32 & 0xfff00000u32 == 0,
        0xf8000u32 & 0xfff00000u32 == 0,
        0xfe000000u32 & 0xf8000u32 == 0,
        0xfe000000u32 & 0x1f00000u32 == 0,
        0xfe000000u32 & 0xf80u32 == 0,
        0xf8000u32 & 0x1f00000u32 == 0,
        0xf8000u32 & 0xf80u32 == 0,
        0x1f00000u32 & 0xf80u32 == 0,
        0xf0000000u32 & 0xf000000u32 == 0,
        0xf0000000u32 & 0xf00000u32 == 0,
        0xf0000000u32 & 0xf8000u32 == 0,
        0xf0000000u32 & 0xf80u32 == 0,
        0xf000000u32 & 0xf00000u32 == 0,
        0xf000000u32 & 0xf8000u32 == 0,
        0xf000000u32 & 0xf80u32 == 0,
        0xf00000u32 & 0xf8000u32 == 0,
        0xf00000u32 & 0xf80u32 == 0,
        0xf80u32 & 0x1f00000u32 == 0,
        0xf80u32 & 0x3f00000u32 == 0,
        0xf8000u32 & 0x3f00000u32 == 0,
        0xf80u32 & 0x4000000u32 == 0,
        0xf80u32 & 0x2000000u32 == 0,
        0xf8000u32 & 0x4000000u32 == 0,
        0xf8000u32 & 0x2000000u32 == 0,
        0x1f00000u32 & 0x4000000u32 == 0,
        0x1f00000u32 & 0x2000000u32 == 0,
        0x4000000u32 & 0x2000000u32 == 0,
        0xf80u32 & 0xf8000000u32 == 0,
        0xf80u32 & 0x7000u32 == 0,
        0xf8000u32 & 0xf8000000u32 == 0,
        0xf8000u32 & 0x7000u32 == 0,
        0x1f00000u32 & 0xf8000000u32 == 0,
        0x1f00000u32 & 0x7000u32 == 0,
        0xf8000000u32 & 0x7000u32 == 0,
{
}

/// Every composed match pattern lies within its format's mask.
proof fn lemma_match_shapes()
    by (bit_vector)
    ensures
        forall|opcode: u32| opcode < 128 ==> #[trigger] (opcode & 0x7fu32) == opcode,
        forall|opcode: u32, funct3: u32|
            opcode < 128 && funct3 < 8 ==> #[trigger] ((opcode | (funct3 << 12)) & 0x707fu32)
                == opcode | (funct3 << 12),
        forall|opcode: u32, funct3: u32, funct7: u32|
            opcode < 128 && funct3 < 8 && funct7 < 128 ==> #[trigger] ((opcode | (funct3 << 12) | (
            funct7 << 25)) & 0xfe00707fu32) == opcode | (funct3 << 12) | (funct7 << 25),
        forall|opcode: u32, funct3: u32, funct6: u32|
            opcode < 128 && funct3 < 8 && funct6 < 64 ==> #[trigger] ((opcode | (funct3 << 12) | (
            funct6 << 26)) & 0xfc00707fu32) == opcode | (funct3 << 12) | (funct6 << 26),
        forall|word: u32| #[trigger] (word & 0xffffffffu32) == word,
        forall|opcode: u32, funct3: u32, funct5: u32|
            opcode < 128 && funct3 < 8 && funct5 < 32 ==> #[trigger] ((opcode | (funct3 << 12) | (
            funct5 << 27)) & 0xf800707fu32) == opcode | (funct3 << 12) | (funct5 << 27),
        forall|opcode: u32, funct3: u32, funct5: u32|
            opcode < 128 && funct3 < 8 && funct5 < 32 ==> #[trigger] ((opcode | (funct3 << 12) | (
            funct5 << 27)) & 0xf9f0707fu32) == opcode | (funct3 << 12) | (funct5 << 27),
        forall|opcode: u32, fmt: u32|
            opcode < 128 && fmt < 4 ==> #[trigger] ((opcode | (fmt << 25)) & 0x600007fu32)
                == opcode | (fmt << 25),
        forall|opcode: u32, funct7: u32|
            opcode < 128 && funct7 < 128 ==> #[trigger] ((opcode | (funct7 << 25)) & 0xfe00007fu32)
                == opcode | (funct7 << 25),
        forall|opcode: u32, funct7: u32, rs2val: u32|
            opcode < 128 && funct7 < 128 && rs2val < 32 ==> #[trigger] ((opcode | (rs2val << 20) | (
            funct7 << 25)) & 0xfff0007fu32) == opcode | (rs2val << 20) | (funct7 << 25),
        forall|opcode: u32, funct3: u32, funct7: u32, rs2val: u32|
            opcode < 128 && funct3 < 8 && funct7 < 128 && rs2val < 32 ==> #[trigger] ((opcode | (
            funct3 << 12) | (rs2val << 20) | (funct7 << 25)) & 0xfff0707fu32) == opcode | (funct3
                << 12) | (rs2val << 20) | (funct7 << 25),
{
}

// ---------------------------------------------------------------------------
// Template shapes
// ---------------------------------------------------------------------------
/// A U-type template: `rd`, `imm20`.
pub open spec fn spec_utype(name: Seq<char>, opcode: u32) -> TemplateView {
    TemplateView {
        name,
        match_pattern: opcode,
        mask_pattern: 0x7fu32,
        operands: seq![spec_rd(), spec_imm20()],
    }
}

proof fn lemma_utype_wf(name: Seq<char>, opcode: u32)
    requires
        opcode < 128,
    ensures
        spec_utype(name, opcode).wf(),
{
    lemma_field_masks();
    lemma_fields_disjoint();
    lemma_match_shapes();
    let t = spec_utype(name, opcode);
    assert(t.operands[0] == spec_rd());
    assert(spec_rd().field_mask() == 0xf80u32);
    assert(t.operands[1] == spec_imm20());
    assert(spec_imm20().field_mask() == 0xfffff000u32);
    assert(t.match_pattern & t.mask_pattern == t.match_pattern);
    assert forall|i: int| 0 <= i < t.operands.len() implies (#[trigger] t.operands[i]).wf() by {
        assert(i == 0 || i == 1);
    }
    assert forall|i: int|
        0 <= i < t.operands.len() implies (#[trigger] t.operands[i]).field_mask() & t.mask_pattern
        == 0 by {
        assert(i == 0 || i == 1);
    }
    assert forall|i: int, j: int|
        #![trigger t.operands[i].disjoint_from(t.operands[j])]
        0 <= i < j < t.operands.len() implies t.operands[i].disjoint_from(t.operands[j]) by {
        assert((i == 0 && j == 1));
    }
}

fn make_utype(name: &str, opcode: u32) -> (t: InstructionTemplate)
    requires
        opcode < 128,
    ensures
        t@ == spec_utype(name@, opcode),
        t@.wf(),
{
    let rd_op = rd();
    let imm20_op = imm20();
    proof {
        lemma_utype_wf(name@, opcode);
        assert(spec_operand_list(Some(&rd_op), Some(&imm20_op), None, None, None) =~= seq![spec_rd(), spec_imm20()]);
    }
    InstructionTemplate::new(name, opcode, 0x7f, Some(&rd_op), Some(&imm20_op), None, None, None)
}

/// A J-type template: `rd`, `jimm20`.
pub open spec fn spec_jtype(name: Seq<char>, opcode: u32) -> TemplateView {
    TemplateView {
        name,
        match_pattern: opcode,
        mask_pattern: 0x7fu32,
        operands: seq![spec_rd(), spec_jimm20()],
    }
}

proof fn lemma_jtype_wf(name: Seq<char>, opcode: u32)
    requires
        opcode < 128,
    ensures
        spec_jtype(name, opcode).wf(),
{
    lemma_field_masks();
    lemma_fields_disjoint();
    lemma_match_shapes();
    let t = spec_jtype(name, opcode);
    assert(t.operands[0] == spec_rd());
    assert(spec_rd().field_mask() == 0xf80u32);
    assert(t.operands[1] == spec_jimm20());
    assert(spec_jimm20().field_mask() == 0xfffff000u32);
    assert(t.match_pattern & t.mask_pattern == t.match_pattern);
    assert forall|i: int| 0 <= i < t.operands.len() implies (#[trigger] t.operands[i]).wf() by {
        assert(i == 0 || i == 1);
    }
    assert forall|i: int|
        0 <= i < t.operands.len() implies (#[trigger] t.operands[i]).field_mask() & t.mask_pattern
        == 0 by {
        assert(i == 0 || i == 1);
    }
    assert forall|i: int, j: int|
        #![trigger t.operands[i].disjoint_from(t.operands[j])]
        0 <= i < j < t.operands.len() implies t.operands[i].disjoint_from(t.operands[j]) by {
        assert((i == 0 && j == 1));
    }
}

fn make_jtype(name: &str, opcode: u32) -> (t: InstructionTemplate)
    requires
        opcode < 128,
    ensures
        t@ == spec_jtype(name@, opcode),
        t@.wf(),
{
    let rd_op = rd();
    let jimm20_op = jimm20();
    proof {
        lemma_jtype_wf(name@, opcode);
        assert(spec_operand_list(Some(&rd_op), Some(&jimm20_op), None, None, None) =~= seq![spec_rd(), spec_jimm20()]);
    }
    InstructionTemplate::new(name, opcode, 0x7f, Some(&rd_op), Some(&jimm20_op), None, None, None)
}

/// An I-type template: `rd`, `rs1`, `imm12`.
pub open spec fn spec_itype(name: Seq<char>, opcode: u32, funct3: u32) -> TemplateView {
    TemplateView {
        name,
        match_pattern: opcode | (funct3 << 12),
        mask_pattern: 0x707fu32,
        operands: seq![spec_rd(), spec_rs1(), spec_imm12()],
    }
}

proof fn lemma_itype_wf(name: Seq<char>, opcode: u32, funct3: u32)
    requires
        opcode < 128,
        funct3 < 8,
    ensures
        spec_itype(name, opcode, funct3).wf(),
{
    lemma_field_masks();
    lemma_fields_disjoint();
    lemma_match_shapes();
    let t = spec_itype(name, opcode, funct3);
    assert(t.operands[0] == spec_rd());
    assert(spec_rd().field_mask() == 0xf80u32);
    assert(t.operands[1] == spec_rs1());
    assert(spec_rs1().field_mask() == 0xf8000u32);
    assert(t.operands[2] == spec_imm12());
    assert(spec_imm12().field_mask() == 0xfff00000u32);
    assert(t.match_pattern & t.mask_pattern == t.match_pattern);
    assert forall|i: int| 0 <= i < t.operands.len() implies (#[trigger] t.operands[i]).wf() by {
        assert(i == 0 || i == 1 || i == 2);
    }
    assert forall|i: int|
        0 <= i < t.operands.len() implies (#[trigger] t.operands[i]).field_mask() & t.mask_pattern
        == 0 by {
        assert(i == 0 || i == 1 || i == 2);
    }
    assert forall|i: int, j: int|
        #![trigger t.operands[i].disjoint_from(t.operands[j])]
        0 <= i < j < t.operands.len() implies t.operands[i].disjoint_from(t.operands[j]) by {
        assert((i == 0 && j == 1) || (i == 0 && j == 2) || (i == 1 && j == 2));
    }
}

fn make_itype(name: &str, opcode: u32, funct3: u32) -> (t: InstructionTemplate)
    requires
        opcode < 128,
        funct3 < 8,
    ensures
        t@ == spec_itype(name@, opcode, funct3),
        t@.wf(),
{
    let rd_op = rd();
    let rs1_op = rs1();
    let imm12_op = imm12();
    proof {
        lemma_itype_wf(name@, opcode, funct3);
        assert(spec_operand_list(Some(&rd_op), Some(&rs1_op), Some(&imm12_op), None, None) =~= seq![spec_rd(), spec_rs1(), spec_imm12()]);
    }
    InstructionTemplate::new(name, opcode | (funct3 << 12), 0x707f, Some(&rd_op), Some(&rs1_op), Some(&imm12_op), None, None)
}

/// A B-type template: branch immediate halves around `rs1`, `rs2`.
pub open spec fn spec_btype(name: Seq<char>, opcode: u32, funct3: u32) -> TemplateView {
    TemplateView {
        name,
        match_pattern: opcode | (funct3 << 12),
        mask_pattern: 0x707fu32,
        operands: seq![spec_bimm12hi(), spec_rs1(), spec_rs2(), spec_bimm12lo()],
    }
}

proof fn lemma_btype_wf(name: Seq<char>, opcode: u32, funct3: u32)
    requires
        opcode < 128,
        funct3 < 8,
    ensures
        spec_btype(name, opcode, funct3).wf(),
{
    lemma_field_masks();
    lemma_fields_disjoint();
    lemma_match_shapes();
    let t = spec_btype(name, opcode, funct3);
    assert(t.operands[0] == spec_bimm12hi());
    assert(spec_bimm12hi().field_mask() == 0xfe000000u32);
    assert(t.operands[1] == spec_rs1());
    assert(spec_rs1().field_mask() == 0xf8000u32);
    assert(t.operands[2] == spec_rs2());
    assert(spec_rs2().field_mask() == 0x1f00000u32);
    assert(t.operands[3] == spec_bimm12lo());
    assert(spec_bimm12lo().field_mask() == 0xf80u32);
    assert(t.match_pattern & t.mask_pattern == t.match_pattern);
    assert forall|i: int| 0 <= i < t.operands.len() implies (#[trigger] t.operands[i]).wf() by {
        assert(i == 0 || i == 1 || i == 2 || i == 3);
    }
    assert forall|i: int|
        0 <= i < t.operands.len() implies (#[trigger] t.operands[i]).field_mask() & t.mask_pattern
        == 0 by {
        assert(i == 0 || i == 1 || i == 2 || i == 3);
    }
    assert forall|i: int, j: int|
        #![trigger t.operands[i].disjoint_from(t.operands[j])]
        0 <= i < j < t.operands.len() implies t.operands[i].disjoint_from(t.operands[j]) by {
        assert((i == 0 && j == 1) || (i == 0 && j == 2) || (i == 0 && j == 3) || (i == 1 && j == 2) || (i == 1 && j == 3) || (i == 2 && j == 3));
    }
}

fn make_btype(name: &str, opcode: u32, funct3: u32) -> (t: InstructionTemplate)
    requires
        opcode < 128,
        funct3 < 8,
    ensures
        t@ == spec_btype(name@, opcode, funct3),
        t@.wf(),
{
    let bimm12hi_op = bimm12hi();
    let rs1_op = rs1();
    let rs2_op = rs2();
    let bimm12lo_op = bimm12lo();
    proof {
        lemma_btype_wf(name@, opcode, funct3);
        assert(spec_operand_list(Some(&bimm12hi_op), Some(&rs1_op), Some(&rs2_op), Some(&bimm12lo_op), None) =~= seq![spec_bimm12hi(), spec_rs1(), spec_rs2(), spec_bimm12lo()]);
    }
    InstructionTemplate::new(name, opcode | (funct3 << 12), 0x707f, Some(&bimm12hi_op), Some(&rs1_op), Some(&rs2_op), Some(&bimm12lo_op), None)
}

/// An S-type template: store immediate halves around `rs1`, `rs2`.
pub open spec fn spec_stype(name: Seq<char>, opcode: u32, funct3: u32) -> TemplateView {
    TemplateView {
        name,
        match_pattern: opcode | (funct3 << 12),
        mask_pattern: 0x707fu32,
        operands: seq![spec_imm12hi(), spec_rs1(), spec_rs2(), spec_imm12lo()],
    }
}

proof fn lemma_stype_wf(name: Seq<char>, opcode: u32, funct3: u32)
    requires
        opcode < 128,
        funct3 < 8,
    ensures
        spec_stype(name, opcode, funct3).wf(),
{
    lemma_field_masks();
    lemma_fields_disjoint();
    lemma_match_shapes();
    let t = spec_stype(name, opcode, funct3);
    assert(t.operands[0] == spec_imm12hi());
    assert(spec_imm12hi().field_mask() == 0xfe000000u32);
    assert(t.operands[1] == spec_rs1());
    assert(spec_rs1().field_mask() == 0xf8000u32);
    assert(t.operands[2] == spec_rs2());
    assert(spec_rs2().field_mask() == 0x1f00000u32);
    assert(t.operands[3] == spec_imm12lo());
    assert(spec_imm12lo().field_mask() == 0xf80u32);
    assert(t.match_pattern & t.mask_pattern == t.match_pattern);
    assert forall|i: int| 0 <= i < t.operands.len() implies (#[trigger] t.operands[i]).wf() by {
        assert(i == 0 || i == 1 || i == 2 || i == 3);
    }
    assert forall|i: int|
        0 <= i < t.operands.len() implies (#[trigger] t.operands[i]).field_mask() & t.mask_pattern
        == 0 by {
        assert(i == 0 || i == 1 || i == 2 || i == 3);
    }
    assert forall|i: int, j: int|
        #![trigger t.operands[i].disjoint_from(t.operands[j])]
        0 <= i < j < t.operands.len() implies t.operands[i].disjoint_from(t.operands[j]) by {
        assert((i == 0 && j == 1) || (i == 0 && j == 2) || (i == 0 && j == 3) || (i == 1 && j == 2) || (i == 1 && j == 3) || (i == 2 && j == 3));
    }
}

fn make_stype(name: &str, opcode: u32, funct3: u32) -> (t: InstructionTemplate)
    requires
        opcode < 128,
        funct3 < 8,
    ensures
        t@ == spec_stype(name@, opcode, funct3),
        t@.wf(),
{
    let imm12hi_op = imm12hi();
    let rs1_op = rs1();
    let rs2_op = rs2();
    let imm12lo_op = imm12lo();
    proof {
        lemma_stype_wf(name@, opcode, funct3);
        assert(spec_operand_list(Some(&imm12hi_op), Some(&rs1_op), Some(&rs2_op), Some(&imm12lo_op), None) =~= seq![spec_imm12hi(), spec_rs1(), spec_rs2(), spec_imm12lo()]);
    }
    InstructionTemplate::new(name, opcode | (funct3 << 12), 0x707f, Some(&imm12hi_op), Some(&rs1_op), Some(&rs2_op), Some(&imm12lo_op), None)
}

/// The fence template: `fm`, `pred`, `succ`, `rs1`, `rd`.
pub open spec fn spec_fencetype(name: Seq<char>, opcode: u32, funct3: u32) -> TemplateView {
    TemplateView {
        name,
        match_pattern: opcode | (funct3 << 12),
        mask_pattern: 0x707fu32,
        operands: seq![spec_fm(), spec_pred(), spec_succ(), spec_rs1(), spec_rd()],
    }
}

proof fn lemma_fencetype_wf(name: Seq<char>, opcode: u32, funct3: u32)
    requires
        opcode < 128,
        funct3 < 8,
    ensures
        spec_fencetype(name, opcode, funct3).wf(),
{
    lemma_field_masks();
    lemma_fields_disjoint();
    lemma_match_shapes();
    let t = spec_fencetype(name, opcode, funct3);
    assert(t.operands[0] == spec_fm());
    assert(spec_fm().field_mask() == 0xf0000000u32);
    assert(t.operands[1] == spec_pred());
    assert(spec_pred().field_mask() == 0xf000000u32);
    assert(t.operands[2] == spec_succ());
    assert(spec_succ().field_mask() == 0xf00000u32);
    assert(t.operands[3] == spec_rs1());
    assert(spec_rs1().field_mask() == 0xf8000u32);
    assert(t.operands[4] == spec_rd());
    assert(spec_rd().field_mask() == 0xf80u32);
    assert(t.match_pattern & t.mask_pattern == t.match_pattern);
    assert forall|i: int| 0 <= i < t.operands.len() implies (#[trigger] t.operands[i]).wf() by {
        assert(i == 0 || i == 1 || i == 2 || i == 3 || i == 4);
    }
    assert forall|i: int|
        0 <= i < t.operands.len() implies (#[trigger] t.operands[i]).field_mask() & t.mask_pattern
        == 0 by {
        assert(i == 0 || i == 1 || i == 2 || i == 3 || i == 4);
    }
    assert forall|i: int, j: int|
        #![trigger t.operands[i].disjoint_from(t.operands[j])]
        0 <= i < j < t.operands.len() implies t.operands[i].disjoint_from(t.operands[j]) by {
        assert((i == 0 && j == 1) || (i == 0 && j == 2) || (i == 0 && j == 3) || (i == 0 && j == 4) || (i == 1 && j == 2) || (i == 1 && j == 3) || (i == 1 && j == 4) || (i == 2 && j == 3) || (i == 2 && j == 4) || (i == 3 && j == 4));
    }
}

fn make_fencetype(name: &str, opcode: u32, funct3: u32) -> (t: InstructionTemplate)
    requires
        opcode < 128,
        funct3 < 8,
    ensures
        t@ == spec_fencetype(name@, opcode, funct3),
        t@.wf(),
{
    let fm_op = fm();
    let pred_op = pred();
    let succ_op = succ();
    let rs1_op = rs1();
    let rd_op = rd();
    proof {
        lemma_fencetype_wf(name@, opcode, funct3);
        assert(spec_operand_list(Some(&fm_op), Some(&pred_op), Some(&succ_op), Some(&rs1_op), Some(&rd_op)) =~= seq![spec_fm(), spec_pred(), spec_succ(), spec_rs1(), spec_rd()]);
    }
    InstructionTemplate::new(name, opcode | (funct3 << 12), 0x707f, Some(&fm_op), Some(&pred_op), Some(&succ_op), Some(&rs1_op), Some(&rd_op))
}

/// An R-type template: `rd`, `rs1`, `rs2`.
pub open spec fn spec_rtype(name: Seq<char>, opcode: u32, funct3: u32, funct7: u32) -> TemplateView {
    TemplateView {
        name,
        match_pattern: opcode | (funct3 << 12) | (funct7 << 25),
        mask_pattern: 0xfe00707fu32,
        operands: seq![spec_rd(), spec_rs1(), spec_rs2()],
    }
}

proof fn lemma_rtype_wf(name: Seq<char>, opcode: u32, funct3: u32, funct7: u32)
    requires
        opcode < 128,
        funct3 < 8,
        funct7 < 128,
    ensures
        spec_rtype(name, opcode, funct3, funct7).wf(),
{
    lemma_field_masks();
    lemma_fields_disjoint();
    lemma_match_shapes();
    let t = spec_rtype(name, opcode, funct3, funct7);
    assert(t.operands[0] == spec_rd());
    assert(spec_rd().field_mask() == 0xf80u32);
    assert(t.operands[1] == spec_rs1());
    assert(spec_rs1().field_mask() == 0xf8000u32);
    assert(t.operands[2] == spec_rs2());
    assert(spec_rs2().field_mask() == 0x1f00000u32);
    assert(t.match_pattern & t.mask_pattern == t.match_pattern);
    assert forall|i: int| 0 <= i < t.operands.len() implies (#[trigger] t.operands[i]).wf() by {
        assert(i == 0 || i == 1 || i == 2);
    }
    assert forall|i: int|
        0 <= i < t.operands.len() implies (#[trigger] t.operands[i]).field_mask() & t.mask_pattern
        == 0 by {
        assert(i == 0 || i == 1 || i == 2);
    }
    assert forall|i: int, j: int|
        #![trigger t.operands[i].disjoint_from(t.operands[j])]
        0 <= i < j < t.operands.len() implies t.operands[i].disjoint_from(t.operands[j]) by {
        assert((i == 0 && j == 1) || (i == 0 && j == 2) || (i == 1 && j == 2));
    }
}

fn make_rtype(name: &str, opcode: u32, funct3: u32, funct7: u32) -> (t: InstructionTemplate)
    requires
        opcode < 128,
        funct3 < 8,
        funct7 < 128,
    ensures
        t@ == spec_rtype(name@, opcode, funct3, funct7),
        t@.wf(),
{
    let rd_op = rd();
    let rs1_op = rs1();
    let rs2_op = rs2();
    proof {
        lemma_rtype_wf(name@, opcode, funct3, funct7);
        assert(spec_operand_list(Some(&rd_op), Some(&rs1_op), Some(&rs2_op), None, None) =~= seq![spec_rd(), spec_rs1(), spec_rs2()]);
    }
    InstructionTemplate::new(name, opcode | (funct3 << 12) | (funct7 << 25), 0xfe00707f, Some(&rd_op), Some(&rs1_op), Some(&rs2_op), None, None)
}

/// A 64-bit shift-immediate template: `rd`, `rs1`, `shamtd`.
pub open spec fn spec_shift64type(name: Seq<char>, opcode: u32, funct3: u32, funct6: u32) -> TemplateView {
    TemplateView {
        name,
        match_pattern: opcode | (funct3 << 12) | (funct6 << 26),
        mask_pattern: 0xfc00707fu32,
        operands: seq![spec_rd(), spec_rs1(), spec_shamtd()],
    }
}

proof fn lemma_shift64type_wf(name: Seq<char>, opcode: u32, funct3: u32, funct6: u32)
    requires
        opcode < 128,
        funct3 < 8,
        funct6 < 64,
    ensures
        spec_shift64type(name, opcode, funct3, funct6).wf(),
{
    lemma_field_masks();
    lemma_fields_disjoint();
    lemma_match_shapes();
    let t = spec_shift64type(name, opcode, funct3, funct6);
    assert(t.operands[0] == spec_rd());
    assert(spec_rd().field_mask() == 0xf80u32);
    assert(t.operands[1] == spec_rs1());
    assert(spec_rs1().field_mask() == 0xf8000u32);
    assert(t.operands[2] == spec_shamtd());
    assert(spec_shamtd().field_mask() == 0x3f00000u32);
    assert(t.match_pattern & t.mask_pattern == t.match_pattern);
    assert forall|i: int| 0 <= i < t.operands.len() implies (#[trigger] t.operands[i]).wf() by {
        assert(i == 0 || i == 1 || i == 2);
    }
    assert forall|i: int|
        0 <= i < t.operands.len() implies (#[trigger] t.operands[i]).field_mask() & t.mask_pattern
        == 0 by {
        assert(i == 0 || i == 1 || i == 2);
    }
    assert forall|i: int, j: int|
        #![trigger t.operands[i].disjoint_from(t.operands[j])]
        0 <= i < j < t.operands.len() implies t.operands[i].disjoint_from(t.operands[j]) by {
        assert((i == 0 && j == 1) || (i == 0 && j == 2) || (i == 1 && j == 2));
    }
}

fn make_shift64type(name: &str, opcode: u32, funct3: u32, funct6: u32) -> (t: InstructionTemplate)
    requires
        opcode < 128,
        funct3 < 8,
        funct6 < 64,
    ensures
        t@ == spec_shift64type(name@, opcode, funct3, funct6),
        t@.wf(),
{
    let rd_op = rd();
    let rs1_op = rs1();
    let shamtd_op = shamtd();
    proof {
        lemma_shift64type_wf(name@, opcode, funct3, funct6);
        assert(spec_operand_list(Some(&rd_op), Some(&rs1_op), Some(&shamtd_op), None, None) =~= seq![spec_rd(), spec_rs1(), spec_shamtd()]);
    }
    InstructionTemplate::new(name, opcode | (funct3 << 12) | (funct6 << 26), 0xfc00707f, Some(&rd_op), Some(&rs1_op), Some(&shamtd_op), None, None)
}

/// A word shift-immediate template: `rd`, `rs1`, `shamtw`.
pub open spec fn spec_shiftwtype(name: Seq<char>, opcode: u32, funct3: u32, funct7: u32) -> TemplateView {
    TemplateView {
        name,
        match_pattern: opcode | (funct3 << 12) | (funct7 << 25),
        mask_pattern: 0xfe00707fu32,
        operands: seq![spec_rd(), spec_rs1(), spec_shamtw()],
    }
}

proof fn lemma_shiftwtype_wf(name: Seq<char>, opcode: u32, funct3: u32, funct7: u32)
    requires
        opcode < 128,
        funct3 < 8,
        funct7 < 128,
    ensures
        spec_shiftwtype(name, opcode, funct3, funct7).wf(),
{
    lemma_field_masks();
    lemma_fields_disjoint();
    lemma_match_shapes();
    let t = spec_shiftwtype(name, opcode, funct3, funct7);
    assert(t.operands[0] == spec_rd());
    assert(spec_rd().field_mask() == 0xf80u32);
    assert(t.operands[1] == spec_rs1());
    assert(spec_rs1().field_mask() == 0xf8000u32);
    assert(t.operands[2] == spec_shamtw());
    assert(spec_shamtw().field_mask() == 0x1f00000u32);
    assert(t.match_pattern & t.mask_pattern == t.match_pattern);
    assert forall|i: int| 0 <= i < t.operands.len() implies (#[trigger] t.operands[i]).wf() by {
        assert(i == 0 || i == 1 || i == 2);
    }
    assert forall|i: int|
        0 <= i < t.operands.len() implies (#[trigger] t.operands[i]).field_mask() & t.mask_pattern
        == 0 by {
        assert(i == 0 || i == 1 || i == 2);
    }
    assert forall|i: int, j: int|
        #![trigger t.operands[i].disjoint_from(t.operands[j])]
        0 <= i < j < t.operands.len() implies t.operands[i].disjoint_from(t.operands[j]) by {
        assert((i == 0 && j == 1) || (i == 0 && j == 2) || (i == 1 && j == 2));
    }
}

fn make_shiftwtype(name: &str, opcode: u32, funct3: u32, funct7: u32) -> (t: InstructionTemplate)
    requires
        opcode < 128,
        funct3 < 8,
        funct7 < 128,
    ensures
        t@ == spec_shiftwtype(name@, opcode, funct3, funct7),
        t@.wf(),
{
    let rd_op = rd();
    let rs1_op = rs1();
    let shamtw_op = shamtw();
    proof {
        lemma_shiftwtype_wf(name@, opcode, funct3, funct7);
        assert(spec_operand_list(Some(&rd_op), Some(&rs1_op), Some(&shamtw_op), None, None) =~= seq![spec_rd(), spec_rs1(), spec_shamtw()]);
    }
    InstructionTemplate::new(name, opcode | (funct3 << 12) | (funct7 << 25), 0xfe00707f, Some(&rd_op), Some(&rs1_op), Some(&shamtw_op), None, None)
}

/// A template without operands: every bit is fixed.
pub open spec fn spec_nullarytype(name: Seq<char>, word: u32) -> TemplateView {
    TemplateView {
        name,
        match_pattern: word,
        mask_pattern: 0xffffffffu32,
        operands: Seq::empty(),
    }
}

proof fn lemma_nullarytype_wf(name: Seq<char>, word: u32)
    ensures
        spec_nullarytype(name, word).wf(),
{
    lemma_field_masks();
    lemma_fields_disjoint();
    lemma_match_shapes();
    let t = spec_nullarytype(name, word);
    assert(t.match_pattern & t.mask_pattern == t.match_pattern);
}

fn make_nullarytype(name: &str, word: u32) -> (t: InstructionTemplate)
    ensures
        t@ == spec_nullarytype(name@, word),
        t@.wf(),
{
    proof {
        lemma_nullarytype_wf(name@, word);
        assert(spec_operand_list(None, None, None, None, None) =~= Seq::<ArgSpecView>::empty());
    }
    InstructionTemplate::new(name, word, 0xffffffff, None, None, None, None, None)
}

/// An atomic template: `rd`, `rs1`, `rs2`, `aq`, `rl`.
pub open spec fn spec_amotype(name: Seq<char>, opcode: u32, funct3: u32, funct5: u32) -> TemplateView {
    TemplateView {
        name,
        match_pattern: opcode | (funct3 << 12) | (funct5 << 27),
        mask_pattern: 0xf800707fu32,
        operands: seq![spec_rd(), spec_rs1(), spec_rs2(), spec_aq(), spec_rl()],
    }
}

proof fn lemma_amotype_wf(name: Seq<char>, opcode: u32, funct3: u32, funct5: u32)
    requires
        opcode < 128,
        funct3 < 8,
        funct5 < 32,
    ensures
        spec_amotype(name, opcode, funct3, funct5).wf(),
{
    lemma_field_masks();
    lemma_fields_disjoint();
    lemma_match_shapes();
    let t = spec_amotype(name, opcode, funct3, funct5);
    assert(t.operands[0] == spec_rd());
    assert(spec_rd().field_mask() == 0xf80u32);
    assert(t.operands[1] == spec_rs1());
    assert(spec_rs1().field_mask() == 0xf8000u32);
    assert(t.operands[2] == spec_rs2());
    assert(spec_rs2().field_mask() == 0x1f00000u32);
    assert(t.operands[3] == spec_aq());
    assert(spec_aq().field_mask() == 0x4000000u32);
    assert(t.operands[4] == spec_rl());
    assert(spec_rl().field_mask() == 0x2000000u32);
    assert(t.match_pattern & t.mask_pattern == t.match_pattern);
    assert forall|i: int| 0 <= i < t.operands.len() implies (#[trigger] t.operands[i]).wf() by {
        assert(i == 0 || i == 1 || i == 2 || i == 3 || i == 4);
    }
    assert forall|i: int|
        0 <= i < t.operands.len() implies (#[trigger] t.operands[i]).field_mask() & t.mask_pattern
        == 0 by {
        assert(i == 0 || i == 1 || i == 2 || i == 3 || i == 4);
    }
    assert forall|i: int, j: int|
        #![trigger t.operands[i].disjoint_from(t.operands[j])]
        0 <= i < j < t.operands.len() implies t.operands[i].disjoint_from(t.operands[j]) by {
        assert((i == 0 && j == 1) || (i == 0 && j == 2) || (i == 0 && j == 3) || (i == 0 && j == 4) || (i == 1 && j == 2) || (i == 1 && j == 3) || (i == 1 && j == 4) || (i == 2 && j == 3) || (i == 2 && j == 4) || (i == 3 && j == 4));
    }
}

fn make_amotype(name: &str, opcode: u32, funct3: u32, funct5: u32) -> (t: InstructionTemplate)
    requires
        opcode < 128,
        funct3 < 8,
        funct5 < 32,
    ensures
        t@ == spec_amotype(name@, opcode, funct3, funct5),
        t@.wf(),
{
    let rd_op = rd();
    let rs1_op = rs1();
    let rs2_op = rs2();
    let aq_op = aq();
    let rl_op = rl();
    proof {
        lemma_amotype_wf(name@, opcode, funct3, funct5);
        assert(spec_operand_list(Some(&rd_op), Some(&rs1_op), Some(&rs2_op), Some(&aq_op), Some(&rl_op)) =~= seq![spec_rd(), spec_rs1(), spec_rs2(), spec_aq(), spec_rl()]);
    }
    InstructionTemplate::new(name, opcode | (funct3 << 12) | (funct5 << 27), 0xf800707f, Some(&rd_op), Some(&rs1_op), Some(&rs2_op), Some(&aq_op), Some(&rl_op))
}

/// A load-reserved template: `rd`, `rs1`, `aq`, `rl`.
pub open spec fn spec_lrtype(name: Seq<char>, opcode: u32, funct3: u32, funct5: u32) -> TemplateView {
    TemplateView {
        name,
        match_pattern: opcode | (funct3 << 12) | (funct5 << 27),
        mask_pattern: 0xf9f0707fu32,
        operands: seq![spec_rd(), spec_rs1(), spec_aq(), spec_rl()],
    }
}

proof fn lemma_lrtype_wf(name: Seq<char>, opcode: u32, funct3: u32, funct5: u32)
    requires
        opcode < 128,
        funct3 < 8,
        funct5 < 32,
    ensures
        spec_lrtype(name, opcode, funct3, funct5).wf(),
{
    lemma_field_masks();
    lemma_fields_disjoint();
    lemma_match_shapes();
    let t = spec_lrtype(name, opcode, funct3, funct5);
    assert(t.operands[0] == spec_rd());
    assert(spec_rd().field_mask() == 0xf80u32);
    assert(t.operands[1] == spec_rs1());
    assert(spec_rs1().field_mask() == 0xf8000u32);
    assert(t.operands[2] == spec_aq());
    assert(spec_aq().field_mask() == 0x4000000u32);
    assert(t.operands[3] == spec_rl());
    assert(spec_rl().field_mask() == 0x2000000u32);
    assert(t.match_pattern & t.mask_pattern == t.match_pattern);
    assert forall|i: int| 0 <= i < t.operands.len() implies (#[trigger] t.operands[i]).wf() by {
        assert(i == 0 || i == 1 || i == 2 || i == 3);
    }
    assert forall|i: int|
        0 <= i < t.operands.len() implies (#[trigger] t.operands[i]).field_mask() & t.mask_pattern
        == 0 by {
        assert(i == 0 || i == 1 || i == 2 || i == 3);
    }
    assert forall|i: int, j: int|
        #![trigger t.operands[i].disjoint_from(t.operands[j])]
        0 <= i < j < t.operands.len() implies t.operands[i].disjoint_from(t.operands[j]) by {
        assert((i == 0 && j == 1) || (i == 0 && j == 2) || (i == 0 && j == 3) || (i == 1 && j == 2) || (i == 1 && j == 3) || (i == 2 && j == 3));
    }
}

fn make_lrtype(name: &str, opcode: u32, funct3: u32, funct5: u32) -> (t: InstructionTemplate)
    requires
        opcode < 128,
        funct3 < 8,
        funct5 < 32,
    ensures
        t@ == spec_lrtype(name@, opcode, funct3, funct5),
        t@.wf(),
{
    let rd_op = rd();
    let rs1_op = rs1();
    let aq_op = aq();
    let rl_op = rl();
    proof {
        lemma_lrtype_wf(name@, opcode, funct3, funct5);
        assert(spec_operand_list(Some(&rd_op), Some(&rs1_op), Some(&aq_op), Some(&rl_op), None) =~= seq![spec_rd(), spec_rs1(), spec_aq(), spec_rl()]);
    }
    InstructionTemplate::new(name, opcode | (funct3 << 12) | (funct5 << 27), 0xf9f0707f, Some(&rd_op), Some(&rs1_op), Some(&aq_op), Some(&rl_op), None)
}

/// A fused-multiply template: `rd`, `rs1`, `rs2`, `rs3`, `rm`.
pub open spec fn spec_r4type(name: Seq<char>, opcode: u32, fmt: u32) -> TemplateView {
    TemplateView {
        name,
        match_pattern: opcode | (fmt << 25),
        mask_pattern: 0x600007fu32,
        operands: seq![spec_rd(), spec_rs1(), spec_rs2(), spec_rs3(), spec_rm()],
    }
}

proof fn lemma_r4type_wf(name: Seq<char>, opcode: u32, fmt: u32)
    requires
        opcode < 128,
        fmt < 4,
    ensures
        spec_r4type(name, opcode, fmt).wf(),
{
    lemma_field_masks();
    lemma_fields_disjoint();
    lemma_match_shapes();
    let t = spec_r4type(name, opcode, fmt);
    assert(t.operands[0] == spec_rd());
    assert(spec_rd().field_mask() == 0xf80u32);
    assert(t.operands[1] == spec_rs1());
    assert(spec_rs1().field_mask() == 0xf8000u32);
    assert(t.operands[2] == spec_rs2());
    assert(spec_rs2().field_mask() == 0x1f00000u32);
    assert(t.operands[3] == spec_rs3());
    assert(spec_rs3().field_mask() == 0xf8000000u32);
    assert(t.operands[4] == spec_rm());
    assert(spec_rm().field_mask() == 0x7000u32);
    assert(t.match_pattern & t.mask_pattern == t.match_pattern);
    assert forall|i: int| 0 <= i < t.operands.len() implies (#[trigger] t.operands[i]).wf() by {
        assert(i == 0 || i == 1 || i == 2 || i == 3 || i == 4);
    }
    assert forall|i: int|
        0 <= i < t.operands.len() implies (#[trigger] t.operands[i]).field_mask() & t.mask_pattern
        == 0 by {
        assert(i == 0 || i == 1 || i == 2 || i == 3 || i == 4);
    }
    assert forall|i: int, j: int|
        #![trigger t.operands[i].disjoint_from(t.operands[j])]
        0 <= i < j < t.operands.len() implies t.operands[i].disjoint_from(t.operands[j]) by {
        assert((i == 0 && j == 1) || (i == 0 && j == 2) || (i == 0 && j == 3) || (i == 0 && j == 4) || (i == 1 && j == 2) || (i == 1 && j == 3) || (i == 1 && j == 4) || (i == 2 && j == 3) || (i == 2 && j == 4) || (i == 3 && j == 4));
    }
}

fn make_r4type(name: &str, opcode: u32, fmt: u32) -> (t: InstructionTemplate)
    requires
        opcode < 128,
        fmt < 4,
    ensures
        t@ == spec_r4type(name@, opcode, fmt),
        t@.wf(),
{
    let rd_op = rd();
    let rs1_op = rs1();
    let rs2_op = rs2();
    let rs3_op = rs3();
    let rm_op = rm();
    proof {
        lemma_r4type_wf(name@, opcode, fmt);
        assert(spec_operand_list(Some(&rd_op), Some(&rs1_op), Some(&rs2_op), Some(&rs3_op), Some(&rm_op)) =~= seq![spec_rd(), spec_rs1(), spec_rs2(), spec_rs3(), spec_rm()]);
    }
    InstructionTemplate::new(name, opcode | (fmt << 25), 0x600007f, Some(&rd_op), Some(&rs1_op), Some(&rs2_op), Some(&rs3_op), Some(&rm_op))
}

/// A rounded binary float template: `rd`, `rs1`, `rs2`, `rm`.
pub open spec fn spec_rrmtype(name: Seq<char>, opcode: u32, funct7: u32) -> TemplateView {
    TemplateView {
        name,
        match_pattern: opcode | (funct7 << 25),
        mask_pattern: 0xfe00007fu32,
        operands: seq![spec_rd(), spec_rs1(), spec_rs2(), spec_rm()],
    }
}

proof fn lemma_rrmtype_wf(name: Seq<char>, opcode: u32, funct7: u32)
    requires
        opcode < 128,
        funct7 < 128,
    ensures
        spec_rrmtype(name, opcode, funct7).wf(),
{
    lemma_field_masks();
    lemma_fields_disjoint();
    lemma_match_shapes();
    let t = spec_rrmtype(name, opcode, funct7);
    assert(t.operands[0] == spec_rd());
    assert(spec_rd().field_mask() == 0xf80u32);
    assert(t.operands[1] == spec_rs1());
    assert(spec_rs1().field_mask() == 0xf8000u32);
    assert(t.operands[2] == spec_rs2());
    assert(spec_rs2().field_mask() == 0x1f00000u32);
    assert(t.operands[3] == spec_rm());
    assert(spec_rm().field_mask() == 0x7000u32);
    assert(t.match_pattern & t.mask_pattern == t.match_pattern);
    assert forall|i: int| 0 <= i < t.operands.len() implies (#[trigger] t.operands[i]).wf() by {
        assert(i == 0 || i == 1 || i == 2 || i == 3);
    }
    assert forall|i: int|
        0 <= i < t.operands.len() implies (#[trigger] t.operands[i]).field_mask() & t.mask_pattern
        == 0 by {
        assert(i == 0 || i == 1 || i == 2 || i == 3);
    }
    assert forall|i: int, j: int|
        #![trigger t.operands[i].disjoint_from(t.operands[j])]
        0 <= i < j < t.operands.len() implies t.operands[i].disjoint_from(t.operands[j]) by {
        assert((i == 0 && j == 1) || (i == 0 && j == 2) || (i == 0 && j == 3) || (i == 1 && j == 2) || (i == 1 && j == 3) || (i == 2 && j == 3));
    }
}

fn make_rrmtype(name: &str, opcode: u32, funct7: u32) -> (t: InstructionTemplate)
    requires
        opcode < 128,
        funct7 < 128,
    ensures
        t@ == spec_rrmtype(name@, opcode, funct7),
        t@.wf(),
{
    let rd_op = rd();
    let rs1_op = rs1();
    let rs2_op = rs2();
    let rm_op = rm();
    proof {
        lemma_rrmtype_wf(name@, opcode, funct7);
        assert(spec_operand_list(Some(&rd_op), Some(&rs1_op), Some(&rs2_op), Some(&rm_op), None) =~= seq![spec_rd(), spec_rs1(), spec_rs2(), spec_rm()]);
    }
    InstructionTemplate::new(name, opcode | (funct7 << 25), 0xfe00007f, Some(&rd_op), Some(&rs1_op), Some(&rs2_op), Some(&rm_op), None)
}

/// A rounded unary float template: `rd`, `rs1`, `rm`.
pub open spec fn spec_r2rmtype(name: Seq<char>, opcode: u32, funct7: u32, rs2val: u32) -> TemplateView {
    TemplateView {
        name,
        match_pattern: opcode | (rs2val << 20) | (funct7 << 25),
        mask_pattern: 0xfff0007fu32,
        operands: seq![spec_rd(), spec_rs1(), spec_rm()],
    }
}

proof fn lemma_r2rmtype_wf(name: Seq<char>, opcode: u32, funct7: u32, rs2val: u32)
    requires
        opcode < 128,
        funct7 < 128,
        rs2val < 32,
    ensures
        spec_r2rmtype(name, opcode, funct7, rs2val).wf(),
{
    lemma_field_masks();
    lemma_fields_disjoint();
    lemma_match_shapes();
    let t = spec_r2rmtype(name, opcode, funct7, rs2val);
    assert(t.operands[0] == spec_rd());
    assert(spec_rd().field_mask() == 0xf80u32);
    assert(t.operands[1] == spec_rs1());
    assert(spec_rs1().field_mask() == 0xf8000u32);
    assert(t.operands[2] == spec_rm());
    assert(spec_rm().field_mask() == 0x7000u32);
    assert(t.match_pattern & t.mask_pattern == t.match_pattern);
    assert forall|i: int| 0 <= i < t.operands.len() implies (#[trigger] t.operands[i]).wf() by {
        assert(i == 0 || i == 1 || i == 2);
    }
    assert forall|i: int|
        0 <= i < t.operands.len() implies (#[trigger] t.operands[i]).field_mask() & t.mask_pattern
        == 0 by {
        assert(i == 0 || i == 1 || i == 2);
    }
    assert forall|i: int, j: int|
        #![trigger t.operands[i].disjoint_from(t.operands[j])]
        0 <= i < j < t.operands.len() implies t.operands[i].disjoint_from(t.operands[j]) by {
        assert((i == 0 && j == 1) || (i == 0 && j == 2) || (i == 1 && j == 2));
    }
}

fn make_r2rmtype(name: &str, opcode: u32, funct7: u32, rs2val: u32) -> (t: InstructionTemplate)
    requires
        opcode < 128,
        funct7 < 128,
        rs2val < 32,
    ensures
        t@ == spec_r2rmtype(name@, opcode, funct7, rs2val),
        t@.wf(),
{
    let rd_op = rd();
    let rs1_op = rs1();
    let rm_op = rm();
    proof {
        lemma_r2rmtype_wf(name@, opcode, funct7, rs2val);
        assert(spec_operand_list(Some(&rd_op), Some(&rs1_op), Some(&rm_op), None, None) =~= seq![spec_rd(), spec_rs1(), spec_rm()]);
    }
    InstructionTemplate::new(name, opcode | (rs2val << 20) | (funct7 << 25), 0xfff0007f, Some(&rd_op), Some(&rs1_op), Some(&rm_op), None, None)
}

/// A move or classify float template: `rd`, `rs1`.
pub open spec fn spec_r2type(name: Seq<char>, opcode: u32, funct3: u32, funct7: u32, rs2val: u32) -> TemplateView {
    TemplateView {
        name,
        match_pattern: opcode | (funct3 << 12) | (rs2val << 20) | (funct7 << 25),
        mask_pattern: 0xfff0707fu32,
        operands: seq![spec_rd(), spec_rs1()],
    }
}

proof fn lemma_r2type_wf(name: Seq<char>, opcode: u32, funct3: u32, funct7: u32, rs2val: u32)
    requires
        opcode < 128,
        funct3 < 8,
        funct7 < 128,
        rs2val < 32,
    ensures
        spec_r2type(name, opcode, funct3, funct7, rs2val).wf(),
{
    lemma_field_masks();
    lemma_fields_disjoint();
    lemma_match_shapes();
    let t = spec_r2type(name, opcode, funct3, funct7, rs2val);
    assert(t.operands[0] == spec_rd());
    assert(spec_rd().field_mask() == 0xf80u32);
    assert(t.operands[1] == spec_rs1());
    assert(spec_rs1().field_mask() == 0xf8000u32);
    assert(t.match_pattern & t.mask_pattern == t.match_pattern);
    assert forall|i: int| 0 <= i < t.operands.len() implies (#[trigger] t.operands[i]).wf() by {
        assert(i == 0 || i == 1);
    }
    assert forall|i: int|
        0 <= i < t.operands.len() implies (#[trigger] t.operands[i]).field_mask() & t.mask_pattern
        == 0 by {
        assert(i == 0 || i == 1);
    }
    assert forall|i: int, j: int|
        #![trigger t.operands[i].disjoint_from(t.operands[j])]
        0 <= i < j < t.operands.len() implies t.operands[i].disjoint_from(t.operands[j]) by {
        assert((i == 0 && j == 1));
    }
}

fn make_r2type(name: &str, opcode: u32, funct3: u32, funct7: u32, rs2val: u32) -> (t: InstructionTemplate)
    requires
        opcode < 128,
        funct3 < 8,
        funct7 < 128,
        rs2val < 32,
    ensures
        t@ == spec_r2type(name@, opcode, funct3, funct7, rs2val),
        t@.wf(),
{
    let rd_op = rd();
    let rs1_op = rs1();
    proof {
        lemma_r2type_wf(name@, opcode, funct3, funct7, rs2val);
        assert(spec_operand_list(Some(&rd_op), Some(&rs1_op), None, None, None) =~= seq![spec_rd(), spec_rs1()]);
    }
    InstructionTemplate::new(name, opcode | (funct3 << 12) | (rs2val << 20) | (funct7 << 25), 0xfff0707f, Some(&rd_op), Some(&rs1_op), None, None, None)
}

// ---------------------------------------------------------------------------
// Pinned templates: the three instructions the mutations build directly
// ---------------------------------------------------------------------------

/// Concrete bit facts about the pinned templates' field masks and patterns.
proof fn lemma_pinned_bits()
    by (bit_vector)
    ensures
        0x13u32 & 0x707fu32 == 0x13u32,
        0x67u32 & 0x707fu32 == 0x67u32,
        0x17u32 & 0x7fu32 == 0x17u32,
{
}

/// The `addi` template: I-type, opcode `0x13`, funct3 `000`.
pub open spec fn spec_addi() -> TemplateView {
    TemplateView {
        name: "addi"@,
        match_pattern: 0x13u32,
        mask_pattern: 0x707fu32,
        operands: seq![spec_rd(), spec_rs1(), spec_imm12()],
    }
}

/// The `auipc` template: U-type, opcode `0x17`.
pub open spec fn spec_auipc() -> TemplateView {
    TemplateView {
        name: "auipc"@,
        match_pattern: 0x17u32,
        mask_pattern: 0x7fu32,
        operands: seq![spec_rd(), spec_imm20()],
    }
}

/// The `jalr` template: I-type, opcode `0x67`, funct3 `000`.
pub open spec fn spec_jalr() -> TemplateView {
    TemplateView {
        name: "jalr"@,
        match_pattern: 0x67u32,
        mask_pattern: 0x707fu32,
        operands: seq![spec_rd(), spec_rs1(), spec_imm12()],
    }
}

/// An I-type template with a literal match pattern within `0x707f` is well
/// formed.
proof fn lemma_literal_itype_wf(t: TemplateView)
    requires
        t.match_pattern & 0x707fu32 == t.match_pattern,
        t.mask_pattern == 0x707fu32,
        t.operands == seq![spec_rd(), spec_rs1(), spec_imm12()],
    ensures
        t.wf(),
{
    lemma_field_masks();
    lemma_fields_disjoint();
    assert(t.operands[0] == spec_rd());
    assert(t.operands[1] == spec_rs1());
    assert(t.operands[2] == spec_imm12());
    assert(spec_rd().field_mask() == 0xf80u32);
    assert(spec_rs1().field_mask() == 0xf8000u32);
    assert(spec_imm12().field_mask() == 0xfff00000u32);
    assert forall|i: int| 0 <= i < t.operands.len() implies (#[trigger] t.operands[i]).wf() by {
        assert(i == 0 || i == 1 || i == 2);
    }
    assert forall|i: int|
        0 <= i < t.operands.len() implies (#[trigger] t.operands[i]).field_mask() & t.mask_pattern
        == 0 by {
        assert(i == 0 || i == 1 || i == 2);
    }
    assert forall|i: int, j: int|
        #![trigger t.operands[i].disjoint_from(t.operands[j])]
        0 <= i < j < t.operands.len() implies t.operands[i].disjoint_from(t.operands[j]) by {
        assert((i == 0 && j == 1) || (i == 0 && j == 2) || (i == 1 && j == 2));
    }
}

/// A U-type template with a literal match pattern within `0x7f` is well
/// formed.
proof fn lemma_literal_utype_wf(t: TemplateView)
    requires
        t.match_pattern & 0x7fu32 == t.match_pattern,
        t.mask_pattern == 0x7fu32,
        t.operands == seq![spec_rd(), spec_imm20()],
    ensures
        t.wf(),
{
    lemma_field_masks();
    lemma_fields_disjoint();
    assert(t.operands[0] == spec_rd());
    assert(t.operands[1] == spec_imm20());
    assert(spec_rd().field_mask() == 0xf80u32);
    assert(spec_imm20().field_mask() == 0xfffff000u32);
    assert forall|i: int| 0 <= i < t.operands.len() implies (#[trigger] t.operands[i]).wf() by {
        assert(i == 0 || i == 1);
    }
    assert forall|i: int|
        0 <= i < t.operands.len() implies (#[trigger] t.operands[i]).field_mask() & t.mask_pattern
        == 0 by {
        assert(i == 0 || i == 1);
    }
    assert forall|i: int, j: int|
        #![trigger t.operands[i].disjoint_from(t.operands[j])]
        0 <= i < j < t.operands.len() implies t.operands[i].disjoint_from(t.operands[j]) by {
        assert(i == 0 && j == 1);
    }
}

/// Builds the `addi` template.
pub fn addi_template() -> (t: InstructionTemplate)
    ensures
        t@ == spec_addi(),
        t@.wf(),
{
    let rd_op = rd();
    let rs1_op = rs1();
    let imm12_op = imm12();
    proof {
        assert(spec_operand_list(Some(&rd_op), Some(&rs1_op), Some(&imm12_op), None, None) =~= seq![
            spec_rd(),
            spec_rs1(),
            spec_imm12(),
        ]);
        lemma_pinned_bits();
        lemma_literal_itype_wf(
            TemplateView {
                name: "addi"@,
                match_pattern: 0x13u32,
                mask_pattern: 0x707fu32,
                operands: spec_operand_list(Some(&rd_op), Some(&rs1_op), Some(&imm12_op), None, None),
            },
        );
    }
    InstructionTemplate::new(
        "addi",
        0x13,
        0x707f,
        Some(&rd_op),
        Some(&rs1_op),
        Some(&imm12_op),
        None,
        None,
    )
}

/// Builds the `auipc` template.
pub fn auipc_template() -> (t: InstructionTemplate)
    ensures
        t@ == spec_auipc(),
        t@.wf(),
{
    let rd_op = rd();
    let imm20_op = imm20();
    proof {
        assert(spec_operand_list(Some(&rd_op), Some(&imm20_op), None, None, None) =~= seq![
            spec_rd(),
            spec_imm20(),
        ]);
        lemma_pinned_bits();
        lemma_literal_utype_wf(
            TemplateView {
                name: "auipc"@,
                match_pattern: 0x17u32,
                mask_pattern: 0x7fu32,
                operands: spec_operand_list(Some(&rd_op), Some(&imm20_op), None, None, None),
            },
        );
    }
    InstructionTemplate::new("auipc", 0x17, 0x7f, Some(&rd_op), Some(&imm20_op), None, None, None)
}

/// Builds the `jalr` template.
pub fn jalr_template() -> (t: InstructionTemplate)
    ensures
        t@ == spec_jalr(),
        t@.wf(),
{
    let rd_op = rd();
    let rs1_op = rs1();
    let imm12_op = imm12();
    proof {
        assert(spec_operand_list(Some(&rd_op), Some(&rs1_op), Some(&imm12_op), None, None) =~= seq![
            spec_rd(),
            spec_rs1(),
            spec_imm12(),
        ]);
        lemma_pinned_bits();
        lemma_literal_itype_wf(
            TemplateView {
                name: "jalr"@,
                match_pattern: 0x67u32,
                mask_pattern: 0x707fu32,
                operands: spec_operand_list(Some(&rd_op), Some(&rs1_op), Some(&imm12_op), None, None),
            },
        );
    }
    InstructionTemplate::new(
        "jalr",
        0x67,
        0x707f,
        Some(&rd_op),
        Some(&rs1_op),
        Some(&imm12_op),
        None,
        None,
    )
}

// ---------------------------------------------------------------------------
// Extension tables
// ---------------------------------------------------------------------------

/// Appends one well-formed template.
fn push_template(v: &mut Vec<InstructionTemplate>, t: InstructionTemplate)
    requires
        t@.wf(),
    ensures
        final(v)@.len() == old(v)@.len() + 1,
        views_of(final(v)@) == views_of(old(v)@).push(t@),
        templates_wf(old(v)@) ==> templates_wf(final(v)@),
{
    v.push(t);
    proof {
        assert(views_of(v@) =~= views_of(old(v)@).push(t@));
        if templates_wf(old(v)@) {
            assert forall|i: int| 0 <= i < v@.len() implies (#[trigger] v@[i])@.wf() by {
                if i < old(v)@.len() {
                    assert(v@[i] == old(v)@[i]);
                } else {
                    assert(v@[i] == t);
                }
            }
        }
    }
}

/// The mathematical templates of the RV32-I base integer instructions.
pub open spec fn spec_rv_i() -> Seq<TemplateView> {
    seq![
        spec_utype("lui"@, 0x37),
        spec_auipc(),
        spec_jtype("jal"@, 0x6f),
        spec_jalr(),
        spec_btype("beq"@, 0x63, 0x0),
        spec_btype("bne"@, 0x63, 0x1),
        spec_btype("blt"@, 0x63, 0x4),
        spec_btype("bge"@, 0x63, 0x5),
        spec_btype("bltu"@, 0x63, 0x6),
        spec_btype("bgeu"@, 0x63, 0x7),
        spec_itype("lb"@, 0x3, 0x0),
        spec_itype("lh"@, 0x3, 0x1),
        spec_itype("lw"@, 0x3, 0x2),
        spec_itype("lbu"@, 0x3, 0x4),
        spec_itype("lhu"@, 0x3, 0x5),
        spec_stype("sb"@, 0x23, 0x0),
        spec_stype("sh"@, 0x23, 0x1),
        spec_stype("sw"@, 0x23, 0x2),
        spec_addi(),
        spec_itype("slti"@, 0x13, 0x2),
        spec_itype("sltiu"@, 0x13, 0x3),
        spec_itype("xori"@, 0x13, 0x4),
        spec_itype("ori"@, 0x13, 0x6),
        spec_itype("andi"@, 0x13, 0x7),
        spec_rtype("add"@, 0x33, 0x0, 0x0),
        spec_rtype("sub"@, 0x33, 0x0, 0x20),
        spec_rtype("sll"@, 0x33, 0x1, 0x0),
        spec_rtype("slt"@, 0x33, 0x2, 0x0),
        spec_rtype("sltu"@, 0x33, 0x3, 0x0),
        spec_rtype("xor"@, 0x33, 0x4, 0x0),
        spec_rtype("srl"@, 0x33, 0x5, 0x0),
        spec_rtype("sra"@, 0x33, 0x5, 0x20),
        spec_rtype("or"@, 0x33, 0x6, 0x0),
        spec_rtype("and"@, 0x33, 0x7, 0x0),
        spec_fencetype("fence"@, 0xf, 0x0),
        spec_nullarytype("ecall"@, 0x73),
        spec_nullarytype("ebreak"@, 0x100073),
    ]
}

/// Templates of the RV32-I base integer instructions.
#[verifier::rlimit(100)]
pub fn rv_i() -> (r: Vec<InstructionTemplate>)
    ensures
        views_of(r@) == spec_rv_i(),
        r@.len() == 37,
        templates_wf(r@),
        contains_template(r@, spec_addi()),
        contains_template(r@, spec_auipc()),
        contains_template(r@, spec_jalr()),
{
    let mut v: Vec<InstructionTemplate> = Vec::new();
    push_template(&mut v, make_utype("lui", 0x37));
    push_template(&mut v, auipc_template());
    push_template(&mut v, make_jtype("jal", 0x6f));
    push_template(&mut v, jalr_template());
    push_template(&mut v, make_btype("beq", 0x63, 0x0));
    push_template(&mut v, make_btype("bne", 0x63, 0x1));
    push_template(&mut v, make_btype("blt", 0x63, 0x4));
    push_template(&mut v, make_btype("bge", 0x63, 0x5));
    push_template(&mut v, make_btype("bltu", 0x63, 0x6));
    push_template(&mut v, make_btype("bgeu", 0x63, 0x7));
    push_template(&mut v, make_itype("lb", 0x3, 0x0));
    push_template(&mut v, make_itype("lh", 0x3, 0x1));
    push_template(&mut v, make_itype("lw", 0x3, 0x2));
    push_template(&mut v, make_itype("lbu", 0x3, 0x4));
    push_template(&mut v, make_itype("lhu", 0x3, 0x5));
    push_template(&mut v, make_stype("sb", 0x23, 0x0));
    push_template(&mut v, make_stype("sh", 0x23, 0x1));
    push_template(&mut v, make_stype("sw", 0x23, 0x2));
    push_template(&mut v, addi_template());
    push_template(&mut v, make_itype("slti", 0x13, 0x2));
    push_template(&mut v, make_itype("sltiu", 0x13, 0x3));
    push_template(&mut v, make_itype("xori", 0x13, 0x4));
    push_template(&mut v, make_itype("ori", 0x13, 0x6));
    push_template(&mut v, make_itype("andi", 0x13, 0x7));
    push_template(&mut v, make_rtype("add", 0x33, 0x0, 0x0));
    push_template(&mut v, make_rtype("sub", 0x33, 0x0, 0x20));
    push_template(&mut v, make_rtype("sll", 0x33, 0x1, 0x0));
    push_template(&mut v, make_rtype("slt", 0x33, 0x2, 0x0));
    push_template(&mut v, make_rtype("sltu", 0x33, 0x3, 0x0));
    push_template(&mut v, make_rtype("xor", 0x33, 0x4, 0x0));
    push_template(&mut v, make_rtype("srl", 0x33, 0x5, 0x0));
    push_template(&mut v, make_rtype("sra", 0x33, 0x5, 0x20));
    push_template(&mut v, make_rtype("or", 0x33, 0x6, 0x0));
    push_template(&mut v, make_rtype("and", 0x33, 0x7, 0x0));
    push_template(&mut v, make_fencetype("fence", 0xf, 0x0));
    push_template(&mut v, make_nullarytype("ecall", 0x73));
    push_template(&mut v, make_nullarytype("ebreak", 0x100073));
    proof {
        assert(views_of(v@) =~= spec_rv_i());
        assert(v@[1]@ == spec_auipc());
        assert(v@[3]@ == spec_jalr());
        assert(v@[18]@ == spec_addi());
    }
    v
}

/// The mathematical templates of the RV64-I additions.
pub open spec fn spec_rv64_i() -> Seq<TemplateView> {
    seq![
        spec_itype("lwu"@, 0x3, 0x6),
        spec_itype("ld"@, 0x3, 0x3),
        spec_stype("sd"@, 0x23, 0x3),
        spec_shift64type("slli"@, 0x13, 0x1, 0x0),
        spec_shift64type("srli"@, 0x13, 0x5, 0x0),
        spec_shift64type("srai"@, 0x13, 0x5, 0x10),
        spec_itype("addiw"@, 0x1b, 0x0),
        spec_shiftwtype("slliw"@, 0x1b, 0x1, 0x0),
        spec_shiftwtype("srliw"@, 0x1b, 0x5, 0x0),
        spec_shiftwtype("sraiw"@, 0x1b, 0x5, 0x20),
        spec_rtype("addw"@, 0x3b, 0x0, 0x0),
        spec_rtype("subw"@, 0x3b, 0x0, 0x20),
        spec_rtype("sllw"@, 0x3b, 0x1, 0x0),
        spec_rtype("srlw"@, 0x3b, 0x5, 0x0),
        spec_rtype("sraw"@, 0x3b, 0x5, 0x20),
    ]
}

/// Templates of the RV64-I additions.
#[verifier::rlimit(100)]
pub fn rv64_i() -> (r: Vec<InstructionTemplate>)
    ensures
        views_of(r@) == spec_rv64_i(),
        r@.len() == 15,
        templates_wf(r@),
{
    let mut v: Vec<InstructionTemplate> = Vec::new();
    push_template(&mut v, make_itype("lwu", 0x3, 0x6));
    push_template(&mut v, make_itype("ld", 0x3, 0x3));
    push_template(&mut v, make_stype("sd", 0x23, 0x3));
    push_template(&mut v, make_shift64type("slli", 0x13, 0x1, 0x0));
    push_template(&mut v, make_shift64type("srli", 0x13, 0x5, 0x0));
    push_template(&mut v, make_shift64type("srai", 0x13, 0x5, 0x10));
    push_template(&mut v, make_itype("addiw", 0x1b, 0x0));
    push_template(&mut v, make_shiftwtype("slliw", 0x1b, 0x1, 0x0));
    push_template(&mut v, make_shiftwtype("srliw", 0x1b, 0x5, 0x0));
    push_template(&mut v, make_shiftwtype("sraiw", 0x1b, 0x5, 0x20));
    push_template(&mut v, make_rtype("addw", 0x3b, 0x0, 0x0));
    push_template(&mut v, make_rtype("subw", 0x3b, 0x0, 0x20));
    push_template(&mut v, make_rtype("sllw", 0x3b, 0x1, 0x0));
    push_template(&mut v, make_rtype("srlw", 0x3b, 0x5, 0x0));
    push_template(&mut v, make_rtype("sraw", 0x3b, 0x5, 0x20));
    proof {
        assert(views_of(v@) =~= spec_rv64_i());
    }
    v
}

/// The mathematical templates of the RV32-M multiply and divide instructions.
pub open spec fn spec_rv_m() -> Seq<TemplateView> {
    seq![
        spec_rtype("mul"@, 0x33, 0x0, 0x1),
        spec_rtype("mulh"@, 0x33, 0x1, 0x1),
        spec_rtype("mulhsu"@, 0x33, 0x2, 0x1),
        spec_rtype("mulhu"@, 0x33, 0x3, 0x1),
        spec_rtype("div"@, 0x33, 0x4, 0x1),
        spec_rtype("divu"@, 0x33, 0x5, 0x1),
        spec_rtype("rem"@, 0x33, 0x6, 0x1),
        spec_rtype("remu"@, 0x33, 0x7, 0x1),
    ]
}

/// Templates of the RV32-M multiply and divide instructions.
#[verifier::rlimit(100)]
pub fn rv_m() -> (r: Vec<InstructionTemplate>)
    ensures
        views_of(r@) == spec_rv_m(),
        r@.len() == 8,
        templates_wf(r@),
{
    let mut v: Vec<InstructionTemplate> = Vec::new();
    push_template(&mut v, make_rtype("mul", 0x33, 0x0, 0x1));
    push_template(&mut v, make_rtype("mulh", 0x33, 0x1, 0x1));
    push_template(&mut v, make_rtype("mulhsu", 0x33, 0x2, 0x1));
    push_template(&mut v, make_rtype("mulhu", 0x33, 0x3, 0x1));
    push_template(&mut v, make_rtype("div", 0x33, 0x4, 0x1));
    push_template(&mut v, make_rtype("divu", 0x33, 0x5, 0x1));
    push_template(&mut v, make_rtype("rem", 0x33, 0x6, 0x1));
    push_template(&mut v, make_rtype("remu", 0x33, 0x7, 0x1));
    proof {
        assert(views_of(v@) =~= spec_rv_m());
    }
    v
}

/// The mathematical templates of the RV64-M additions.
pub open spec fn spec_rv64_m() -> Seq<TemplateView> {
    seq![
        spec_rtype("mulw"@, 0x3b, 0x0, 0x1),
        spec_rtype("divw"@, 0x3b, 0x4, 0x1),
        spec_rtype("divuw"@, 0x3b, 0x5, 0x1),
        spec_rtype("remw"@, 0x3b, 0x6, 0x1),
        spec_rtype("remuw"@, 0x3b, 0x7, 0x1),
    ]
}

/// Templates of the RV64-M additions.
#[verifier::rlimit(100)]
pub fn rv64_m() -> (r: Vec<InstructionTemplate>)
    ensures
        views_of(r@) == spec_rv64_m(),
        r@.len() == 5,
        templates_wf(r@),
{
    let mut v: Vec<InstructionTemplate> = Vec::new();
    push_template(&mut v, make_rtype("mulw", 0x3b, 0x0, 0x1));
    push_template(&mut v, make_rtype("divw", 0x3b, 0x4, 0x1));
    push_template(&mut v, make_rtype("divuw", 0x3b, 0x5, 0x1));
    push_template(&mut v, make_rtype("remw", 0x3b, 0x6, 0x1));
    push_template(&mut v, make_rtype("remuw", 0x3b, 0x7, 0x1));
    proof {
        assert(views_of(v@) =~= spec_rv64_m());
    }
    v
}

/// The mathematical templates of the RV32-A atomic instructions.
pub open spec fn spec_rv_a() -> Seq<TemplateView> {
    seq![
        spec_lrtype("lr.w"@, 0x2f, 0x2, 0x2),
        spec_amotype("sc.w"@, 0x2f, 0x2, 0x3),
        spec_amotype("amoswap.w"@, 0x2f, 0x2, 0x1),
        spec_amotype("amoadd.w"@, 0x2f, 0x2, 0x0),
        spec_amotype("amoxor.w"@, 0x2f, 0x2, 0x4),
        spec_amotype("amoand.w"@, 0x2f, 0x2, 0xc),
        spec_amotype("amoor.w"@, 0x2f, 0x2, 0x8),
        spec_amotype("amomin.w"@, 0x2f, 0x2, 0x10),
        spec_amotype("amomax.w"@, 0x2f, 0x2, 0x14),
        spec_amotype("amominu.w"@, 0x2f, 0x2, 0x18),
        spec_amotype("amomaxu.w"@, 0x2f, 0x2, 0x1c),
    ]
}

/// Templates of the RV32-A atomic instructions.
#[verifier::rlimit(100)]
pub fn rv_a() -> (r: Vec<InstructionTemplate>)
    ensures
        views_of(r@) == spec_rv_a(),
        r@.len() == 11,
        templates_wf(r@),
{
    let mut v: Vec<InstructionTemplate> = Vec::new();
    push_template(&mut v, make_lrtype("lr.w", 0x2f, 0x2, 0x2));
    push_template(&mut v, make_amotype("sc.w", 0x2f, 0x2, 0x3));
    push_template(&mut v, make_amotype("amoswap.w", 0x2f, 0x2, 0x1));
    push_template(&mut v, make_amotype("amoadd.w", 0x2f, 0x2, 0x0));
    push_template(&mut v, make_amotype("amoxor.w", 0x2f, 0x2, 0x4));
    push_template(&mut v, make_amotype("amoand.w", 0x2f, 0x2, 0xc));
    push_template(&mut v, make_amotype("amoor.w", 0x2f, 0x2, 0x8));
    push_template(&mut v, make_amotype("amomin.w", 0x2f, 0x2, 0x10));
    push_template(&mut v, make_amotype("amomax.w", 0x2f, 0x2, 0x14));
    push_template(&mut v, make_amotype("amominu.w", 0x2f, 0x2, 0x18));
    push_template(&mut v, make_amotype("amomaxu.w", 0x2f, 0x2, 0x1c));
    proof {
        assert(views_of(v@) =~= spec_rv_a());
    }
    v
}

/// The mathematical templates of the RV64-A additions.
pub open spec fn spec_rv64_a() -> Seq<TemplateView> {
    seq![
        spec_lrtype("lr.d"@, 0x2f, 0x3, 0x2),
        spec_amotype("sc.d"@, 0x2f, 0x3, 0x3),
        spec_amotype("amoswap.d"@, 0x2f, 0x3, 0x1),
        spec_amotype("amoadd.d"@, 0x2f, 0x3, 0x0),
        spec_amotype("amoxor.d"@, 0x2f, 0x3, 0x4),
        spec_amotype("amoand.d"@, 0x2f, 0x3, 0xc),
        spec_amotype("amoor.d"@, 0x2f, 0x3, 0x8),
        spec_amotype("amomin.d"@, 0x2f, 0x3, 0x10),
        spec_amotype("amomax.d"@, 0x2f, 0x3, 0x14),
        spec_amotype("amominu.d"@, 0x2f, 0x3, 0x18),
        spec_amotype("amomaxu.d"@, 0x2f, 0x3, 0x1c),
    ]
}

/// Templates of the RV64-A additions.
#[verifier::rlimit(100)]
pub fn rv64_a() -> (r: Vec<InstructionTemplate>)
    ensures
        views_of(r@) == spec_rv64_a(),
        r@.len() == 11,
        templates_wf(r@),
{
    let mut v: Vec<InstructionTemplate> = Vec::new();
    push_template(&mut v, make_lrtype("lr.d", 0x2f, 0x3, 0x2));
    push_template(&mut v, make_amotype("sc.d", 0x2f, 0x3, 0x3));
    push_template(&mut v, make_amotype("amoswap.d", 0x2f, 0x3, 0x1));
    push_template(&mut v, make_amotype("amoadd.d", 0x2f, 0x3, 0x0));
    push_template(&mut v, make_amotype("amoxor.d", 0x2f, 0x3, 0x4));
    push_template(&mut v, make_amotype("amoand.d", 0x2f, 0x3, 0xc));
    push_template(&mut v, make_amotype("amoor.d", 0x2f, 0x3, 0x8));
    push_template(&mut v, make_amotype("amomin.d", 0x2f, 0x3, 0x10));
    push_template(&mut v, make_amotype("amomax.d", 0x2f, 0x3, 0x14));
    push_template(&mut v, make_amotype("amominu.d", 0x2f, 0x3, 0x18));
    push_template(&mut v, make_amotype("amomaxu.d", 0x2f, 0x3, 0x1c));
    proof {
        assert(views_of(v@) =~= spec_rv64_a());
    }
    v
}

/// The mathematical templates of the RV32-F single-precision floating-point instructions.
pub open spec fn spec_rv_f() -> Seq<TemplateView> {
    seq![
        spec_itype("flw"@, 0x7, 0x2),
        spec_stype("fsw"@, 0x27, 0x2),
        spec_r4type("fmadd.s"@, 0x43, 0x0),
        spec_r4type("fmsub.s"@, 0x47, 0x0),
        spec_r4type("fnmsub.s"@, 0x4b, 0x0),
        spec_r4type("fnmadd.s"@, 0x4f, 0x0),
        spec_rrmtype("fadd.s"@, 0x53, 0x0),
        spec_rrmtype("fsub.s"@, 0x53, 0x4),
        spec_rrmtype("fmul.s"@, 0x53, 0x8),
        spec_rrmtype("fdiv.s"@, 0x53, 0xc),
        spec_r2rmtype("fsqrt.s"@, 0x53, 0x2c, 0x0),
        spec_rtype("fsgnj.s"@, 0x53, 0x0, 0x10),
        spec_rtype("fsgnjn.s"@, 0x53, 0x1, 0x10),
        spec_rtype("fsgnjx.s"@, 0x53, 0x2, 0x10),
        spec_rtype("fmin.s"@, 0x53, 0x0, 0x14),
        spec_rtype("fmax.s"@, 0x53, 0x1, 0x14),
        spec_r2rmtype("fcvt.w.s"@, 0x53, 0x60, 0x0),
        spec_r2rmtype("fcvt.wu.s"@, 0x53, 0x60, 0x1),
        spec_r2type("fmv.x.w"@, 0x53, 0x0, 0x70, 0x0),
        spec_rtype("feq.s"@, 0x53, 0x2, 0x50),
        spec_rtype("flt.s"@, 0x53, 0x1, 0x50),
        spec_rtype("fle.s"@, 0x53, 0x0, 0x50),
        spec_r2type("fclass.s"@, 0x53, 0x1, 0x70, 0x0),
        spec_r2rmtype("fcvt.s.w"@, 0x53, 0x68, 0x0),
        spec_r2rmtype("fcvt.s.wu"@, 0x53, 0x68, 0x1),
        spec_r2type("fmv.w.x"@, 0x53, 0x0, 0x78, 0x0),
    ]
}

/// Templates of the RV32-F single-precision floating-point instructions.
#[verifier::rlimit(100)]
pub fn rv_f() -> (r: Vec<InstructionTemplate>)
    ensures
        views_of(r@) == spec_rv_f(),
        r@.len() == 26,
        templates_wf(r@),
{
    let mut v: Vec<InstructionTemplate> = Vec::new();
    push_template(&mut v, make_itype("flw", 0x7, 0x2));
    push_template(&mut v, make_stype("fsw", 0x27, 0x2));
    push_template(&mut v, make_r4type("fmadd.s", 0x43, 0x0));
    push_template(&mut v, make_r4type("fmsub.s", 0x47, 0x0));
    push_template(&mut v, make_r4type("fnmsub.s", 0x4b, 0x0));
    push_template(&mut v, make_r4type("fnmadd.s", 0x4f, 0x0));
    push_template(&mut v, make_rrmtype("fadd.s", 0x53, 0x0));
    push_template(&mut v, make_rrmtype("fsub.s", 0x53, 0x4));
    push_template(&mut v, make_rrmtype("fmul.s", 0x53, 0x8));
    push_template(&mut v, make_rrmtype("fdiv.s", 0x53, 0xc));
    push_template(&mut v, make_r2rmtype("fsqrt.s", 0x53, 0x2c, 0x0));
    push_template(&mut v, make_rtype("fsgnj.s", 0x53, 0x0, 0x10));
    push_template(&mut v, make_rtype("fsgnjn.s", 0x53, 0x1, 0x10));
    push_template(&mut v, make_rtype("fsgnjx.s", 0x53, 0x2, 0x10));
    push_template(&mut v, make_rtype("fmin.s", 0x53, 0x0, 0x14));
    push_template(&mut v, make_rtype("fmax.s", 0x53, 0x1, 0x14));
    push_template(&mut v, make_r2rmtype("fcvt.w.s", 0x53, 0x60, 0x0));
    push_template(&mut v, make_r2rmtype("fcvt.wu.s", 0x53, 0x60, 0x1));
    push_template(&mut v, make_r2type("fmv.x.w", 0x53, 0x0, 0x70, 0x0));
    push_template(&mut v, make_rtype("feq.s", 0x53, 0x2, 0x50));
    push_template(&mut v, make_rtype("flt.s", 0x53, 0x1, 0x50));
    push_template(&mut v, make_rtype("fle.s", 0x53, 0x0, 0x50));
    push_template(&mut v, make_r2type("fclass.s", 0x53, 0x1, 0x70, 0x0));
    push_template(&mut v, make_r2rmtype("fcvt.s.w", 0x53, 0x68, 0x0));
    push_template(&mut v, make_r2rmtype("fcvt.s.wu", 0x53, 0x68, 0x1));
    push_template(&mut v, make_r2type("fmv.w.x", 0x53, 0x0, 0x78, 0x0));
    proof {
        assert(views_of(v@) =~= spec_rv_f());
    }
    v
}

/// The mathematical templates of the RV64-F additions.
pub open spec fn spec_rv64_f() -> Seq<TemplateView> {
    seq![
        spec_r2rmtype("fcvt.l.s"@, 0x53, 0x60, 0x2),
        spec_r2rmtype("fcvt.lu.s"@, 0x53, 0x60, 0x3),
        spec_r2rmtype("fcvt.s.l"@, 0x53, 0x68, 0x2),
        spec_r2rmtype("fcvt.s.lu"@, 0x53, 0x68, 0x3),
    ]
}

/// Templates of the RV64-F additions.
#[verifier::rlimit(100)]
pub fn rv64_f() -> (r: Vec<InstructionTemplate>)
    ensures
        views_of(r@) == spec_rv64_f(),
        r@.len() == 4,
        templates_wf(r@),
{
    let mut v: Vec<InstructionTemplate> = Vec::new();
    push_template(&mut v, make_r2rmtype("fcvt.l.s", 0x53, 0x60, 0x2));
    push_template(&mut v, make_r2rmtype("fcvt.lu.s", 0x53, 0x60, 0x3));
    push_template(&mut v, make_r2rmtype("fcvt.s.l", 0x53, 0x68, 0x2));
    push_template(&mut v, make_r2rmtype("fcvt.s.lu", 0x53, 0x68, 0x3));
    proof {
        assert(views_of(v@) =~= spec_rv64_f());
    }
    v
}

/// The mathematical templates of the RV32-D double-precision floating-point instructions.
pub open spec fn spec_rv_d() -> Seq<TemplateView> {
    seq![
        spec_itype("fld"@, 0x7, 0x3),
        spec_stype("fsd"@, 0x27, 0x3),
        spec_r4type("fmadd.d"@, 0x43, 0x1),
        spec_r4type("fmsub.d"@, 0x47, 0x1),
        spec_r4type("fnmsub.d"@, 0x4b, 0x1),
        spec_r4type("fnmadd.d"@, 0x4f, 0x1),
        spec_rrmtype("fadd.d"@, 0x53, 0x1),
        spec_rrmtype("fsub.d"@, 0x53, 0x5),
        spec_rrmtype("fmul.d"@, 0x53, 0x9),
        spec_rrmtype("fdiv.d"@, 0x53, 0xd),
        spec_r2rmtype("fsqrt.d"@, 0x53, 0x2d, 0x0),
        spec_rtype("fsgnj.d"@, 0x53, 0x0, 0x11),
        spec_rtype("fsgnjn.d"@, 0x53, 0x1, 0x11),
        spec_rtype("fsgnjx.d"@, 0x53, 0x2, 0x11),
        spec_rtype("fmin.d"@, 0x53, 0x0, 0x15),
        spec_rtype("fmax.d"@, 0x53, 0x1, 0x15),
        spec_r2rmtype("fcvt.s.d"@, 0x53, 0x20, 0x1),
        spec_r2rmtype("fcvt.d.s"@, 0x53, 0x21, 0x0),
        spec_rtype("feq.d"@, 0x53, 0x2, 0x51),
        spec_rtype("flt.d"@, 0x53, 0x1, 0x51),
        spec_rtype("fle.d"@, 0x53, 0x0, 0x51),
        spec_r2type("fclass.d"@, 0x53, 0x1, 0x71, 0x0),
        spec_r2rmtype("fcvt.w.d"@, 0x53, 0x61, 0x0),
        spec_r2rmtype("fcvt.wu.d"@, 0x53, 0x61, 0x1),
        spec_r2rmtype("fcvt.d.w"@, 0x53, 0x69, 0x0),
        spec_r2rmtype("fcvt.d.wu"@, 0x53, 0x69, 0x1),
    ]
}

/// Templates of the RV32-D double-precision floating-point instructions.
#[verifier::rlimit(100)]
pub fn rv_d() -> (r: Vec<InstructionTemplate>)
    ensures
        views_of(r@) == spec_rv_d(),
        r@.len() == 26,
        templates_wf(r@),
{
    let mut v: Vec<InstructionTemplate> = Vec::new();
    push_template(&mut v, make_itype("fld", 0x7, 0x3));
    push_template(&mut v, make_stype("fsd", 0x27, 0x3));
    push_template(&mut v, make_r4type("fmadd.d", 0x43, 0x1));
    push_template(&mut v, make_r4type("fmsub.d", 0x47, 0x1));
    push_template(&mut v, make_r4type("fnmsub.d", 0x4b, 0x1));
    push_template(&mut v, make_r4type("fnmadd.d", 0x4f, 0x1));
    push_template(&mut v, make_rrmtype("fadd.d", 0x53, 0x1));
    push_template(&mut v, make_rrmtype("fsub.d", 0x53, 0x5));
    push_template(&mut v, make_rrmtype("fmul.d", 0x53, 0x9));
    push_template(&mut v, make_rrmtype("fdiv.d", 0x53, 0xd));
    push_template(&mut v, make_r2rmtype("fsqrt.d", 0x53, 0x2d, 0x0));
    push_template(&mut v, make_rtype("fsgnj.d", 0x53, 0x0, 0x11));
    push_template(&mut v, make_rtype("fsgnjn.d", 0x53, 0x1, 0x11));
    push_template(&mut v, make_rtype("fsgnjx.d", 0x53, 0x2, 0x11));
    push_template(&mut v, make_rtype("fmin.d", 0x53, 0x0, 0x15));
    push_template(&mut v, make_rtype("fmax.d", 0x53, 0x1, 0x15));
    push_template(&mut v, make_r2rmtype("fcvt.s.d", 0x53, 0x20, 0x1));
    push_template(&mut v, make_r2rmtype("fcvt.d.s", 0x53, 0x21, 0x0));
    push_template(&mut v, make_rtype("feq.d", 0x53, 0x2, 0x51));
    push_template(&mut v, make_rtype("flt.d", 0x53, 0x1, 0x51));
    push_template(&mut v, make_rtype("fle.d", 0x53, 0x0, 0x51));
    push_template(&mut v, make_r2type("fclass.d", 0x53, 0x1, 0x71, 0x0));
    push_template(&mut v, make_r2rmtype("fcvt.w.d", 0x53, 0x61, 0x0));
    push_template(&mut v, make_r2rmtype("fcvt.wu.d", 0x53, 0x61, 0x1));
    push_template(&mut v, make_r2rmtype("fcvt.d.w", 0x53, 0x69, 0x0));
    push_template(&mut v, make_r2rmtype("fcvt.d.wu", 0x53, 0x69, 0x1));
    proof {
        assert(views_of(v@) =~= spec_rv_d());
    }
    v
}

/// The mathematical templates of the RV64-D additions.
pub open spec fn spec_rv64_d() -> Seq<TemplateView> {
    seq![
        spec_r2rmtype("fcvt.l.d"@, 0x53, 0x61, 0x2),
        spec_r2rmtype("fcvt.lu.d"@, 0x53, 0x61, 0x3),
        spec_r2type("fmv.x.d"@, 0x53, 0x0, 0x71, 0x0),
        spec_r2rmtype("fcvt.d.l"@, 0x53, 0x69, 0x2),
        spec_r2rmtype("fcvt.d.lu"@, 0x53, 0x69, 0x3),
        spec_r2type("fmv.d.x"@, 0x53, 0x0, 0x79, 0x0),
    ]
}

/// Templates of the RV64-D additions.
#[verifier::rlimit(100)]
pub fn rv64_d() -> (r: Vec<InstructionTemplate>)
    ensures
        views_of(r@) == spec_rv64_d(),
        r@.len() == 6,
        templates_wf(r@),
{
    let mut v: Vec<InstructionTemplate> = Vec::new();
    push_template(&mut v, make_r2rmtype("fcvt.l.d", 0x53, 0x61, 0x2));
    push_template(&mut v, make_r2rmtype("fcvt.lu.d", 0x53, 0x61, 0x3));
    push_template(&mut v, make_r2type("fmv.x.d", 0x53, 0x0, 0x71, 0x0));
    push_template(&mut v, make_r2rmtype("fcvt.d.l", 0x53, 0x69, 0x2));
    push_template(&mut v, make_r2rmtype("fcvt.d.lu", 0x53, 0x69, 0x3));
    push_template(&mut v, make_r2type("fmv.d.x", 0x53, 0x0, 0x79, 0x0));
    proof {
        assert(views_of(v@) =~= spec_rv64_d());
    }
    v
}

// ---------------------------------------------------------------------------
// Instruction sets
// ---------------------------------------------------------------------------

/// Views distribute over concatenation.
proof fn lemma_views_concat(a: Seq<InstructionTemplate>, b: Seq<InstructionTemplate>)
    ensures
        views_of(a + b) == views_of(a) + views_of(b),
{
    assert(views_of(a + b) =~= views_of(a) + views_of(b));
}

/// Well-formedness carries over concatenation.
proof fn lemma_concat_wf(a: Seq<InstructionTemplate>, b: Seq<InstructionTemplate>)
    requires
        templates_wf(a),
        templates_wf(b),
    ensures
        templates_wf(a + b),
{
    assert forall|i: int| 0 <= i < (a + b).len() implies (#[trigger] (a + b)[i])@.wf() by {
        if i < a.len() {
            assert((a + b)[i] == a[i]);
        } else {
            assert((a + b)[i] == b[i - a.len()]);
        }
    }
}

/// A template held by the appended part is held by the concatenation.
proof fn lemma_concat_contains(
    a: Seq<InstructionTemplate>,
    b: Seq<InstructionTemplate>,
    t: TemplateView,
)
    requires
        contains_template(b, t),
    ensures
        contains_template(a + b, t),
{
    let i = choose|i: int| 0 <= i < b.len() && (#[trigger] b[i])@ == t;
    assert((a + b)[a.len() + i]@ == t);
}

/// A template held by a prefix is held by any extension of it.
proof fn lemma_prefix_keeps_contains(
    pre: Seq<InstructionTemplate>,
    whole: Seq<InstructionTemplate>,
    t: TemplateView,
)
    requires
        contains_template(pre, t),
        pre.len() <= whole.len(),
        forall|i: int| 0 <= i < pre.len() ==> whole[i] == pre[i],
    ensures
        contains_template(whole, t),
{
    let i = choose|i: int| 0 <= i < pre.len() && (#[trigger] pre[i])@ == t;
    assert(whole[i]@ == t);
}

/// The mathematical RV64-G decoding set.
pub open spec fn spec_riscv_g() -> Seq<TemplateView> {
    spec_rv64_i() + spec_rv64_a() + spec_rv64_d() + spec_rv64_f() + spec_rv64_m() + spec_rv_i()
        + spec_rv_a() + spec_rv_d() + spec_rv_f() + spec_rv_m()
}

/// The mathematical base generation set.
pub open spec fn spec_riscv_base() -> Seq<TemplateView> {
    spec_rv64_i() + spec_rv_i()
}

/// The mathematical whole table, used when decoding stored programs.
pub open spec fn spec_all() -> Seq<TemplateView> {
    spec_riscv_g()
}

/// The RV64-G decoding set: the union of the I, M, A, F and D extensions and
/// their 64-bit additions.
pub fn riscv_g() -> (r: Vec<InstructionTemplate>)
    ensures
        views_of(r@) == spec_riscv_g(),
        r@.len() == 149,
        templates_wf(r@),
        contains_template(r@, spec_addi()),
        contains_template(r@, spec_auipc()),
        contains_template(r@, spec_jalr()),
{
    let mut result = rv64_i();
    let mut part = rv64_a();
    let ghost pre = result@;
    let ghost pt = part@;
    result.append(&mut part);
    proof {
        lemma_views_concat(pre, pt);
        lemma_concat_wf(pre, pt);
    }
    let mut part = rv64_d();
    let ghost pre = result@;
    let ghost pt = part@;
    result.append(&mut part);
    proof {
        lemma_views_concat(pre, pt);
        lemma_concat_wf(pre, pt);
    }
    let mut part = rv64_f();
    let ghost pre = result@;
    let ghost pt = part@;
    result.append(&mut part);
    proof {
        lemma_views_concat(pre, pt);
        lemma_concat_wf(pre, pt);
    }
    let mut part = rv64_m();
    let ghost pre = result@;
    let ghost pt = part@;
    result.append(&mut part);
    proof {
        lemma_views_concat(pre, pt);
        lemma_concat_wf(pre, pt);
    }
    let mut part = rv_i();
    let ghost pre = result@;
    let ghost pt = part@;
    result.append(&mut part);
    proof {
        lemma_views_concat(pre, pt);
        lemma_concat_wf(pre, pt);
        lemma_concat_contains(pre, pt, spec_addi());
        lemma_concat_contains(pre, pt, spec_auipc());
        lemma_concat_contains(pre, pt, spec_jalr());
    }
    let mut part = rv_a();
    let ghost pre = result@;
    let ghost pt = part@;
    result.append(&mut part);
    proof {
        lemma_views_concat(pre, pt);
        lemma_concat_wf(pre, pt);
        lemma_prefix_keeps_contains(pre, result@, spec_addi());
        lemma_prefix_keeps_contains(pre, result@, spec_auipc());
        lemma_prefix_keeps_contains(pre, result@, spec_jalr());
    }
    let mut part = rv_d();
    let ghost pre = result@;
    let ghost pt = part@;
    result.append(&mut part);
    proof {
        lemma_views_concat(pre, pt);
        lemma_concat_wf(pre, pt);
        lemma_prefix_keeps_contains(pre, result@, spec_addi());
        lemma_prefix_keeps_contains(pre, result@, spec_auipc());
        lemma_prefix_keeps_contains(pre, result@, spec_jalr());
    }
    let mut part = rv_f();
    let ghost pre = result@;
    let ghost pt = part@;
    result.append(&mut part);
    proof {
        lemma_views_concat(pre, pt);
        lemma_concat_wf(pre, pt);
        lemma_prefix_keeps_contains(pre, result@, spec_addi());
        lemma_prefix_keeps_contains(pre, result@, spec_auipc());
        lemma_prefix_keeps_contains(pre, result@, spec_jalr());
    }
    let mut part = rv_m();
    let ghost pre = result@;
    let ghost pt = part@;
    result.append(&mut part);
    proof {
        lemma_views_concat(pre, pt);
        lemma_concat_wf(pre, pt);
        lemma_prefix_keeps_contains(pre, result@, spec_addi());
        lemma_prefix_keeps_contains(pre, result@, spec_auipc());
        lemma_prefix_keeps_contains(pre, result@, spec_jalr());
    }
    result
}

/// The base generation set: the integer instructions only, so mutations
/// prefer simple instructions.
pub fn riscv_base() -> (r: Vec<InstructionTemplate>)
    ensures
        views_of(r@) == spec_riscv_base(),
        r@.len() == 52,
        templates_wf(r@),
        contains_template(r@, spec_addi()),
        contains_template(r@, spec_auipc()),
        contains_template(r@, spec_jalr()),
{
    let mut result = rv64_i();
    let mut part = rv_i();
    let ghost pre = result@;
    let ghost pt = part@;
    result.append(&mut part);
    proof {
        lemma_views_concat(pre, pt);
        lemma_concat_wf(pre, pt);
        lemma_concat_contains(pre, pt, spec_addi());
        lemma_concat_contains(pre, pt, spec_auipc());
        lemma_concat_contains(pre, pt, spec_jalr());
    }
    result
}

/// The whole opcode table, used when decoding stored programs.
pub fn all() -> (r: Vec<InstructionTemplate>)
    ensures
        views_of(r@) == spec_all(),
        r@.len() == 149,
        templates_wf(r@),
        contains_template(r@, spec_addi()),
        contains_template(r@, spec_auipc()),
        contains_template(r@, spec_jalr()),
{
    riscv_g()
}

} // verus!
