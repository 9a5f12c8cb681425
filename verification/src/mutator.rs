//! The structure-preserving program mutations: every edit leaves a program of
//! well-encodable instructions, so each assembled word remains a legal
//! encoding.

use vstd::prelude::*;

verus! {

use crate::generator::{InstGenerator, generated_value_ok, spec_program_args};
use crate::instructions::{
    Argument, ArgumentView, Instruction, InstructionTemplate, InstructionView, TemplateView,
    program_encodable, view_contains, views_of,
};
use crate::riscv::{
    addi_template, auipc_template, imm12, imm20, jalr_template, rd, rs1, spec_addi, spec_auipc,
    spec_imm12, spec_imm20, spec_jalr, spec_rd, spec_rs1, templates_wf,
};
use crate::rng::RandomSource;

/// Supported mutation strategies.
#[derive(Clone, Copy, Debug, PartialEq, Eq, Structural)]
pub enum Mutation {
    /// Adds a new instruction.
    Add,
    /// Replaces an instruction with a different new instruction.
    Replace,
    /// Replaces an argument of an instruction with a different one.
    ReplaceArg,
    /// Repeats one instruction once.
    RepeatOne,
    /// Repeats one instruction several times.
    RepeatSeveral,
    /// Swaps two single instructions.
    SwapTwo,
    /// Removes a single instruction.
    Remove,
    /// Replaces an instruction with a nop.
    ReplaceWithNop,
    /// Inserts a canned call or return idiom.
    Snippet,
}

/// Whether a mutation changed the program or could not apply.
#[derive(Clone, Copy, Debug, PartialEq, Eq, Structural)]
pub enum MutationResult {
    /// The program was edited.
    Mutated,
    /// The mutation could not apply; the program is unchanged.
    Skipped,
}

/// Marker for callers that must not hand an empty program on.
pub struct EmptyProgramNotSupported;

/// Mutator for RISC-V instruction programs: one mutation strategy each.
pub struct RiscVInstructionMutator {
    /// The strategy this mutator applies.
    pub mutation: Mutation,
}

// ---------------------------------------------------------------------------
// The canned instructions the mutations build directly
// ---------------------------------------------------------------------------

/// The nop `addi x0, x0, 0`.
pub open spec fn spec_nop_inst() -> InstructionView {
    InstructionView {
        template: spec_addi(),
        arguments: seq![
            ArgumentView { arg_spec: spec_rd(), value: 0 },
            ArgumentView { arg_spec: spec_rs1(), value: 0 },
            ArgumentView { arg_spec: spec_imm12(), value: 0 },
        ],
    }
}

/// The call idiom's first half, `auipc x2, 0`.
pub open spec fn spec_call_auipc() -> InstructionView {
    InstructionView {
        template: spec_auipc(),
        arguments: seq![
            ArgumentView { arg_spec: spec_rd(), value: 2 },
            ArgumentView { arg_spec: spec_imm20(), value: 0 },
        ],
    }
}

/// The call idiom's second half, `jalr x1, imm(x2)`.
pub open spec fn spec_call_jalr(imm: u32) -> InstructionView {
    InstructionView {
        template: spec_jalr(),
        arguments: seq![
            ArgumentView { arg_spec: spec_rd(), value: 1 },
            ArgumentView { arg_spec: spec_rs1(), value: 2 },
            ArgumentView { arg_spec: spec_imm12(), value: imm },
        ],
    }
}

/// The return idiom, `jalr x0, 0(x1)`.
pub open spec fn spec_ret_inst() -> InstructionView {
    InstructionView {
        template: spec_jalr(),
        arguments: seq![
            ArgumentView { arg_spec: spec_rd(), value: 0 },
            ArgumentView { arg_spec: spec_rs1(), value: 1 },
            ArgumentView { arg_spec: spec_imm12(), value: 0 },
        ],
    }
}

/// Concrete powers of two for the canned instructions' field bounds.
proof fn lemma_mutation_bits()
    by (bit_vector)
    ensures
        (1u32 << 5u32) == 32,
        (1u32 << 12u32) == 4096,
        (1u32 << 20u32) == 1048576,
{
}

/// Builds the nop instruction `addi x0, x0, 0`.
fn make_nop() -> (r: Instruction)
    ensures
        r@ == spec_nop_inst(),
        r@.wf(),
{
    let t = addi_template();
    let rd_op = rd();
    let rs1_op = rs1();
    let imm12_op = imm12();
    let mut args: Vec<Argument> = Vec::new();
    args.push(Argument::new(&rd_op, 0));
    args.push(Argument::new(&rs1_op, 0));
    args.push(Argument::new(&imm12_op, 0));
    proof {
        assert(views_of(args@) =~= spec_nop_inst().arguments);
        lemma_mutation_bits();
    }
    let inst = Instruction::new(&t, args);
    proof {
        assert(inst@ == spec_nop_inst());
    }
    inst
}

/// Builds the call idiom's first half, `auipc x2, 0`.
fn make_call_auipc() -> (r: Instruction)
    ensures
        r@ == spec_call_auipc(),
        r@.wf(),
{
    let t = auipc_template();
    let rd_op = rd();
    let imm20_op = imm20();
    let mut args: Vec<Argument> = Vec::new();
    args.push(Argument::new(&rd_op, 2));
    args.push(Argument::new(&imm20_op, 0));
    proof {
        assert(views_of(args@) =~= spec_call_auipc().arguments);
        lemma_mutation_bits();
    }
    let inst = Instruction::new(&t, args);
    proof {
        assert(inst@ == spec_call_auipc());
    }
    inst
}

/// Builds the call idiom's second half, `jalr x1, imm(x2)`.
fn make_call_jalr(imm: u32) -> (r: Instruction)
    requires
        imm < 4096,
    ensures
        r@ == spec_call_jalr(imm),
        r@.wf(),
{
    let t = jalr_template();
    let rd_op = rd();
    let rs1_op = rs1();
    let imm12_op = imm12();
    let mut args: Vec<Argument> = Vec::new();
    args.push(Argument::new(&rd_op, 1));
    args.push(Argument::new(&rs1_op, 2));
    args.push(Argument::new(&imm12_op, imm));
    proof {
        assert(views_of(args@) =~= spec_call_jalr(imm).arguments);
        lemma_mutation_bits();
    }
    let inst = Instruction::new(&t, args);
    proof {
        assert(inst@ == spec_call_jalr(imm));
    }
    inst
}

/// Builds the return idiom, `jalr x0, 0(x1)`.
fn make_ret() -> (r: Instruction)
    ensures
        r@ == spec_ret_inst(),
        r@.wf(),
{
    let t = jalr_template();
    let rd_op = rd();
    let rs1_op = rs1();
    let imm12_op = imm12();
    let mut args: Vec<Argument> = Vec::new();
    args.push(Argument::new(&rd_op, 0));
    args.push(Argument::new(&rs1_op, 1));
    args.push(Argument::new(&imm12_op, 0));
    proof {
        assert(views_of(args@) =~= spec_ret_inst().arguments);
        lemma_mutation_bits();
    }
    let inst = Instruction::new(&t, args);
    proof {
        assert(inst@ == spec_ret_inst());
    }
    inst
}

// ---------------------------------------------------------------------------
// Shapes of mutated programs
// ---------------------------------------------------------------------------

/// The program with `cnt` copies of one instruction inserted at `pos`.
pub open spec fn with_insert(
    o: Seq<InstructionView>,
    pos: int,
    cnt: int,
    t: InstructionView,
) -> Seq<InstructionView> {
    o.take(pos) + Seq::new(cnt as nat, |i: int| t) + o.skip(pos)
}

/// The program with two instructions inserted at `pos`, in order.
pub open spec fn with_insert2(
    o: Seq<InstructionView>,
    pos: int,
    t1: InstructionView,
    t2: InstructionView,
) -> Seq<InstructionView> {
    o.take(pos) + seq![t1, t2] + o.skip(pos)
}

/// An instruction a mutation may introduce: well formed, with a template
/// taken from the generation set or one of the three canned templates.
pub open spec fn inserted_ok(t: InstructionView, base: Seq<TemplateView>) -> bool {
    t.wf() && (view_contains(base, t.template) || t.template == spec_addi() || t.template
        == spec_auipc() || t.template == spec_jalr())
}

// ---------------------------------------------------------------------------
// Position draws
// ---------------------------------------------------------------------------

/// A uniform insertion point: any index below the length, and the single
/// point 0 for an empty program.
fn add_pos<R: RandomSource>(rand: &mut R, len: usize) -> (r: usize)
    ensures
        len == 0 ==> r == 0,
        len > 0 ==> r < len,
        r <= len,
{
    if len == 0 {
        0
    } else {
        rand.below(len as u64) as usize
    }
}

/// A uniform existing position, or nothing for an empty program.
fn valid_pos<R: RandomSource>(rand: &mut R, len: usize) -> (r: Option<usize>)
    ensures
        r is Some <==> len > 0,
        (r matches Some(p) ==> p < len),
{
    if len == 0 {
        None
    } else {
        Some(rand.below(len as u64) as usize)
    }
}

// ---------------------------------------------------------------------------
// Generation seeded from the program
// ---------------------------------------------------------------------------

/// Generates a new instruction from the generation set. The generator's
/// reuse pool is seeded with every operand value of the program, in program
/// order, so each generated value either fits its field or repeats a program
/// value of the same bit length.
fn gen_inst<R: RandomSource>(
    program: &Vec<Instruction>,
    base: &Vec<InstructionTemplate>,
    rand: &mut R,
) -> (r: Instruction)
    requires
        base@.len() > 0,
        templates_wf(base@),
        program_encodable(views_of(program@)),
    ensures
        r@.wf(),
        r@.args_match_template(),
        view_contains(views_of(base@), r@.template),
        forall|i: int|
            0 <= i < r@.arguments.len() ==> generated_value_ok(
                #[trigger] r@.arguments[i],
                spec_program_args(views_of(program@)),
            ),
{
    let mut generator = InstGenerator::new();
    let n = program.len();
    let mut i: usize = 0;
    while i < n
        invariant
            0 <= i <= n,
            n == program@.len(),
            program_encodable(views_of(program@)),
            views_of(generator.known_args@) == spec_program_args(
                views_of(program@).take(i as int),
            ),
            generator.wf(),
        decreases n - i,
    {
        let ghost pre = views_of(generator.known_args@);
        let args = program[i].arguments();
        proof {
            assert(views_of(program@)[i as int].encodable());
            assert(views_of(args@) == views_of(program@)[i as int].arguments);
        }
        generator.forward_args(args);
        proof {
            let q = views_of(program@).take(i + 1 as int);
            assert(q.drop_last() =~= views_of(program@).take(i as int));
            assert(q.last() == views_of(program@)[i as int]);
            assert forall|j: int|
                0 <= j < views_of(generator.known_args@).len() implies (#[trigger] views_of(
                generator.known_args@,
            )[j]).wf() by {
                if j < pre.len() {
                    assert(views_of(generator.known_args@)[j] == pre[j]);
                } else {
                    assert(views_of(generator.known_args@)[j] == views_of(args@)[j - pre.len()]);
                }
            }
        }
        i = i + 1;
    }
    proof {
        assert(views_of(program@).take(n as int) =~= views_of(program@));
    }
    generator.generate_instruction(rand, base)
}

// ---------------------------------------------------------------------------
// Argument replacement keeps instructions encodable
// ---------------------------------------------------------------------------

/// A filter that keeps everything is the identity.
proof fn lemma_filter_all<A>(s: Seq<A>, pred: spec_fn(A) -> bool)
    requires
        forall|i: int| 0 <= i < s.len() ==> pred(#[trigger] s[i]),
    ensures
        s.filter(pred) == s,
    decreases s.len(),
{
    reveal(Seq::filter);
    if s.len() > 0 {
        assert forall|i: int| 0 <= i < s.drop_last().len() implies pred(
            #[trigger] s.drop_last()[i],
        ) by {
            assert(s.drop_last()[i] == s[i]);
        }
        lemma_filter_all(s.drop_last(), pred);
        assert(pred(s.last()));
        assert(s.drop_last().push(s.last()) =~= s);
    }
}

/// A filter that drops exactly one position removes exactly that element.
proof fn lemma_filter_all_but_one<A>(s: Seq<A>, pred: spec_fn(A) -> bool, k: int)
    requires
        0 <= k < s.len(),
        forall|i: int| 0 <= i < s.len() && i != k ==> pred(#[trigger] s[i]),
        !pred(s[k]),
    ensures
        s.filter(pred) == s.remove(k),
    decreases s.len(),
{
    reveal(Seq::filter);
    if k == s.len() - 1 {
        assert forall|i: int| 0 <= i < s.drop_last().len() implies pred(
            #[trigger] s.drop_last()[i],
        ) by {
            assert(s.drop_last()[i] == s[i]);
        }
        lemma_filter_all(s.drop_last(), pred);
        assert(s.remove(k) =~= s.drop_last());
    } else {
        assert forall|i: int|
            0 <= i < s.drop_last().len() && i != k implies pred(#[trigger] s.drop_last()[i]) by {
            assert(s.drop_last()[i] == s[i]);
        }
        assert(s.drop_last()[k] == s[k]);
        lemma_filter_all_but_one(s.drop_last(), pred, k);
        assert(pred(s.last()));
        assert(s.drop_last().remove(k).push(s.last()) =~= s.remove(k));
    }
}

/// A well-shaped field occupies at least one bit.
proof fn lemma_field_mask_nonzero(len: u32, off: u32)
    by (bit_vector)
    requires
        1 <= len <= 31,
        off + len <= 32,
    ensures
        ((((1u32 << len) - 1) as u32) << off) != 0,
{
}

/// A nonzero word shares bits with itself.
proof fn lemma_and_self_nonzero(x: u32)
    by (bit_vector)
    requires
        x != 0,
    ensures
        x & x != 0,
{
}

/// Bit disjointness is symmetric.
proof fn lemma_disjoint_commute(x: u32, y: u32)
    by (bit_vector)
    requires
        x & y == 0,
    ensures
        y & x == 0,
{
}

/// Replacing the operand value of one field keeps the instruction encodable:
/// the dropped and the added value occupy the same field.
proof fn lemma_set_arg_encodable(i: InstructionView, j: InstructionView, new: ArgumentView, k: int)
    requires
        i.encodable(),
        new.wf(),
        0 <= k < i.arguments.len(),
        i.arguments[k].arg_spec == new.arg_spec,
        j.template == i.template,
        j.arguments == i.arguments.filter(
            |a: ArgumentView| a.arg_spec != new.arg_spec,
        ).push(new),
    ensures
        j.encodable(),
        j.arguments.len() == i.arguments.len(),
        j.arguments == i.arguments.remove(k).push(new),
{
    let pred = |a: ArgumentView| a.arg_spec != new.arg_spec;
    let args = i.arguments;
    // every other field is disjoint from field k, so only position k is dropped
    assert forall|x: int| 0 <= x < args.len() && x != k implies pred(#[trigger] args[x]) by {
        if x < k {
            assert(args[x].arg_spec.disjoint_from(args[k].arg_spec));
        } else {
            assert(args[k].arg_spec.disjoint_from(args[x].arg_spec));
            lemma_disjoint_commute(args[k].arg_spec.field_mask(), args[x].arg_spec.field_mask());
        }
        assert(args[x].wf());
        if args[x].arg_spec == new.arg_spec {
            lemma_field_mask_nonzero(args[x].arg_spec.length, args[x].arg_spec.offset);
            lemma_and_self_nonzero(args[x].arg_spec.field_mask());
        }
    }
    assert(!pred(args[k]));
    lemma_filter_all_but_one(args, pred, k);
    let rem = args.remove(k);
    assert(j.arguments == rem.push(new));
    // positions of the result map back to positions of the original
    assert forall|x: int| 0 <= x < j.arguments.len() implies (#[trigger] j.arguments[x]).wf()
        && j.arguments[x].arg_spec.field_mask() & j.template.mask_pattern == 0 by {
        if x < rem.len() {
            let ox = if x < k {
                x
            } else {
                x + 1
            };
            assert(j.arguments[x] == args[ox]);
            assert(args[ox].wf());
        } else {
            assert(j.arguments[x] == new);
            assert(args[k].arg_spec.field_mask() & i.template.mask_pattern == 0);
        }
    }
    assert forall|x: int, y: int|
        #![trigger j.arguments[x].arg_spec.disjoint_from(j.arguments[y].arg_spec)]
        0 <= x < y < j.arguments.len() implies j.arguments[x].arg_spec.disjoint_from(
        j.arguments[y].arg_spec,
    ) by {
        let ox = if x < k {
            x
        } else {
            x + 1
        };
        if y < rem.len() {
            let oy = if y < k {
                y
            } else {
                y + 1
            };
            assert(j.arguments[x] == args[ox]);
            assert(j.arguments[y] == args[oy]);
            assert(args[ox].arg_spec.disjoint_from(args[oy].arg_spec));
        } else {
            assert(j.arguments[y] == new);
            assert(j.arguments[x] == args[ox]);
            assert(ox != k);
            if ox < k {
                assert(args[ox].arg_spec.disjoint_from(args[k].arg_spec));
            } else {
                assert(args[k].arg_spec.disjoint_from(args[ox].arg_spec));
                lemma_disjoint_commute(
                    args[k].arg_spec.field_mask(),
                    args[ox].arg_spec.field_mask(),
                );
            }
        }
    }
}

// ---------------------------------------------------------------------------
// The mutations
// ---------------------------------------------------------------------------

/// Inserts one freshly generated instruction at an insertion point.
fn mutate_add<R: RandomSource>(
    rand: &mut R,
    base: &Vec<InstructionTemplate>,
    program: &mut Vec<Instruction>,
)
    requires
        base@.len() > 0,
        templates_wf(base@),
        program_encodable(views_of(old(program)@)),
    ensures
        program_encodable(views_of(final(program)@)),
        final(program)@.len() == old(program)@.len() + 1,
        exists|pos: int, t: InstructionView|
            0 <= pos <= views_of(old(program)@).len() && #[trigger] inserted_ok(t, views_of(base@))
                && views_of(final(program)@) == #[trigger] with_insert(
                views_of(old(program)@),
                pos,
                1,
                t,
            ),
{
    let inst = gen_inst(program, base, rand);
    let pos = add_pos(rand, program.len());
    let ghost o = views_of(program@);
    program.insert(pos, inst);
    proof {
        crate::instructions::lemma_wf_encodable(inst@);
        assert(views_of(program@) =~= with_insert(o, pos as int, 1, inst@));
        assert forall|k: int|
            0 <= k < views_of(program@).len() implies (#[trigger] views_of(
            program@,
        )[k]).encodable() by {
            if k < pos as int {
                assert(views_of(program@)[k] == o[k]);
            } else if k == pos as int {
                assert(views_of(program@)[k] == inst@);
            } else {
                assert(views_of(program@)[k] == o[k - 1]);
            }
        }
        assert(inserted_ok(inst@, views_of(base@)));
    }
}

/// Deletes the instruction at a drawn position; skips on an empty program.
fn mutate_remove<R: RandomSource>(rand: &mut R, program: &mut Vec<Instruction>) -> (r:
    MutationResult)
    requires
        program_encodable(views_of(old(program)@)),
    ensures
        program_encodable(views_of(final(program)@)),
        r == MutationResult::Mutated <==> old(program)@.len() > 0,
        r == MutationResult::Skipped ==> final(program)@ == old(program)@,
        r == MutationResult::Mutated ==> final(program)@.len() + 1 == old(program)@.len()
            && (exists|pos: int|
            0 <= pos < views_of(old(program)@).len() && views_of(final(program)@) == views_of(
                old(program)@,
            ).remove(pos)),
{
    let pos = match valid_pos(rand, program.len()) {
        None => { return MutationResult::Skipped },
        Some(p) => p,
    };
    let ghost o = views_of(program@);
    program.remove(pos);
    proof {
        assert(views_of(program@) =~= o.remove(pos as int));
        assert forall|k: int|
            0 <= k < views_of(program@).len() implies (#[trigger] views_of(
            program@,
        )[k]).encodable() by {
            if k < pos as int {
                assert(views_of(program@)[k] == o[k]);
            } else {
                assert(views_of(program@)[k] == o[k + 1]);
            }
        }
    }
    MutationResult::Mutated
}

/// Substitutes a freshly generated, different instruction at a drawn
/// position; skips on an empty program or when no differing instruction came
/// up within the retry budget.
fn mutate_replace<R: RandomSource>(
    rand: &mut R,
    base: &Vec<InstructionTemplate>,
    program: &mut Vec<Instruction>,
) -> (r: MutationResult)
    requires
        base@.len() > 0,
        templates_wf(base@),
        program_encodable(views_of(old(program)@)),
    ensures
        program_encodable(views_of(final(program)@)),
        old(program)@.len() == 0 ==> r == MutationResult::Skipped,
        r == MutationResult::Skipped ==> final(program)@ == old(program)@,
        r == MutationResult::Mutated ==> final(program)@.len() == old(program)@.len() && (exists|
            pos: int,
            t: InstructionView,
        |
            0 <= pos < views_of(old(program)@).len() && #[trigger] inserted_ok(t, views_of(base@))
                && t != views_of(old(program)@)[pos] && views_of(final(program)@)
                == #[trigger] views_of(old(program)@).update(pos, t)),
{
    let pos = match valid_pos(rand, program.len()) {
        None => { return MutationResult::Skipped },
        Some(p) => p,
    };
    let ghost o = views_of(program@);
    let mut attempts: usize = 0;
    while attempts < 64
        invariant
            program@ == old(program)@,
            o == views_of(program@),
            program_encodable(o),
            0 <= pos < program@.len(),
            base@.len() > 0,
            templates_wf(base@),
        decreases 64 - attempts,
    {
        let inst = gen_inst(program, base, rand);
        let differs = !(inst == program[pos]);
        if differs {
            let ghost iv = inst@;
            program[pos] = inst;
            proof {
                let m = views_of(program@);
                assert(m =~= o.update(pos as int, iv));
                crate::instructions::lemma_wf_encodable(iv);
                assert forall|k: int|
                    0 <= k < m.len() implies (#[trigger] m[k]).encodable() by {
                    if k != pos as int {
                        assert(m[k] == o[k]);
                    } else {
                        assert(m[k] == iv);
                    }
                }
                assert(inserted_ok(iv, views_of(base@)));
                assert(iv != o[pos as int]);
                assert(views_of(program@) == views_of(old(program)@).update(pos as int, iv));
            }
            return MutationResult::Mutated;
        }
        attempts = attempts + 1;
    }
    MutationResult::Skipped
}

/// Replaces one operand value of one instruction with a different one of the
/// same field; skips on an empty program, on an instruction without operands,
/// or when no differing value came up within the retry budget.
fn mutate_replace_arg<R: RandomSource>(rand: &mut R, program: &mut Vec<Instruction>) -> (r:
    MutationResult)
    requires
        program_encodable(views_of(old(program)@)),
    ensures
        program_encodable(views_of(final(program)@)),
        old(program)@.len() == 0 ==> r == MutationResult::Skipped,
        r == MutationResult::Skipped ==> final(program)@ == old(program)@,
        r == MutationResult::Mutated ==> final(program)@.len() == old(program)@.len() && (exists|
            pos: int,
            ai: int,
            nv: ArgumentView,
        |
            #![trigger views_of(old(program)@)[pos].arguments[ai], nv.wf()]
            {
                let o = views_of(old(program)@);
                &&& 0 <= pos < o.len()
                &&& 0 <= ai < o[pos].arguments.len()
                &&& nv.wf()
                &&& nv.arg_spec == o[pos].arguments[ai].arg_spec
                &&& nv.value != o[pos].arguments[ai].value
                &&& views_of(final(program)@) == o.update(
                    pos,
                    (InstructionView {
                        template: o[pos].template,
                        arguments: o[pos].arguments.remove(ai).push(nv),
                    }),
                )
                &&& views_of(final(program)@)[pos].encodable()
                &&& views_of(final(program)@)[pos] != o[pos]
            }),
{
    let pos = match valid_pos(rand, program.len()) {
        None => { return MutationResult::Skipped },
        Some(p) => p,
    };
    let ghost o = views_of(program@);
    let inst = program[pos].clone();
    proof {
        assert(o[pos as int].encodable());
        assert(inst@ == o[pos as int]);
    }
    let nargs = inst.arguments().len();
    if nargs == 0 {
        return MutationResult::Skipped;
    }
    let arg_idx = rand.below(nargs as u64) as usize;
    let generator = InstGenerator::new();
    let mut attempts: usize = 0;
    while attempts < 64
        invariant
            program@ == old(program)@,
            o == views_of(program@),
            program_encodable(o),
            0 <= pos < program@.len(),
            inst@ == o[pos as int],
            0 <= arg_idx < inst@.arguments.len(),
            generator.wf(),
        decreases 64 - attempts,
    {
        proof {
            assert(inst@.arguments[arg_idx as int].wf());
            assert(views_of(inst.arguments@)[arg_idx as int] == inst@.arguments[arg_idx as int]);
        }
        let old_arg = &inst.arguments[arg_idx];
        let new_arg = generator.generate_argument(rand, old_arg.arg_spec());
        let differs = !(new_arg == *old_arg);
        if differs {
            let ghost nav = new_arg@;
            let mut ninst = inst.clone();
            ninst.set_arg(new_arg);
            proof {
                lemma_set_arg_encodable(inst@, ninst@, nav, arg_idx as int);
            }
            program[pos] = ninst;
            proof {
                let m = views_of(program@);
                let nv = nav;
                let oi = o[pos as int];
                assert(m =~= o.update(pos as int, m[pos as int]));
                assert forall|k: int|
                    0 <= k < m.len() implies (#[trigger] m[k]).encodable() by {
                    if k != pos as int {
                        assert(m[k] == o[k]);
                    }
                }
                // the chosen field carries a different value, so the
                // instruction itself changed
                assert(nv.value != oi.arguments[arg_idx as int].value);
                assert(ninst@ == (InstructionView {
                    template: oi.template,
                    arguments: oi.arguments.remove(arg_idx as int).push(nv),
                }));
                if ninst@ == oi {
                    let last = oi.arguments.len() - 1;
                    assert(oi.arguments[last] == nv);
                    if arg_idx as int != last {
                        assert(oi.arguments[arg_idx as int].arg_spec.disjoint_from(
                            oi.arguments[last].arg_spec,
                        ));
                        lemma_field_mask_nonzero(nv.arg_spec.length, nv.arg_spec.offset);
                        lemma_and_self_nonzero(nv.arg_spec.field_mask());
                    }
                    assert(false);
                }
                assert(m == o.update(
                    pos as int,
                    (InstructionView {
                        template: oi.template,
                        arguments: oi.arguments.remove(arg_idx as int).push(nv),
                    }),
                ));
            }
            return MutationResult::Mutated;
        }
        attempts = attempts + 1;
    }
    MutationResult::Skipped
}

/// Swaps the instructions at two drawn positions, which may coincide; skips
/// on an empty program.
fn mutate_swap<R: RandomSource>(rand: &mut R, program: &mut Vec<Instruction>) -> (r: MutationResult)
    requires
        program_encodable(views_of(old(program)@)),
    ensures
        program_encodable(views_of(final(program)@)),
        r == MutationResult::Mutated <==> old(program)@.len() > 0,
        r == MutationResult::Skipped ==> final(program)@ == old(program)@,
        r == MutationResult::Mutated ==> final(program)@.len() == old(program)@.len() && (exists|
            p1: int,
            p2: int,
        |
            0 <= p1 < views_of(old(program)@).len() && 0 <= p2 < views_of(old(program)@).len()
                && views_of(final(program)@) == views_of(old(program)@).update(
                p1,
                views_of(old(program)@)[p2],
            ).update(p2, views_of(old(program)@)[p1])),
{
    let pos1 = match valid_pos(rand, program.len()) {
        None => { return MutationResult::Skipped },
        Some(p) => p,
    };
    let pos2 = match valid_pos(rand, program.len()) {
        None => { return MutationResult::Skipped },
        Some(p) => p,
    };
    let ghost o = views_of(program@);
    let a = program[pos1].clone();
    let b = program[pos2].clone();
    program[pos1] = b;
    program[pos2] = a;
    proof {
        let m = views_of(program@);
        assert(m =~= o.update(pos1 as int, o[pos2 as int]).update(pos2 as int, o[pos1 as int]));
        assert forall|k: int| 0 <= k < m.len() implies (#[trigger] m[k]).encodable() by {
            if k == pos2 as int {
                assert(m[k] == o[pos1 as int]);
            } else if k == pos1 as int {
                assert(m[k] == o[pos2 as int]);
            } else {
                assert(m[k] == o[k]);
            }
        }
    }
    MutationResult::Mutated
}

/// Duplicates the instruction at a drawn position `cnt` times by repeated
/// insertion at that position; skips on an empty program.
fn mutate_repeat<R: RandomSource>(rand: &mut R, program: &mut Vec<Instruction>, several: bool) -> (r:
    MutationResult)
    requires
        program_encodable(views_of(old(program)@)),
        old(program)@.len() + 32 <= usize::MAX,
    ensures
        program_encodable(views_of(final(program)@)),
        r == MutationResult::Mutated <==> old(program)@.len() > 0,
        r == MutationResult::Skipped ==> final(program)@ == old(program)@,
        r == MutationResult::Mutated ==> exists|pos: int, cnt: int|
            0 <= pos < views_of(old(program)@).len() && 1 <= cnt <= 32 && (several || cnt == 1)
                && views_of(final(program)@) == #[trigger] with_insert(
                views_of(old(program)@),
                pos,
                cnt,
                views_of(old(program)@)[pos],
            ),
        r == MutationResult::Mutated && !several ==> final(program)@.len() == old(program)@.len()
            + 1,
        r == MutationResult::Mutated ==> final(program)@.len() > old(program)@.len(),
{
    let pos = match valid_pos(rand, program.len()) {
        None => { return MutationResult::Skipped },
        Some(p) => p,
    };
    let cnt: usize = if several {
        (rand.below(32) + 1) as usize
    } else {
        1
    };
    let ghost o = views_of(program@);
    let mut c: usize = 0;
    while c < cnt
        invariant
            0 <= c <= cnt,
            1 <= cnt <= 32,
            0 <= pos < o.len(),
            o.len() + 32 <= usize::MAX,
            program@.len() == o.len() + c,
            program_encodable(o),
            views_of(program@) =~= with_insert(o, pos as int, c as int, o[pos as int]),
        decreases cnt - c,
    {
        proof {
            assert(views_of(program@)[pos as int] == o[pos as int]);
        }
        let dup = program[pos].clone();
        let ghost pre_vec = program@;
        let ghost pre = views_of(program@);
        program.insert(pos, dup);
        proof {
            pre_vec.insert_ensures(pos as int, dup);
            let m = views_of(program@);
            let w = with_insert(o, pos as int, c + 1 as int, o[pos as int]);
            assert forall|k: int| 0 <= k < m.len() implies m[k] == w[k] by {
                if k < pos as int {
                    assert(program@[k] == pre_vec[k]);
                    assert(pre[k] == o[k]);
                } else if k == pos as int {
                    assert(program@[k] == dup);
                } else {
                    assert(program@[k] == pre_vec[k - 1]);
                    assert(m[k] == pre[k - 1]);
                }
            }
            assert(m =~= w);
        }
        c = c + 1;
    }
    proof {
        let m = views_of(program@);
        assert forall|k: int| 0 <= k < m.len() implies (#[trigger] m[k]).encodable() by {
            if k < pos as int {
                assert(m[k] == o[k]);
            } else if k < pos + cnt {
                assert(m[k] == o[pos as int]);
            } else {
                assert(m[k] == o[k - cnt]);
            }
        }
    }
    MutationResult::Mutated
}

/// Overwrites the instruction at a drawn position with the nop
/// `addi x0, x0, 0`; skips on an empty program.
fn mutate_nop<R: RandomSource>(rand: &mut R, program: &mut Vec<Instruction>) -> (r: MutationResult)
    requires
        program_encodable(views_of(old(program)@)),
    ensures
        program_encodable(views_of(final(program)@)),
        r == MutationResult::Mutated <==> old(program)@.len() > 0,
        r == MutationResult::Skipped ==> final(program)@ == old(program)@,
        r == MutationResult::Mutated ==> final(program)@.len() == old(program)@.len() && (exists|
            pos: int,
        |
            0 <= pos < views_of(old(program)@).len() && views_of(final(program)@) == views_of(
                old(program)@,
            ).update(pos, spec_nop_inst())),
{
    let pos = match valid_pos(rand, program.len()) {
        None => { return MutationResult::Skipped },
        Some(p) => p,
    };
    let ghost o = views_of(program@);
    let nop = make_nop();
    proof {
        crate::instructions::lemma_wf_encodable(nop@);
    }
    program[pos] = nop;
    proof {
        let m = views_of(program@);
        assert(m =~= o.update(pos as int, spec_nop_inst()));
        assert forall|k: int| 0 <= k < m.len() implies (#[trigger] m[k]).encodable() by {
            if k != pos as int {
                assert(m[k] == o[k]);
            }
        }
    }
    MutationResult::Mutated
}

/// Inserts, at an insertion point, either the two-instruction call idiom
/// `auipc x2, 0; jalr x1, imm(x2)` with `imm` a multiple of four below 256,
/// or the single return idiom `jalr x0, 0(x1)`.
fn mutate_snippet<R: RandomSource>(rand: &mut R, program: &mut Vec<Instruction>)
    requires
        program_encodable(views_of(old(program)@)),
        old(program)@.len() + 2 <= usize::MAX,
    ensures
        program_encodable(views_of(final(program)@)),
        final(program)@.len() == old(program)@.len() + 1 || final(program)@.len() == old(program)@.len() + 2,
        exists|pos: int|
            #![trigger views_of(old(program)@).take(pos)]
            0 <= pos <= views_of(old(program)@).len() && ((exists|imm: u32|
                imm % 4 == 0 && imm < 256 && views_of(final(program)@) == with_insert2(
                    views_of(old(program)@),
                    pos,
                    spec_call_auipc(),
                    #[trigger] spec_call_jalr(imm),
                )) || views_of(final(program)@) == with_insert(
                views_of(old(program)@),
                pos,
                1,
                spec_ret_inst(),
            )),
{
    let pos = add_pos(rand, program.len());
    let ghost o = views_of(program@);
    if rand.below(2) == 0 {
        let raw = rand.below(64) as u32;
        let imm = raw * 4;
        let a = make_call_auipc();
        let j = make_call_jalr(imm);
        proof {
            crate::instructions::lemma_wf_encodable(a@);
            crate::instructions::lemma_wf_encodable(j@);
        }
        program.insert(pos, j);
        program.insert(pos, a);
        proof {
            let m = views_of(program@);
            assert(m =~= with_insert2(o, pos as int, spec_call_auipc(), spec_call_jalr(imm)));
            assert forall|k: int| 0 <= k < m.len() implies (#[trigger] m[k]).encodable() by {
                if k < pos as int {
                    assert(m[k] == o[k]);
                } else if k == pos as int {
                    assert(m[k] == spec_call_auipc());
                } else if k == pos + 1 {
                    assert(m[k] == spec_call_jalr(imm));
                } else {
                    assert(m[k] == o[k - 2]);
                }
            }
        }
    } else {
        let ret = make_ret();
        proof {
            crate::instructions::lemma_wf_encodable(ret@);
        }
        program.insert(pos, ret);
        proof {
            let m = views_of(program@);
            assert(m =~= with_insert(o, pos as int, 1, spec_ret_inst()));
            assert forall|k: int| 0 <= k < m.len() implies (#[trigger] m[k]).encodable() by {
                if k < pos as int {
                    assert(m[k] == o[k]);
                } else if k == pos as int {
                    assert(m[k] == spec_ret_inst());
                } else {
                    assert(m[k] == o[k - 1]);
                }
            }
        }
    }
}

impl RiscVInstructionMutator {
    /// A mutator applying the given strategy.
    pub fn new(mutation: Mutation) -> (r: Self)
        ensures
            r.mutation == mutation,
    {
        RiscVInstructionMutator { mutation }
    }

    /// Applies this mutator's strategy once to the program, generating new
    /// instructions from the given non-empty template set. `Skipped` reports
    /// that the strategy could not apply and the program is unchanged.
    ///
    /// Every strategy keeps the program's instructions encodable; the listed
    /// per-strategy clauses pin each one's shape and length delta, and that
    /// the strategies needing a position skip exactly (or at least, for the
    /// bounded-retry ones) on an empty program.
    pub fn mutate<R: RandomSource>(
        &self,
        rand: &mut R,
        base: &Vec<InstructionTemplate>,
        program: &mut Vec<Instruction>,
    ) -> (r: MutationResult)
        requires
            base@.len() > 0,
            templates_wf(base@),
            program_encodable(views_of(old(program)@)),
            old(program)@.len() + 32 <= usize::MAX,
        ensures
            program_encodable(views_of(final(program)@)),
            r == MutationResult::Skipped ==> final(program)@ == old(program)@,
            self.mutation == Mutation::Add ==> r == MutationResult::Mutated && final(program)@.len() == old(program)@.len() + 1 && (exists|pos: int, t: InstructionView|
                0 <= pos <= views_of(old(program)@).len() && #[trigger] inserted_ok(
                    t,
                    views_of(base@),
                ) && views_of(final(program)@) == #[trigger] with_insert(
                    views_of(old(program)@),
                    pos,
                    1,
                    t,
                )),
            self.mutation == Mutation::Remove ==> (r == MutationResult::Mutated <==> old(program)@.len() > 0) && (r == MutationResult::Mutated ==> final(program)@.len() + 1 == old(program)@.len() && (exists|pos: int|
                0 <= pos < views_of(old(program)@).len() && views_of(final(program)@)
                    == #[trigger] views_of(old(program)@).remove(pos))),
            self.mutation == Mutation::Replace ==> (old(program)@.len() == 0 ==> r
                == MutationResult::Skipped) && (r == MutationResult::Mutated ==> final(program)@.len() == old(program)@.len() && (exists|pos: int, t: InstructionView|
                0 <= pos < views_of(old(program)@).len() && #[trigger] inserted_ok(
                    t,
                    views_of(base@),
                ) && t != views_of(old(program)@)[pos] && views_of(final(program)@)
                    == #[trigger] views_of(old(program)@).update(pos, t))),
            self.mutation == Mutation::ReplaceArg ==> (old(program)@.len() == 0 ==> r
                == MutationResult::Skipped) && (r == MutationResult::Mutated ==> final(program)@.len() == old(program)@.len() && (exists|
                pos: int,
                ai: int,
                nv: ArgumentView,
            |
                #![trigger views_of(old(program)@)[pos].arguments[ai], nv.wf()]
                {
                    let o = views_of(old(program)@);
                    &&& 0 <= pos < o.len()
                    &&& 0 <= ai < o[pos].arguments.len()
                    &&& nv.wf()
                    &&& nv.arg_spec == o[pos].arguments[ai].arg_spec
                    &&& nv.value != o[pos].arguments[ai].value
                    &&& views_of(final(program)@) == o.update(
                        pos,
                        (InstructionView {
                            template: o[pos].template,
                            arguments: o[pos].arguments.remove(ai).push(nv),
                        }),
                    )
                    &&& views_of(final(program)@)[pos].encodable()
                    &&& views_of(final(program)@)[pos] != o[pos]
                })),
            self.mutation == Mutation::SwapTwo ==> (r == MutationResult::Mutated <==> old(program)@.len() > 0) && (r == MutationResult::Mutated ==> final(program)@.len() == old(program)@.len() && (exists|p1: int, p2: int|
                0 <= p1 < views_of(old(program)@).len() && 0 <= p2 < views_of(
                    old(program)@,
                ).len() && views_of(final(program)@) == #[trigger] views_of(
                    old(program)@,
                ).update(p1, views_of(old(program)@)[p2]).update(
                    p2,
                    views_of(old(program)@)[p1],
                ))),
            self.mutation == Mutation::RepeatOne ==> (r == MutationResult::Mutated <==> old(program)@.len() > 0) && (r == MutationResult::Mutated ==> final(program)@.len() == old(program)@.len() + 1 && (exists|pos: int|
                0 <= pos < views_of(old(program)@).len() && views_of(final(program)@)
                    == #[trigger] with_insert(
                    views_of(old(program)@),
                    pos,
                    1,
                    views_of(old(program)@)[pos],
                ))),
            self.mutation == Mutation::RepeatSeveral ==> (r == MutationResult::Mutated <==> old(program)@.len() > 0) && (r == MutationResult::Mutated ==> final(program)@.len() > old(program)@.len() && (exists|pos: int, cnt: int|
                0 <= pos < views_of(old(program)@).len() && 1 <= cnt <= 32 && views_of(
                    final(program)@,
                ) == #[trigger] with_insert(
                    views_of(old(program)@),
                    pos,
                    cnt,
                    views_of(old(program)@)[pos],
                ))),
            self.mutation == Mutation::ReplaceWithNop ==> (r == MutationResult::Mutated <==> old(program)@.len() > 0) && (r == MutationResult::Mutated ==> final(program)@.len() == old(program)@.len() && (exists|pos: int|
                0 <= pos < views_of(old(program)@).len() && views_of(final(program)@)
                    == #[trigger] views_of(old(program)@).update(pos, spec_nop_inst()))),
            self.mutation == Mutation::Snippet ==> r == MutationResult::Mutated && (final(program)@.len() == old(program)@.len() + 1 || final(program)@.len() == old(program)@.len()
                + 2) && (exists|pos: int|
                #![trigger views_of(old(program)@).take(pos)]
                0 <= pos <= views_of(old(program)@).len() && ((exists|imm: u32|
                    imm % 4 == 0 && imm < 256 && views_of(final(program)@) == with_insert2(
                        views_of(old(program)@),
                        pos,
                        spec_call_auipc(),
                        #[trigger] spec_call_jalr(imm),
                    )) || views_of(final(program)@) == with_insert(
                    views_of(old(program)@),
                    pos,
                    1,
                    spec_ret_inst(),
                ))),
    {
        match self.mutation {
            Mutation::Add => {
                mutate_add(rand, base, program);
                MutationResult::Mutated
            },
            Mutation::Replace => mutate_replace(rand, base, program),
            Mutation::ReplaceArg => mutate_replace_arg(rand, program),
            Mutation::RepeatOne => mutate_repeat(rand, program, false),
            Mutation::RepeatSeveral => mutate_repeat(rand, program, true),
            Mutation::SwapTwo => mutate_swap(rand, program),
            Mutation::Remove => mutate_remove(rand, program),
            Mutation::ReplaceWithNop => mutate_nop(rand, program),
            Mutation::Snippet => {
                mutate_snippet(rand, program);
                MutationResult::Mutated
            },
        }
    }

    /// Parses the byte buffer under the whole decoding set, applies this
    /// mutator's strategy with the integer generation set, and writes the
    /// mutated program's bytes back. A buffer that does not parse is left
    /// unchanged and its error returned; a skipped mutation leaves the buffer
    /// unchanged too.
    pub fn mutate_bytes<R: RandomSource>(&self, rand: &mut R, input: &mut Vec<u8>) -> (r: Result<
        MutationResult,
        ParseError,
    >)
        requires
            old(input)@.len() + 256 <= usize::MAX,
        ensures
            (r matches Err(_) ==> final(input)@ == old(input)@),
            r is Err <==> (old(input)@.len() % 4 != 0 || exists|k: int|
                0 <= k < old(input)@.len() / 4 && crate::parser::spec_decode_first(
                    crate::riscv::spec_riscv_g(),
                    #[trigger] crate::parser::spec_word_at(old(input)@, k),
                ) is None),
            (r matches Err(e) ==> (e == ParseError::TrailingGarbage <==> old(input)@.len() % 4
                != 0)),
            (r matches Err(e) ==> (e matches ParseError::UnknownEncoding(w) ==> exists|k: int|
                0 <= k < old(input)@.len() / 4 && w == crate::parser::spec_word_at(old(input)@, k)
                    && crate::parser::spec_decode_first(
                    crate::riscv::spec_riscv_g(),
                    #[trigger] crate::parser::spec_word_at(old(input)@, k),
                ) is None)),
            r == Ok::<MutationResult, ParseError>(MutationResult::Mutated) ==> (exists|
                m: Seq<InstructionView>,
            |
                #[trigger] program_encodable(m) && final(input)@
                    == crate::assembler::spec_assemble(m)),
            old(input)@.len() == 0 && (self.mutation == Mutation::Remove || self.mutation
                == Mutation::Replace || self.mutation == Mutation::ReplaceArg || self.mutation
                == Mutation::SwapTwo || self.mutation == Mutation::RepeatOne || self.mutation
                == Mutation::RepeatSeveral || self.mutation == Mutation::ReplaceWithNop) ==> r
                == Ok::<MutationResult, ParseError>(MutationResult::Skipped),
            old(input)@.len() == 0 && (self.mutation == Mutation::Add || self.mutation
                == Mutation::Snippet) ==> r == Ok::<MutationResult, ParseError>(
                MutationResult::Mutated,
            ),
            r == Ok::<MutationResult, ParseError>(MutationResult::Skipped) ==> final(input)@ == old(input)@,
            r == Ok::<MutationResult, ParseError>(MutationResult::Mutated) ==> {
                &&& final(input)@.len() % 4 == 0
                &&& (self.mutation == Mutation::Add ==> final(input)@.len() == old(input)@.len()
                    + 4)
                &&& (self.mutation == Mutation::Remove ==> final(input)@.len() + 4 == old(input)@.len())
                &&& (self.mutation == Mutation::Replace || self.mutation == Mutation::ReplaceArg
                    || self.mutation == Mutation::SwapTwo || self.mutation
                    == Mutation::ReplaceWithNop ==> final(input)@.len() == old(input)@.len())
                &&& (self.mutation == Mutation::RepeatOne ==> final(input)@.len() == old(input)@.len() + 4)
                &&& (self.mutation == Mutation::RepeatSeveral ==> final(input)@.len() > old(input)@.len())
                &&& (self.mutation == Mutation::Snippet ==> final(input)@.len() == old(input)@.len() + 4 || final(input)@.len() == old(input)@.len() + 8)
            },
    {
        let g = crate::riscv::riscv_g();
        proof {
            assert(views_of(g@) == crate::riscv::spec_riscv_g());
        }
        let parsed = crate::parser::parse_instructions(input, &g);
        let mut program = match parsed {
            Err(e) => { return Err(e) },
            Ok(p) => p,
        };
        proof {
            crate::instructions::lemma_program_wf_encodable(views_of(program@));
            assert(old(input)@.len() == 4 * (old(input)@.len() / 4));
            assert forall|k: int|
                0 <= k < old(input)@.len() / 4 implies crate::parser::spec_decode_first(
                crate::riscv::spec_riscv_g(),
                #[trigger] crate::parser::spec_word_at(old(input)@, k),
            ) is Some by {
                assert(Some(views_of(program@)[k]) == crate::parser::spec_decode_first(
                    crate::riscv::spec_riscv_g(),
                    crate::parser::spec_word_at(old(input)@, k),
                ));
            }
        }
        let base = crate::riscv::riscv_base();
        let res = self.mutate(rand, &base, &mut program);
        if let MutationResult::Skipped = res {
            return Ok(MutationResult::Skipped);
        }
        let bytes = crate::assembler::assemble_instructions(&program);
        *input = bytes;
        proof {
            assert(program_encodable(views_of(program@)) && input@
                == crate::assembler::spec_assemble(views_of(program@)));
        }
        Ok(MutationResult::Mutated)
    }
}

use crate::parser::ParseError;

/// The exploring mutation set: the simple edits twice each and the snippet
/// idiom once.
pub fn all_riscv_mutations() -> (r: Vec<RiscVInstructionMutator>)
    ensures
        r@.len() == 13,
        r@[0].mutation == Mutation::Add,
        r@[1].mutation == Mutation::Add,
        r@[2].mutation == Mutation::Remove,
        r@[3].mutation == Mutation::Remove,
        r@[4].mutation == Mutation::ReplaceArg,
        r@[5].mutation == Mutation::ReplaceArg,
        r@[6].mutation == Mutation::Replace,
        r@[7].mutation == Mutation::Replace,
        r@[8].mutation == Mutation::RepeatSeveral,
        r@[9].mutation == Mutation::RepeatSeveral,
        r@[10].mutation == Mutation::SwapTwo,
        r@[11].mutation == Mutation::SwapTwo,
        r@[12].mutation == Mutation::Snippet,
{
    let mut v: Vec<RiscVInstructionMutator> = Vec::new();
    v.push(RiscVInstructionMutator::new(Mutation::Add));
    v.push(RiscVInstructionMutator::new(Mutation::Add));
    v.push(RiscVInstructionMutator::new(Mutation::Remove));
    v.push(RiscVInstructionMutator::new(Mutation::Remove));
    v.push(RiscVInstructionMutator::new(Mutation::ReplaceArg));
    v.push(RiscVInstructionMutator::new(Mutation::ReplaceArg));
    v.push(RiscVInstructionMutator::new(Mutation::Replace));
    v.push(RiscVInstructionMutator::new(Mutation::Replace));
    v.push(RiscVInstructionMutator::new(Mutation::RepeatSeveral));
    v.push(RiscVInstructionMutator::new(Mutation::RepeatSeveral));
    v.push(RiscVInstructionMutator::new(Mutation::SwapTwo));
    v.push(RiscVInstructionMutator::new(Mutation::SwapTwo));
    v.push(RiscVInstructionMutator::new(Mutation::Snippet));
    v
}

/// The reducing mutation set, used to minimize a crashing program.
pub fn reducing_mutations() -> (r: Vec<RiscVInstructionMutator>)
    ensures
        r@.len() == 3,
        r@[0].mutation == Mutation::Remove,
        r@[1].mutation == Mutation::Remove,
        r@[2].mutation == Mutation::ReplaceWithNop,
{
    let mut v: Vec<RiscVInstructionMutator> = Vec::new();
    v.push(RiscVInstructionMutator::new(Mutation::Remove));
    v.push(RiscVInstructionMutator::new(Mutation::Remove));
    v.push(RiscVInstructionMutator::new(Mutation::ReplaceWithNop));
    v
}

} // verus!
