//! The structured instruction generator: random operand values biased toward
//! reuse of already-seen values and toward powers of two, and random
//! instructions drawn from a caller-supplied template set.

use vstd::prelude::*;

verus! {

use crate::instructions::{
    Argument, ArgumentSpec, ArgumentView, Instruction, InstructionTemplate, InstructionView,
    view_contains, views_of,
};
use crate::riscv::templates_wf;
use crate::rng::RandomSource;

/// The operand values of a program, concatenated in program order: what a
/// generator seeded from the program may reuse.
pub open spec fn spec_program_args(p: Seq<InstructionView>) -> Seq<ArgumentView>
    decreases p.len(),
{
    if p.len() == 0 {
        Seq::empty()
    } else {
        spec_program_args(p.drop_last()) + p.last().arguments
    }
}

/// A generated value is sound for its field when it fits the field or was
/// copied from a seeded value of the same bit length.
pub open spec fn generated_value_ok(a: ArgumentView, known: Seq<ArgumentView>) -> bool {
    a.value < (1u32 << a.arg_spec.length) || exists|i: int|
        0 <= i < known.len() && (#[trigger] known[i]).arg_spec.length == a.arg_spec.length
            && known[i].value == a.value
}

/// Generates random RISC-V operand values and instructions.
pub struct InstGenerator {
    /// Operand values the generator should try to reuse.
    pub known_args: Vec<Argument>,
    /// Chance (0-100) of reusing a known value of the same bit length.
    pub reuse_chance: u64,
    /// Chance (0-100) of choosing a power of two as the value.
    pub power_of_two_chance: u64,
}

impl InstGenerator {
    /// Every seeded value fits its field; then everything generated does too.
    pub open spec fn wf(self) -> bool {
        forall|i: int|
            0 <= i < self.known_args@.len() ==> (#[trigger] views_of(self.known_args@)[i]).wf()
    }

    /// A fresh generator: no seeded values, both biases at one half.
    pub fn new() -> (r: Self)
        ensures
            r.known_args@.len() == 0,
            r.reuse_chance == 50,
            r.power_of_two_chance == 50,
            r.wf(),
    {
        InstGenerator { known_args: Vec::new(), reuse_chance: 50, power_of_two_chance: 50 }
    }

    /// Appends copies of the given operand values to the reuse pool.
    pub fn forward_args(&mut self, args: &[Argument])
        ensures
            views_of(final(self).known_args@) == views_of(old(self).known_args@) + views_of(args@),
            final(self).reuse_chance == old(self).reuse_chance,
            final(self).power_of_two_chance == old(self).power_of_two_chance,
    {
        let n = args.len();
        let mut i: usize = 0;
        while i < n
            invariant
                0 <= i <= n,
                n == args@.len(),
                views_of(self.known_args@) =~= views_of(old(self).known_args@) + views_of(
                    args@,
                ).take(i as int),
                self.reuse_chance == old(self).reuse_chance,
                self.power_of_two_chance == old(self).power_of_two_chance,
            decreases n - i,
        {
            let ghost pre = views_of(self.known_args@);
            self.known_args.push(args[i].clone());
            proof {
                assert(views_of(self.known_args@) =~= pre.push(args@[i as int]@));
                assert(views_of(self.known_args@) =~= views_of(old(self).known_args@) + views_of(
                    args@,
                ).take(i + 1 as int));
            }
            i = i + 1;
        }
        proof {
            assert(views_of(args@).take(n as int) =~= views_of(args@));
            assert(views_of(self.known_args@) =~= views_of(old(self).known_args@) + views_of(
                args@,
            ));
        }
    }

    /// Generates one operand value for the given field: with the reuse chance
    /// a seeded value of the same bit length, otherwise with the
    /// power-of-two chance a value `1 << k` with `k` below the bit length,
    /// otherwise a uniform value that fits the field.
    pub fn generate_argument<R: RandomSource>(&self, rand: &mut R, arg: &ArgumentSpec) -> (a:
        Argument)
        requires
            arg@.wf(),
        ensures
            a@.arg_spec == arg@,
            generated_value_ok(a@, views_of(self.known_args@)),
            self.wf() ==> a@.wf(),
    {
        let ghost known = views_of(self.known_args@);
        if rand.below(100) < self.reuse_chance {
            // collect the positions whose field has the same bit length
            let n = self.known_args.len();
            let mut options: Vec<usize> = Vec::new();
            let mut i: usize = 0;
            while i < n
                invariant
                    0 <= i <= n,
                    n == self.known_args@.len(),
                    known == views_of(self.known_args@),
                    forall|j: int|
                        0 <= j < options@.len() ==> (#[trigger] options@[j]) < n && known[options@[j] as int].arg_spec.length
                            == arg@.length,
                decreases n - i,
            {
                if self.known_args[i].arg_spec().length() == arg.length() {
                    options.push(i);
                }
                i = i + 1;
            }
            if options.len() > 0 {
                let pick = rand.below(options.len() as u64) as usize;
                let idx = options[pick];
                let chosen = &self.known_args[idx];
                let a = Argument::new(arg, chosen.value());
                proof {
                    assert(known[idx as int].arg_spec.length == arg@.length);
                    assert(known[idx as int].value == a@.value);
                    if self.wf() {
                        assert(known[idx as int].wf());
                    }
                }
                return a;
            }
        }
        if rand.below(100) < self.power_of_two_chance {
            let k = rand.below(arg.length() as u64) as u32;
            proof {
                lemma_pow2_below(k, arg@.length);
            }
            Argument::new(arg, 1u32 << k)
        } else {
            let v = rand.below(arg.max_value() as u64) as u32;
            Argument::new(arg, v)
        }
    }

    /// Generates one instruction: a uniformly chosen template from the given
    /// non-empty set, with one generated value per operand, in template order.
    pub fn generate_instruction<R: RandomSource>(
        &self,
        rand: &mut R,
        insts: &Vec<InstructionTemplate>,
    ) -> (r: Instruction)
        requires
            insts@.len() > 0,
            templates_wf(insts@),
        ensures
            view_contains(views_of(insts@), r@.template),
            r@.args_match_template(),
            forall|i: int|
                0 <= i < r@.arguments.len() ==> generated_value_ok(
                    #[trigger] r@.arguments[i],
                    views_of(self.known_args@),
                ),
            self.wf() ==> r@.wf(),
    {
        let t_idx = rand.below(insts.len() as u64) as usize;
        let template = &insts[t_idx];
        proof {
            assert(views_of(insts@)[t_idx as int] == template@);
            assert(insts@[t_idx as int]@.wf());
        }
        let ops = template.operands();
        let n = ops.len();
        let mut arguments: Vec<Argument> = Vec::new();
        let mut i: usize = 0;
        while i < n
            invariant
                0 <= i <= n,
                n == ops@.len(),
                views_of(ops@) == template@.operands,
                template@.wf(),
                arguments@.len() == i,
                forall|j: int|
                    0 <= j < i ==> (#[trigger] views_of(arguments@)[j]).arg_spec
                        == template@.operands[j],
                forall|j: int|
                    0 <= j < i ==> generated_value_ok(
                        #[trigger] views_of(arguments@)[j],
                        views_of(self.known_args@),
                    ),
                self.wf() ==> forall|j: int|
                    0 <= j < i ==> (#[trigger] views_of(arguments@)[j]).wf(),
            decreases n - i,
        {
            proof {
                assert(views_of(ops@)[i as int] == ops@[i as int]@);
                assert(template@.operands[i as int].wf());
            }
            let ghost pre = views_of(arguments@);
            let a = self.generate_argument(rand, &ops[i]);
            arguments.push(a);
            proof {
                assert(views_of(arguments@) =~= pre.push(a@));
            }
            i = i + 1;
        }
        Instruction::new(template, arguments)
    }

    /// Generates the asked-for number of instructions, independently.
    pub fn generate_instructions<R: RandomSource>(
        &self,
        rand: &mut R,
        insts: &Vec<InstructionTemplate>,
        number: u32,
    ) -> (r: Vec<Instruction>)
        requires
            insts@.len() > 0,
            templates_wf(insts@),
        ensures
            r@.len() == number,
            forall|j: int|
                0 <= j < r@.len() ==> view_contains(
                    views_of(insts@),
                    (#[trigger] views_of(r@)[j]).template,
                ),
            forall|j: int| 0 <= j < r@.len() ==> (#[trigger] views_of(r@)[j]).args_match_template(),
            self.wf() ==> forall|j: int| 0 <= j < r@.len() ==> (#[trigger] views_of(r@)[j]).wf(),
    {
        let mut result: Vec<Instruction> = Vec::new();
        let mut i: u32 = 0;
        while i < number
            invariant
                0 <= i <= number,
                result@.len() == i,
                forall|j: int|
                    0 <= j < result@.len() ==> view_contains(
                        views_of(insts@),
                        (#[trigger] views_of(result@)[j]).template,
                    ),
                forall|j: int|
                    0 <= j < result@.len() ==> (#[trigger] views_of(result@)[j]).args_match_template(),
                self.wf() ==> forall|j: int|
                    0 <= j < result@.len() ==> (#[trigger] views_of(result@)[j]).wf(),
                insts@.len() > 0,
                templates_wf(insts@),
            decreases number - i,
        {
            let ghost pre = views_of(result@);
            let inst = self.generate_instruction(rand, insts);
            result.push(inst);
            proof {
                assert(views_of(result@) =~= pre.push(inst@));
            }
            i = i + 1;
        }
        result
    }
}

/// A power of two below the field's length fits the field.
proof fn lemma_pow2_below(k: u32, len: u32)
    by (bit_vector)
    requires
        k < len,
        len <= 31,
    ensures
        (1u32 << k) < (1u32 << len),
{
}

} // verus!
