//! The fuzzer-facing program input: an ordered sequence of instructions with
//! its assembled target-bytes view, a byte serialization, a deterministic
//! name, and cropping.

use vstd::prelude::*;

verus! {

use crate::assembler::{assemble_instructions, spec_assemble};
use crate::instructions::{
    Instruction, InstructionView, TemplateView, program_encodable, program_wf, view_contains,
    views_of,
};
use crate::parser::{ParseError, no_overlap, parse_instructions, spec_decode_first, spec_word_at};
use crate::text::{is_dec_digit, is_hex_digit, push_dec, push_hex16, spec_dec_digits,
    spec_hex_digits};

/// Access to the instructions of a program-shaped input.
pub trait HasProgramInput {
    /// The mathematical program held.
    spec fn spec_insts(&self) -> Seq<InstructionView>;

    /// A read view of the instructions.
    fn insts(&self) -> (r: &[Instruction])
        ensures
            views_of(r@) == self.spec_insts(),
    ;

    /// A mutable view of the instructions, for the mutation stage.
    fn insts_mut(&mut self) -> (r: &mut Vec<Instruction>)
        ensures
            views_of((*r)@) == old(self).spec_insts(),
            final(self).spec_insts() == views_of((*final(r))@),
    ;
}

/// The argument error for a crop with bad bounds.
#[derive(Clone, Copy, Debug, PartialEq, Eq, Structural)]
pub struct InvalidArgument;

/// An ordered, possibly empty sequence of instructions: the fuzzer's unit of
/// input.
#[derive(Debug)]
pub struct ProgramInput {
    pub insts: Vec<Instruction>,
}

impl View for ProgramInput {
    type V = Seq<InstructionView>;

    open spec fn view(&self) -> Seq<InstructionView> {
        views_of(self.insts@)
    }
}

impl Clone for ProgramInput {
    fn clone(&self) -> (r: Self)
        ensures
            r@ == self@,
    {
        let insts = self.insts.clone();
        proof {
            assert forall|i: int|
                0 <= i < insts@.len() implies views_of(insts@)[i] == views_of(self.insts@)[i] by {
                assert(vstd::pervasive::cloned::<Instruction>(self.insts@[i], insts@[i]));
            }
            assert(views_of(insts@) =~= views_of(self.insts@));
        }
        ProgramInput { insts }
    }
}

impl PartialEq for ProgramInput {
    fn eq(&self, other: &Self) -> (r: bool) {
        if self.insts.len() != other.insts.len() {
            proof {
                if self@ == other@ {
                    assert(self@.len() == other@.len());
                }
            }
            return false;
        }
        let n = self.insts.len();
        let mut i: usize = 0;
        while i < n
            invariant
                0 <= i <= n,
                n == self.insts.len(),
                n == other.insts.len(),
                forall|j: int| 0 <= j < i ==> views_of(self.insts@)[j] == views_of(other.insts@)[j],
            decreases n - i,
        {
            if !(self.insts[i] == other.insts[i]) {
                proof {
                    if self@ == other@ {
                        assert(views_of(self.insts@)[i as int] == views_of(other.insts@)[i as int]);
                    }
                }
                return false;
            }
            i = i + 1;
        }
        proof {
            assert(views_of(self.insts@) =~= views_of(other.insts@));
        }
        true
    }
}

impl Eq for ProgramInput {}

impl vstd::std_specs::cmp::PartialEqSpecImpl for ProgramInput {
    open spec fn obeys_eq_spec() -> bool {
        true
    }

    open spec fn eq_spec(&self, other: &Self) -> bool {
        self@ == other@
    }
}

impl Default for ProgramInput {
    /// The empty program.
    fn default() -> (r: Self)
        ensures
            r@.len() == 0,
    {
        ProgramInput { insts: Vec::new() }
    }
}

impl HasProgramInput for ProgramInput {
    open spec fn spec_insts(&self) -> Seq<InstructionView> {
        self@
    }

    fn insts(&self) -> (r: &[Instruction]) {
        self.insts.as_slice()
    }

    fn insts_mut(&mut self) -> (r: &mut Vec<Instruction>) {
        &mut self.insts
    }
}

// ---------------------------------------------------------------------------
// The stable name
// ---------------------------------------------------------------------------

/// The seed of the 64-bit digest under the name.
pub open spec fn spec_hash_seed() -> u64 {
    0xcbf29ce484222325u64
}

/// The multiplier of the 64-bit digest under the name.
pub open spec fn spec_hash_prime() -> u64 {
    0x100000001b3u64
}

/// The running 64-bit digest of a byte sequence: fold each byte in by
/// exclusive-or, then multiply, wrapping, by a fixed odd prime.
pub open spec fn spec_hash64(bytes: Seq<u8>) -> u64
    decreases bytes.len(),
{
    if bytes.len() == 0 {
        spec_hash_seed()
    } else {
        (((spec_hash64(bytes.drop_last()) ^ (bytes.last() as u64)) as int) * (
        spec_hash_prime() as int)) as u64
    }
}

/// Computes the 64-bit digest of a byte buffer.
fn hash64(bytes: &Vec<u8>) -> (r: u64)
    ensures
        r == spec_hash64(bytes@),
{
    let mut h: u64 = 0xcbf29ce484222325;
    let n = bytes.len();
    let mut i: usize = 0;
    while i < n
        invariant
            0 <= i <= n,
            n == bytes@.len(),
            h == spec_hash64(bytes@.take(i as int)),
        decreases n - i,
    {
        let x = h ^ (bytes[i] as u64);
        let wide: u128 = (x as u128) * (0x100000001b3u64 as u128);
        h = #[verifier::truncate] (wide as u64);
        proof {
            let q = bytes@.take(i + 1 as int);
            assert(q.drop_last() =~= bytes@.take(i as int));
            assert(q.last() == bytes@[i as int]);
        }
        i = i + 1;
    }
    proof {
        assert(bytes@.take(n as int) =~= bytes@);
    }
    h
}

/// The deterministic name of a program: its length and the digest of its
/// assembled bytes, rendered as `size:<decimal>-hash:<16 hex digits>`.
pub open spec fn spec_program_name(p: Seq<InstructionView>) -> Seq<char> {
    "size:"@ + spec_dec_digits(p.len()) + "-hash:"@ + spec_hex_digits(
        spec_hash64(spec_assemble(p)),
        16,
    )
}

/// Name stability: the name is a function of the program alone, so equal
/// programs always carry equal names.
pub proof fn lemma_name_stability(p: Seq<InstructionView>, q: Seq<InstructionView>)
    requires
        p == q,
    ensures
        spec_program_name(p) == spec_program_name(q),
{
}

/// Name shape: the name is `size:`, one or more decimal digits, `-hash:`,
/// and exactly sixteen lowercase hexadecimal digits.
pub proof fn lemma_name_shape(p: Seq<InstructionView>)
    ensures
        exists|d: Seq<char>, h: Seq<char>|
            #![trigger d.len(), h.len()]
            {
                &&& spec_program_name(p) == "size:"@ + d + "-hash:"@ + h
                &&& d.len() >= 1
                &&& (forall|i: int| 0 <= i < d.len() ==> is_dec_digit(#[trigger] d[i]))
                &&& h.len() == 16
                &&& (forall|i: int| 0 <= i < h.len() ==> is_hex_digit(#[trigger] h[i]))
            },
{
    let d = spec_dec_digits(p.len());
    let h = spec_hex_digits(spec_hash64(spec_assemble(p)), 16);
    crate::text::lemma_dec_digits_are_digits(p.len());
    crate::text::lemma_hex_digits_are_digits(spec_hash64(spec_assemble(p)), 16);
    assert(spec_program_name(p) == "size:"@ + d + "-hash:"@ + h);
}

// ---------------------------------------------------------------------------
// The input type
// ---------------------------------------------------------------------------

impl ProgramInput {
    /// Wraps an instruction sequence as a program input.
    pub fn new(insts: Vec<Instruction>) -> (r: Self)
        ensures
            r@ == views_of(insts@),
    {
        ProgramInput { insts }
    }

    /// The number of instructions.
    pub fn len(&self) -> (r: usize)
        ensures
            r == self@.len(),
    {
        self.insts.len()
    }

    /// The little-endian assembled bytes the target executes: four bytes per
    /// instruction.
    pub fn target_bytes(&self) -> (r: Vec<u8>)
        requires
            program_encodable(self@),
        ensures
            r@ == spec_assemble(self@),
            r@.len() == 4 * self@.len(),
    {
        assemble_instructions(&self.insts)
    }

    /// Writes the assembled byte form over the given buffer.
    pub fn unparse(&self, bytes: &mut Vec<u8>)
        requires
            program_encodable(self@),
        ensures
            final(bytes)@ == spec_assemble(self@),
    {
        bytes.clear();
        let mut out = assemble_instructions(&self.insts);
        bytes.append(&mut out);
        proof {
            assert(bytes@ =~= spec_assemble(self@));
        }
    }

    /// The on-disk payload: the assembled byte form, the stable form that
    /// outlives changes to the in-memory representation.
    pub fn serialize(&self) -> (r: Vec<u8>)
        requires
            program_encodable(self@),
        ensures
            r@ == spec_assemble(self@),
    {
        assemble_instructions(&self.insts)
    }

    /// Reads a program back from its on-disk payload by parsing it under the
    /// whole opcode table: one instruction per little-endian word, each the
    /// first-match decoding under `spec_all`; bytes that no longer decode are
    /// rejected with the first offending word.
    pub fn deserialize(bytes: &Vec<u8>) -> (r: Result<ProgramInput, ParseError>)
        ensures
            r == Err::<ProgramInput, ParseError>(ParseError::TrailingGarbage) <==> bytes@.len() % 4
                != 0,
            (r matches Ok(p) ==> {
                &&& p@.len() == bytes@.len() / 4
                &&& program_wf(p@)
                &&& forall|k: int|
                    0 <= k < p@.len() ==> Some(#[trigger] p@[k]) == spec_decode_first(
                        crate::riscv::spec_all(),
                        spec_word_at(bytes@, k),
                    )
            }),
            (r matches Err(e) ==> (e matches ParseError::UnknownEncoding(w) ==> exists|k: int|
                0 <= k < bytes@.len() / 4 && w == spec_word_at(bytes@, k) && spec_decode_first(
                    crate::riscv::spec_all(),
                    #[trigger] spec_word_at(bytes@, k),
                ) is None)),
            bytes@.len() % 4 == 0 && (forall|k: int|
                0 <= k < bytes@.len() / 4 ==> spec_decode_first(
                    crate::riscv::spec_all(),
                    #[trigger] spec_word_at(bytes@, k),
                ) is Some) ==> r is Ok,
    {
        let table = crate::riscv::all();
        proof {
            assert(views_of(table@) == crate::riscv::spec_all());
        }
        match parse_instructions(bytes, &table) {
            Ok(insts) => Ok(ProgramInput { insts }),
            Err(e) => Err(e),
        }
    }

    /// The deterministic, filesystem-safe name `size:{N}-hash:{H}`.
    pub fn generate_name(&self, idx: usize) -> (r: String)
        requires
            program_encodable(self@),
        ensures
            r@ == spec_program_name(self@),
    {
        let bytes = assemble_instructions(&self.insts);
        let digest = hash64(&bytes);
        let mut name = String::new();
        name.append("size:");
        push_dec(&mut name, self.insts.len() as u64);
        name.append("-hash:");
        push_hex16(&mut name, digest);
        proof {
            assert(name@ =~= spec_program_name(self@));
        }
        name
    }

    /// The instructions held, in order.
    pub fn insts(&self) -> (r: &[Instruction])
        ensures
            views_of(r@) == self@,
    {
        self.insts.as_slice()
    }

    /// The instructions held, for editing in place.
    pub fn insts_mut(&mut self) -> (r: &mut Vec<Instruction>)
        ensures
            views_of((*r)@) == old(self)@,
            final(self)@ == views_of((*final(r))@),
    {
        &mut self.insts
    }

    /// The sub-program over `[from, to)`: only bounds with
    /// `from < to <= len` are accepted.
    pub fn crop(&self, from: usize, to: usize) -> (r: Result<ProgramInput, InvalidArgument>)
        ensures
            r is Ok <==> from < to <= self@.len(),
            (r matches Ok(p) ==> p@ == self@.subrange(from as int, to as int)),
    {
        if from < to && to <= self.insts.len() {
            let mut insts: Vec<Instruction> = Vec::new();
            let mut i: usize = from;
            while i < to
                invariant
                    from <= i <= to,
                    to <= self.insts@.len(),
                    views_of(insts@) =~= self@.subrange(from as int, i as int),
                decreases to - i,
            {
                let ghost pre = views_of(insts@);
                insts.push(self.insts[i].clone());
                proof {
                    assert(views_of(insts@) =~= pre.push(self@[i as int]));
                    assert(views_of(insts@) =~= self@.subrange(from as int, i + 1 as int));
                }
                i = i + 1;
            }
            Ok(ProgramInput { insts })
        } else {
            Err(InvalidArgument)
        }
    }
}

/// Serialization round-trip: over a set without overlapping templates, the
/// serialized bytes of a well-formed program parse back, under first-match
/// order, to exactly the instructions serialized.
pub proof fn lemma_serialize_round_trip(ts: Seq<TemplateView>, p: Seq<InstructionView>)
    requires
        program_wf(p),
        no_overlap(ts),
        forall|k: int| 0 <= k < p.len() ==> view_contains(ts, (#[trigger] p[k]).template),
    ensures
        spec_assemble(p).len() % 4 == 0,
        spec_assemble(p).len() / 4 == p.len(),
        forall|k: int|
            0 <= k < p.len() ==> spec_decode_first(ts, #[trigger] spec_word_at(spec_assemble(p), k))
                == Some(p[k]),
{
    crate::parser::lemma_parse_round_trip(ts, p);
}

} // verus!
