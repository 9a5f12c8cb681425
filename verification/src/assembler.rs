//! The assembler: turns a program into its raw byte form, one little-endian
//! 32-bit word per instruction, concatenated without separators.

use vstd::prelude::*;

verus! {

use crate::instructions::{Instruction, InstructionView, program_encodable, views_of};

/// The little-endian bytes of one 32-bit word.
pub open spec fn spec_word_bytes(w: u32) -> Seq<u8> {
    seq![
        (w % 256) as u8,
        ((w / 256) % 256) as u8,
        ((w / 65536) % 256) as u8,
        ((w / 16777216) % 256) as u8,
    ]
}

/// The assembled byte form of a program: every instruction's encoded word,
/// little endian, in program order.
pub open spec fn spec_assemble(p: Seq<InstructionView>) -> Seq<u8>
    decreases p.len(),
{
    if p.len() == 0 {
        Seq::empty()
    } else {
        spec_assemble(p.drop_last()) + spec_word_bytes(p.last().encoded())
    }
}

/// Assemble length: the byte form is exactly four bytes per instruction.
pub proof fn lemma_assemble_length(p: Seq<InstructionView>)
    ensures
        spec_assemble(p).len() == 4 * p.len(),
    decreases p.len(),
{
    if p.len() > 0 {
        lemma_assemble_length(p.drop_last());
    }
}

/// Assembles a program into its raw little-endian byte form. The result holds
/// exactly four bytes per instruction.
pub fn assemble_instructions(input: &Vec<Instruction>) -> (r: Vec<u8>)
    requires
        program_encodable(views_of(input@)),
    ensures
        r@ == spec_assemble(views_of(input@)),
        r@.len() == 4 * input@.len(),
{
    let ghost p = views_of(input@);
    let n = input.len();
    let mut result: Vec<u8> = Vec::new();
    let mut i: usize = 0;
    while i < n
        invariant
            0 <= i <= n,
            n == input@.len(),
            p == views_of(input@),
            program_encodable(p),
            result@ == spec_assemble(p.take(i as int)),
            result@.len() == 4 * i,
        decreases n - i,
    {
        proof {
            assert(p[i as int].encodable());
        }
        let w = input[i].encode();
        result.push((w % 256) as u8);
        result.push(((w / 256) % 256) as u8);
        result.push(((w / 65536) % 256) as u8);
        result.push(((w / 16777216) % 256) as u8);
        proof {
            let q = p.take(i + 1 as int);
            assert(q.drop_last() =~= p.take(i as int));
            assert(q.last() == p[i as int]);
            assert(result@ =~= spec_assemble(p.take(i as int)) + spec_word_bytes(w));
        }
        i = i + 1;
    }
    proof {
        assert(p.take(n as int) =~= p);
    }
    result
}

} // verus!
