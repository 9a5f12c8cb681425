//! The parser: turns a raw byte buffer back into a program by reading
//! little-endian 32-bit words and decoding each with the first matching
//! template of a given set.

use vstd::prelude::*;

verus! {

use crate::assembler::{spec_assemble, spec_word_bytes};
use crate::instructions::{
    Instruction, InstructionTemplate, InstructionView, TemplateView, lemma_encode_decode_round_trip,
    program_wf, spec_decode, view_contains, views_of,
};
use crate::riscv::templates_wf;

/// Why a byte buffer failed to parse.
#[derive(Clone, Copy, Debug, PartialEq, Eq, Structural)]
pub enum ParseError {
    /// The buffer's length is not a multiple of four.
    TrailingGarbage,
    /// No template of the given set matched this word.
    UnknownEncoding(u32),
}

/// The little-endian 32-bit word stored at word index `k` of the buffer.
pub open spec fn spec_word_at(bytes: Seq<u8>, k: int) -> u32 {
    ((bytes[4 * k] as int) + 256 * (bytes[4 * k + 1] as int) + 65536 * (bytes[4 * k + 2] as int)
        + 16777216 * (bytes[4 * k + 3] as int)) as u32
}

/// What decoding one word against the set yields: the first matching
/// template's decoding, if any template matches.
pub open spec fn spec_decode_first(ts: Seq<TemplateView>, w: u32) -> Option<InstructionView>
    decreases ts.len(),
{
    if ts.len() == 0 {
        None
    } else if ts[0].spec_matches(w) {
        Some(spec_decode(ts[0], w))
    } else {
        spec_decode_first(ts.skip(1), w)
    }
}

/// No two distinct templates of the set can match one word: each pair
/// disagrees on some bit position that both masks fix.
pub open spec fn no_overlap(ts: Seq<TemplateView>) -> bool {
    forall|i: int, j: int|
        #![trigger ts[i], ts[j]]
        0 <= i < ts.len() && 0 <= j < ts.len() && i != j ==> (ts[i].match_pattern
            ^ ts[j].match_pattern) & ts[i].mask_pattern & ts[j].mask_pattern != 0
}

/// A word that matches one of two mask-disjointed patterns cannot match the
/// other.
proof fn lemma_no_double_match(w: u32, m1: u32, k1: u32, m2: u32, k2: u32)
    by (bit_vector)
    requires
        (m1 ^ m2) & k1 & k2 != 0,
        w & k1 == m1,
    ensures
        w & k2 != m2,
{
}

/// When the first match in the set sits at index `i`, decoding returns that
/// template's decoding.
proof fn lemma_decode_first_at(ts: Seq<TemplateView>, w: u32, i: int)
    requires
        0 <= i < ts.len(),
        forall|j: int| 0 <= j < i ==> !(#[trigger] ts[j]).spec_matches(w),
        ts[i].spec_matches(w),
    ensures
        spec_decode_first(ts, w) == Some(spec_decode(ts[i], w)),
    decreases i,
{
    if i > 0 {
        assert(ts.skip(1)[i - 1] == ts[i]);
        assert forall|j: int| 0 <= j < i - 1 implies !(#[trigger] ts.skip(1)[j]).spec_matches(w) by {
            assert(ts.skip(1)[j] == ts[j + 1]);
        }
        lemma_decode_first_at(ts.skip(1), w, i - 1);
    }
}

/// When no template of the set matches, decoding returns nothing.
proof fn lemma_decode_first_none(ts: Seq<TemplateView>, w: u32)
    requires
        forall|j: int| 0 <= j < ts.len() ==> !(#[trigger] ts[j]).spec_matches(w),
    ensures
        spec_decode_first(ts, w) is None,
    decreases ts.len(),
{
    if ts.len() > 0 {
        assert forall|j: int|
            0 <= j < ts.skip(1).len() implies !(#[trigger] ts.skip(1)[j]).spec_matches(w) by {
            assert(ts.skip(1)[j] == ts[j + 1]);
        }
        lemma_decode_first_none(ts.skip(1), w);
    }
}

/// Decodes one word with the first matching template of the set.
fn decode_first(insts: &Vec<InstructionTemplate>, w: u32) -> (r: Option<Instruction>)
    requires
        templates_wf(insts@),
    ensures
        r is Some <==> spec_decode_first(views_of(insts@), w) is Some,
        (r matches Some(inst) ==> Some(inst@) == spec_decode_first(views_of(insts@), w)),
        (r matches Some(inst) ==> inst@.wf()),
{
    let ghost ts = views_of(insts@);
    let n = insts.len();
    let mut i: usize = 0;
    while i < n
        invariant
            0 <= i <= n,
            n == insts@.len(),
            ts == views_of(insts@),
            templates_wf(insts@),
            forall|j: int| 0 <= j < i ==> !(#[trigger] ts[j]).spec_matches(w),
        decreases n - i,
    {
        proof {
            assert(insts@[i as int]@ == ts[i as int]);
            assert(insts@[i as int]@.wf());
        }
        let d = insts[i].decode(w);
        if let Some(inst) = d {
            proof {
                lemma_decode_first_at(ts, w, i as int);
            }
            return Some(inst);
        }
        i = i + 1;
    }
    proof {
        lemma_decode_first_none(ts, w);
    }
    None
}

/// Parses a byte buffer as a sequence of little-endian 32-bit instruction
/// words, decoding every word with the first matching template of the set.
///
/// The buffer is rejected with `TrailingGarbage` exactly when its length is
/// not a multiple of four, and with `UnknownEncoding` carrying the first
/// undecodable word when one exists; otherwise parsing succeeds and yields
/// one instruction per word.
pub fn parse_instructions(input: &Vec<u8>, insts: &Vec<InstructionTemplate>) -> (r: Result<
    Vec<Instruction>,
    ParseError,
>)
    requires
        templates_wf(insts@),
    ensures
        r == Err::<Vec<Instruction>, ParseError>(ParseError::TrailingGarbage) <==> input@.len() % 4
            != 0,
        (r matches Ok(p) ==> {
            &&& p@.len() == input@.len() / 4
            &&& program_wf(views_of(p@))
            &&& forall|k: int|
                0 <= k < p@.len() ==> Some((#[trigger] views_of(p@)[k])) == spec_decode_first(
                    views_of(insts@),
                    spec_word_at(input@, k),
                )
        }),
        (r matches Err(e) ==> (e matches ParseError::UnknownEncoding(w) ==> exists|k: int|
            0 <= k < input@.len() / 4 && w == spec_word_at(input@, k) && spec_decode_first(
                views_of(insts@),
                #[trigger] spec_word_at(input@, k),
            ) is None && (forall|j: int|
                0 <= j < k ==> spec_decode_first(
                    views_of(insts@),
                    #[trigger] spec_word_at(input@, j),
                ) is Some))),
        input@.len() % 4 == 0 && (forall|k: int|
            0 <= k < input@.len() / 4 ==> spec_decode_first(
                views_of(insts@),
                #[trigger] spec_word_at(input@, k),
            ) is Some) ==> r is Ok,
{
    if input.len() % 4 != 0 {
        return Err(ParseError::TrailingGarbage);
    }
    let ghost ts = views_of(insts@);
    let len = input.len();
    let n = len / 4;
    let mut result: Vec<Instruction> = Vec::new();
    let mut k: usize = 0;
    while k < n
        invariant
            0 <= k <= n,
            len == input@.len(),
            n == input@.len() / 4,
            input@.len() % 4 == 0,
            input@.len() == 4 * n,
            ts == views_of(insts@),
            templates_wf(insts@),
            result@.len() == k,
            program_wf(views_of(result@)),
            forall|j: int|
                0 <= j < k ==> Some((#[trigger] views_of(result@)[j])) == spec_decode_first(
                    ts,
                    spec_word_at(input@, j),
                ),
        decreases n - k,
    {
        let base = k * 4;
        let b0 = input[base] as u32;
        let b1 = input[base + 1] as u32;
        let b2 = input[base + 2] as u32;
        let b3 = input[base + 3] as u32;
        let w: u32 = b0 + b1 * 256 + b2 * 65536 + b3 * 16777216;
        proof {
            assert(w == spec_word_at(input@, k as int));
        }
        let d = decode_first(insts, w);
        match d {
            Some(inst) => {
                let ghost pre = views_of(result@);
                result.push(inst);
                proof {
                    assert(views_of(result@) =~= pre.push(inst@));
                }
            },
            None => {
                proof {
                    assert forall|j: int|
                        0 <= j < k implies spec_decode_first(
                        ts,
                        #[trigger] spec_word_at(input@, j),
                    ) is Some by {
                        assert(Some(views_of(result@)[j]) == spec_decode_first(
                            ts,
                            spec_word_at(input@, j),
                        ));
                    }
                }
                return Err(ParseError::UnknownEncoding(w));
            },
        }
        k = k + 1;
    }
    Ok(result)
}

/// Parse round-trip: over a set in which no two templates can match one word,
/// every well-formed program built from that set is recovered exactly from
/// its assembled bytes: the byte form's length is a multiple of four and each
/// of its words decodes, under first-match order, to the original
/// instruction.
pub proof fn lemma_parse_round_trip(ts: Seq<TemplateView>, p: Seq<InstructionView>)
    requires
        program_wf(p),
        no_overlap(ts),
        forall|k: int| 0 <= k < p.len() ==> view_contains(ts, (#[trigger] p[k]).template),
    ensures
        spec_assemble(p).len() % 4 == 0,
        spec_assemble(p).len() / 4 == p.len(),
        forall|k: int|
            0 <= k < p.len() ==> spec_decode_first(ts, #[trigger] spec_word_at(spec_assemble(p), k))
                == Some(p[k]),
{
    crate::assembler::lemma_assemble_length(p);
    assert forall|k: int|
        0 <= k < p.len() implies spec_decode_first(ts, #[trigger] spec_word_at(spec_assemble(p), k))
        == Some(p[k]) by {
        lemma_assemble_word_at(p, k);
        let w = p[k].encoded();
        assert(p[k].wf());
        lemma_encode_decode_round_trip(p[k]);
        let i = choose|i: int| 0 <= i < ts.len() && ts[i] == p[k].template;
        assert(ts[i].spec_matches(w));
        assert forall|j: int| 0 <= j < i implies !(#[trigger] ts[j]).spec_matches(w) by {
            assert((ts[j].match_pattern ^ ts[i].match_pattern) & ts[j].mask_pattern
                & ts[i].mask_pattern != 0);
            lemma_no_double_match(
                w,
                ts[i].match_pattern,
                ts[i].mask_pattern,
                ts[j].match_pattern,
                ts[j].mask_pattern,
            );
        }
        lemma_decode_first_at(ts, w, i);
    }
}

/// The word stored at index `k` of a program's byte form is the `k`-th
/// instruction's encoded word.
pub proof fn lemma_assemble_word_at(p: Seq<InstructionView>, k: int)
    requires
        0 <= k < p.len(),
    ensures
        spec_word_at(spec_assemble(p), k) == p[k].encoded(),
    decreases p.len(),
{
    crate::assembler::lemma_assemble_length(p);
    crate::assembler::lemma_assemble_length(p.drop_last());
    let bytes = spec_assemble(p);
    let pre = spec_assemble(p.drop_last());
    let w = p[p.len() - 1].encoded();
    if k == p.len() - 1 {
        assert(bytes[4 * k] == spec_word_bytes(w)[0]);
        assert(bytes[4 * k + 1] == spec_word_bytes(w)[1]);
        assert(bytes[4 * k + 2] == spec_word_bytes(w)[2]);
        assert(bytes[4 * k + 3] == spec_word_bytes(w)[3]);
        lemma_word_split(w);
    } else {
        lemma_assemble_word_at(p.drop_last(), k);
        assert(bytes[4 * k] == pre[4 * k]);
        assert(bytes[4 * k + 1] == pre[4 * k + 1]);
        assert(bytes[4 * k + 2] == pre[4 * k + 2]);
        assert(bytes[4 * k + 3] == pre[4 * k + 3]);
        assert(p.drop_last()[k] == p[k]);
    }
}

/// A 32-bit word is recovered from its four little-endian bytes.
proof fn lemma_word_split(w: u32)
    by (bit_vector)
    ensures
        w == (w % 256) + 256 * ((w / 256) % 256) + 65536 * ((w / 65536) % 256) + 16777216 * ((w
            / 16777216) % 256),
{
}

/// When some template of the set matches the word, decoding yields an
/// instruction.
proof fn lemma_decode_first_some(ts: Seq<TemplateView>, w: u32)
    requires
        exists|i: int| 0 <= i < ts.len() && (#[trigger] ts[i]).spec_matches(w),
    ensures
        spec_decode_first(ts, w) is Some,
    decreases ts.len(),
{
    let i = choose|i: int| 0 <= i < ts.len() && (#[trigger] ts[i]).spec_matches(w);
    if i > 0 && !ts[0].spec_matches(w) {
        assert(ts.skip(1)[i - 1].spec_matches(w));
        lemma_decode_first_some(ts.skip(1), w);
    }
}

/// Mutation soundness at the byte level: every word of the assembled form of
/// a program of encodable instructions, with each template drawn from the
/// set, decodes under that set.
pub proof fn lemma_mutated_program_decodes(ts: Seq<TemplateView>, p: Seq<InstructionView>)
    requires
        crate::instructions::program_encodable(p),
        forall|k: int| 0 <= k < p.len() ==> view_contains(ts, (#[trigger] p[k]).template),
    ensures
        spec_assemble(p).len() % 4 == 0,
        spec_assemble(p).len() / 4 == p.len(),
        forall|k: int|
            0 <= k < p.len() ==> spec_decode_first(
                ts,
                #[trigger] spec_word_at(spec_assemble(p), k),
            ) is Some,
{
    crate::assembler::lemma_assemble_length(p);
    assert forall|k: int|
        0 <= k < p.len() implies spec_decode_first(
        ts,
        #[trigger] spec_word_at(spec_assemble(p), k),
    ) is Some by {
        lemma_assemble_word_at(p, k);
        let w = p[k].encoded();
        assert(p[k].encodable());
        crate::instructions::lemma_encodable_matches(p[k]);
        let i = choose|i: int| 0 <= i < ts.len() && ts[i] == p[k].template;
        assert(ts[i].spec_matches(w));
        lemma_decode_first_some(ts, w);
    }
}

/// Checks at run time that no two distinct templates of the set can match
/// one word, which is what the parse round-trip relies on.
pub fn check_no_overlap(insts: &Vec<InstructionTemplate>) -> (r: bool)
    ensures
        r == no_overlap(views_of(insts@)),
{
    let ghost ts = views_of(insts@);
    let n = insts.len();
    let mut i: usize = 0;
    while i < n
        invariant
            0 <= i <= n,
            n == insts@.len(),
            ts == views_of(insts@),
            forall|a: int, b: int|
                #![trigger ts[a], ts[b]]
                0 <= a < i && 0 <= b < n && a != b ==> (ts[a].match_pattern ^ ts[b].match_pattern)
                    & ts[a].mask_pattern & ts[b].mask_pattern != 0,
        decreases n - i,
    {
        let mut j: usize = 0;
        while j < n
            invariant
                0 <= j <= n,
                0 <= i < n,
                n == insts@.len(),
                ts == views_of(insts@),
                forall|a: int, b: int|
                    #![trigger ts[a], ts[b]]
                    0 <= a < i && 0 <= b < n && a != b ==> (ts[a].match_pattern
                        ^ ts[b].match_pattern) & ts[a].mask_pattern & ts[b].mask_pattern != 0,
                forall|b: int|
                    #![trigger ts[b]]
                    0 <= b < j && b != i ==> (ts[i as int].match_pattern ^ ts[b].match_pattern)
                        & ts[i as int].mask_pattern & ts[b].mask_pattern != 0,
            decreases n - j,
        {
            if j != i {
                let ma = insts[i].match_pattern;
                let mb = insts[j].match_pattern;
                let ka = insts[i].mask_pattern;
                let kb = insts[j].mask_pattern;
                proof {
                    assert(ts[i as int] == insts@[i as int]@);
                    assert(ts[j as int] == insts@[j as int]@);
                }
                if (ma ^ mb) & ka & kb == 0 {
                    proof {
                        assert(!no_overlap(ts));
                    }
                    return false;
                }
            }
            j = j + 1;
        }
        i = i + 1;
    }
    true
}

} // verus!
