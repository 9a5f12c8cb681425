//! Summaries of crash artifacts: an artifact file is named
//! `<cause>%<suffix>` where the cause is a bug tag with underscores in place
//! of spaces. The directory walking lives with the caller; here is the pure
//! reading of one artifact name.

use vstd::prelude::*;

verus! {

use vstd::string::StrSliceExecFns;

use crate::asm_text::prefix_before;

/// One found crash artifact: its human-readable cause and how long after the
/// start it appeared, in seconds.
pub struct TestCaseData {
    /// The bug tag, with spaces.
    pub cause: String,
    /// Seconds from the start of the run to the artifact's creation.
    pub time_to_exposure: u64,
}

/// What a causes directory holds: the found artifacts and the expected causes
/// not found yet.
pub struct CausesList {
    /// The artifacts found so far.
    pub found: Vec<TestCaseData>,
    /// The expected causes still missing.
    pub still_missing: Vec<String>,
}

/// Reads one cause character: an underscore stands for a space.
pub open spec fn spec_cause_char(c: char) -> char {
    if c == '_' {
        ' '
    } else {
        c
    }
}

/// The cause an artifact file name carries: the part before the first `%`,
/// with each underscore read as a space.
pub open spec fn spec_cause_of(filename: Seq<char>) -> Seq<char> {
    prefix_before(filename, '%').map_values(|c: char| spec_cause_char(c))
}

/// Reads the human-readable cause out of an artifact file name.
pub fn cause_from_filename(filename: &str) -> (r: String)
    ensures
        r@ == spec_cause_of(filename@),
{
    let n = filename.unicode_len();
    let end = crate::asm_text::scan_to(filename, n, 0, '%');
    proof {
        crate::asm_text::lemma_prefix_before_take(filename@, '%', end as int);
        assert(spec_cause_of(filename@).len() == end);
    }
    let mut out = String::new();
    let mut i: usize = 0;
    while i < end
        invariant
            0 <= i <= end <= n,
            n == filename@.len(),
            prefix_before(filename@, '%') == filename@.take(end as int),
            spec_cause_of(filename@).len() == end,
            out@ =~= spec_cause_of(filename@).take(i as int),
        decreases end - i,
    {
        let c = filename.get_char(i);
        let mapped = if c == '_' {
            ' '
        } else {
            c
        };
        crate::text::push_char(&mut out, mapped);
        proof {
            assert(spec_cause_of(filename@)[i as int] == spec_cause_char(filename@[i as int]));
            assert(out@ =~= spec_cause_of(filename@).take(i + 1 as int));
        }
        i = i + 1;
    }
    proof {
        assert(spec_cause_of(filename@).take(end as int) =~= spec_cause_of(filename@));
    }
    out
}

} // verus!
