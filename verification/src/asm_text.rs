//! The text form of instructions: one instruction per line, in the grammar
//! `NAME ARG=VALUE ARG=VALUE ...` with decimal or `0x`-prefixed hexadecimal
//! values, and `#` opening a comment.

use vstd::prelude::*;

verus! {

use vstd::string::StrSliceExecFns;
use vstd::string::StringExecFns;

use crate::instructions::{
    ArgSpecView, Argument, ArgumentView, Instruction, InstructionTemplate, TemplateView,
    view_contains, views_of,
};
use crate::riscv::templates_wf;
use crate::text::{parse_radix_u32, push_dec, spec_radix_value, str_eq, valid_digits};

// ---------------------------------------------------------------------------
// Lines and tokens
// ---------------------------------------------------------------------------

/// The characters before the first occurrence of `c`.
pub open spec fn prefix_before(s: Seq<char>, c: char) -> Seq<char>
    decreases s.len(),
{
    if s.len() == 0 {
        s
    } else if s.first() == c {
        Seq::empty()
    } else {
        seq![s.first()] + prefix_before(s.drop_first(), c)
    }
}

/// The maximal run of non-space characters starting at `i`.
pub open spec fn run_at(s: Seq<char>, i: int) -> Seq<char>
    decreases s.len() - i,
{
    if i < 0 || i >= s.len() || s[i] == ' ' {
        Seq::empty()
    } else {
        seq![s[i]] + run_at(s, i + 1)
    }
}

/// The space-separated tokens of the characters from `i` on.
pub open spec fn spec_tokens_at(s: Seq<char>, i: int) -> Seq<Seq<char>>
    decreases s.len() - i,
    via spec_tokens_at_decreases
{
    if i < 0 || i >= s.len() {
        Seq::empty()
    } else if s[i] == ' ' {
        spec_tokens_at(s, i + 1)
    } else {
        seq![run_at(s, i)] + spec_tokens_at(s, i + run_at(s, i).len())
    }
}

#[via_fn]
proof fn spec_tokens_at_decreases(s: Seq<char>, i: int) {
    if 0 <= i < s.len() && s[i] != ' ' {
        lemma_run_at_len(s, i);
    }
}

/// A run starting inside the string is nonempty and stays inside it.
proof fn lemma_run_at_len(s: Seq<char>, i: int)
    requires
        0 <= i < s.len(),
        s[i] != ' ',
    ensures
        1 <= run_at(s, i).len() <= s.len() - i,
    decreases s.len() - i,
{
    assert(run_at(s, i) == seq![s[i]] + run_at(s, i + 1));
    if i + 1 < s.len() && s[i + 1] != ' ' {
        lemma_run_at_len(s, i + 1);
    } else {
        assert(run_at(s, i + 1) == Seq::<char>::empty());
    }
}

/// The tokens of a line, after dropping any `#` comment.
pub open spec fn spec_line_tokens(line: Seq<char>) -> Seq<Seq<char>> {
    spec_tokens_at(prefix_before(line, '#'), 0)
}

/// The number of occurrences of `c`.
pub open spec fn count_char(s: Seq<char>, c: char) -> int
    decreases s.len(),
{
    if s.len() == 0 {
        0
    } else {
        count_char(s.drop_last(), c) + if s.last() == c {
            1int
        } else {
            0int
        }
    }
}

/// A run that stops at the next space is exactly the segment it covers.
proof fn lemma_run_at_subrange(s: Seq<char>, i: int, e: int)
    requires
        0 <= i <= e <= s.len(),
        forall|j: int| i <= j < e ==> s[j] != ' ',
        e == s.len() || s[e] == ' ',
    ensures
        run_at(s, i) == s.subrange(i, e),
    decreases e - i,
{
    if i == e {
    } else {
        lemma_run_at_subrange(s, i + 1, e);
        assert(seq![s[i]] + s.subrange(i + 1, e) =~= s.subrange(i, e));
    }
}

/// The prefix before `c` is the segment up to its first occurrence.
pub(crate) proof fn lemma_prefix_before_take(s: Seq<char>, c: char, e: int)
    requires
        0 <= e <= s.len(),
        forall|j: int| 0 <= j < e ==> s[j] != c,
        e == s.len() || s[e] == c,
    ensures
        prefix_before(s, c) == s.take(e),
    decreases s.len(),
{
    if s.len() == 0 {
        assert(s.take(e) =~= s);
    } else if e == 0 {
        assert(s.take(0) =~= Seq::<char>::empty());
    } else {
        assert forall|j: int| 0 <= j < e - 1 implies s.drop_first()[j] != c by {
            assert(s.drop_first()[j] == s[j + 1]);
        }
        lemma_prefix_before_take(s.drop_first(), c, e - 1);
        assert(seq![s.first()] + s.drop_first().take(e - 1) =~= s.take(e));
    }
}

/// Scans to the first occurrence of `c` at or after `start`.
pub(crate) fn scan_to(s: &str, n: usize, start: usize, c: char) -> (e: usize)
    requires
        n == s@.len(),
        start <= n,
    ensures
        start <= e <= n,
        forall|j: int| start <= j < e ==> s@[j] != c,
        e == n || s@[e as int] == c,
{
    let mut e = start;
    while e < n
        invariant
            start <= e <= n,
            n == s@.len(),
            forall|j: int| start <= j < e ==> s@[j] != c,
        decreases n - e,
    {
        if s.get_char(e) == c {
            return e;
        }
        e = e + 1;
    }
    e
}

/// Splits a string into its space-separated tokens.
fn tokenize(s: &str) -> (r: Vec<String>)
    ensures
        views_of(r@) == spec_tokens_at(s@, 0),
{
    let n = s.unicode_len();
    let mut out: Vec<String> = Vec::new();
    let mut i: usize = 0;
    while i < n
        invariant
            0 <= i <= n,
            n == s@.len(),
            spec_tokens_at(s@, 0) =~= views_of(out@) + spec_tokens_at(s@, i as int),
        decreases n - i,
    {
        if s.get_char(i) == ' ' {
            i = i + 1;
        } else {
            let e = scan_to(s, n, i, ' ');
            proof {
                lemma_run_at_subrange(s@, i as int, e as int);
            }
            let tok = String::from_str(s.substring_char(i, e));
            let ghost pre = views_of(out@);
            out.push(tok);
            proof {
                assert(views_of(out@) =~= pre.push(tok@));
                assert(run_at(s@, i as int).len() == e - i);
                assert(views_of(out@) + spec_tokens_at(s@, e as int) =~= pre + (seq![
                    run_at(s@, i as int),
                ] + spec_tokens_at(s@, e as int)));
                assert(e > i);
            }
            i = e;
        }
    }
    proof {
        assert(spec_tokens_at(s@, 0) =~= views_of(out@));
    }
    out
}

// ---------------------------------------------------------------------------
// Errors of the text assembler
// ---------------------------------------------------------------------------

/// Why a line of assembly text was rejected.
#[derive(Debug)]
pub enum AsmError {
    /// No instruction of the table carries the given mnemonic.
    UnknownMnemonic(String),
    /// An argument token is not of the shape `ARG=VALUE`.
    NotArgValueFormat(String),
    /// An argument token has no characters after its `=`.
    MissingValue(String),
    /// The named operand does not belong to the instruction.
    UnknownOperand(String),
    /// The value is not a decimal or `0x`-prefixed hexadecimal number that
    /// fits 32 bits.
    InvalidNumber(String),
    /// The value does not fit the operand's field.
    TooLargeValue { value: u32, field: String, max_value: u32 },
    /// Two argument tokens name the same operand.
    DuplicateOperand(String),
    /// Some operand of the instruction got no value.
    MissingOperands(String),
}

impl AsmError {
    /// One human-readable line saying what was rejected.
    pub fn message(&self) -> String {
        let mut s = String::new();
        match self {
            AsmError::UnknownMnemonic(name) => {
                s.append("Could not find instruction with name '");
                s.append(name.as_str());
                s.append("'");
            },
            AsmError::NotArgValueFormat(tok) => {
                s.append("Not in ARG=VALUE format: '");
                s.append(tok.as_str());
                s.append("'");
            },
            AsmError::MissingValue(tok) => {
                s.append("Missing value in arg: ");
                s.append(tok.as_str());
            },
            AsmError::UnknownOperand(name) => {
                s.append("Failed to find operand with name ");
                s.append(name.as_str());
            },
            AsmError::InvalidNumber(text) => {
                s.append("Invalid decimal or hex value: ");
                s.append(text.as_str());
            },
            AsmError::TooLargeValue { value, field, max_value } => {
                s.append("Too large value ");
                push_dec(&mut s, *value as u64);
                s.append(" for field ");
                s.append(field.as_str());
                s.append(" which only allows up to ");
                push_dec(&mut s, *max_value as u64);
            },
            AsmError::DuplicateOperand(name) => {
                s.append("Duplicate operand '");
                s.append(name.as_str());
                s.append("'");
            },
            AsmError::MissingOperands(name) => {
                s.append("Missing operands in instruction ");
                s.append(name.as_str());
            },
        }
        s
    }
}

/// The issue classes of one `ARG=VALUE` token, for specification.
#[derive(Clone, Copy, Debug, PartialEq, Eq, Structural)]
pub enum ArgIssue {
    /// Not exactly one `=`.
    NotArgValue,
    /// Nothing after the `=`.
    MissingValue,
    /// No operand of that name.
    UnknownOperand,
    /// The value is not a number that fits 32 bits.
    InvalidNumber,
    /// The value does not fit the field.
    TooLarge,
}

// ---------------------------------------------------------------------------
// One ARG=VALUE token
// ---------------------------------------------------------------------------

/// The first operand of the list carrying the given name.
pub open spec fn first_op_with_name(ops: Seq<ArgSpecView>, name: Seq<char>) -> Option<ArgSpecView>
    decreases ops.len(),
{
    if ops.len() == 0 {
        None
    } else if ops.first().name == name {
        Some(ops.first())
    } else {
        first_op_with_name(ops.drop_first(), name)
    }
}

/// What one `ARG=VALUE` token means for a template: the named operand paired
/// with the denoted value, or the first issue found, checking the token's
/// shape, then the operand name, then the number, then the field bound.
pub open spec fn spec_parse_arg(t: TemplateView, tok: Seq<char>) -> Result<ArgumentView, ArgIssue> {
    if count_char(tok, '=') != 1 {
        Err(ArgIssue::NotArgValue)
    } else {
        let name = prefix_before(tok, '=');
        let val = tok.skip(name.len() + 1 as int);
        if val.len() == 0 {
            Err(ArgIssue::MissingValue)
        } else {
            match first_op_with_name(t.operands, name) {
                None => Err(ArgIssue::UnknownOperand),
                Some(op) => {
                    let hex = val.len() >= 2 && val[0] == '0' && val[1] == 'x';
                    let digits = if hex {
                        val.skip(2)
                    } else {
                        val
                    };
                    let radix: int = if hex {
                        16
                    } else {
                        10
                    };
                    if !(valid_digits(digits, radix) && spec_radix_value(digits, radix)
                        <= u32::MAX) {
                        Err(ArgIssue::InvalidNumber)
                    } else {
                        let v = spec_radix_value(digits, radix) as u32;
                        if v >= (1u32 << op.length) {
                            Err(ArgIssue::TooLarge)
                        } else {
                            Ok(ArgumentView { arg_spec: op, value: v })
                        }
                    }
                },
            }
        }
    }
}

/// The first operand found by a scan that stopped at index `i`.
proof fn lemma_first_op_at(ops: Seq<ArgSpecView>, name: Seq<char>, i: int)
    requires
        0 <= i < ops.len(),
        ops[i].name == name,
        forall|j: int| 0 <= j < i ==> (#[trigger] ops[j]).name != name,
    ensures
        first_op_with_name(ops, name) == Some(ops[i]),
    decreases i,
{
    if i > 0 {
        assert forall|j: int| 0 <= j < i - 1 implies (#[trigger] ops.drop_first()[j]).name
            != name by {
            assert(ops.drop_first()[j] == ops[j + 1]);
        }
        assert(ops.drop_first()[i - 1] == ops[i]);
        lemma_first_op_at(ops.drop_first(), name, i - 1);
    }
}

/// When no operand carries the name, the scan finds none.
proof fn lemma_first_op_none(ops: Seq<ArgSpecView>, name: Seq<char>)
    requires
        forall|j: int| 0 <= j < ops.len() ==> (#[trigger] ops[j]).name != name,
    ensures
        first_op_with_name(ops, name) is None,
    decreases ops.len(),
{
    if ops.len() > 0 {
        assert forall|j: int|
            0 <= j < ops.drop_first().len() implies (#[trigger] ops.drop_first()[j]).name
            != name by {
            assert(ops.drop_first()[j] == ops[j + 1]);
        }
        lemma_first_op_none(ops.drop_first(), name);
    }
}

/// Reads one `ARG=VALUE` token against a template: exactly the meaning that
/// `spec_parse_arg` gives it, with each issue reported as its own error.
pub fn parse_arg(template: &InstructionTemplate, arg_str: &str) -> (r: Result<Argument, AsmError>)
    requires
        template@.wf(),
    ensures
        r is Ok <==> spec_parse_arg(template@, arg_str@) is Ok,
        (r matches Ok(a) ==> spec_parse_arg(template@, arg_str@) == Ok::<ArgumentView, ArgIssue>(
            a@,
        )),
        (r matches Ok(a) ==> a@.wf()),
        (r matches Err(e) ==> ((e matches AsmError::NotArgValueFormat(_)) <==> spec_parse_arg(
            template@,
            arg_str@,
        ) == Err::<ArgumentView, ArgIssue>(ArgIssue::NotArgValue))),
        (r matches Err(e) ==> ((e matches AsmError::MissingValue(_)) <==> spec_parse_arg(
            template@,
            arg_str@,
        ) == Err::<ArgumentView, ArgIssue>(ArgIssue::MissingValue))),
        (r matches Err(e) ==> ((e matches AsmError::UnknownOperand(_)) <==> spec_parse_arg(
            template@,
            arg_str@,
        ) == Err::<ArgumentView, ArgIssue>(ArgIssue::UnknownOperand))),
        (r matches Err(e) ==> ((e matches AsmError::InvalidNumber(_)) <==> spec_parse_arg(
            template@,
            arg_str@,
        ) == Err::<ArgumentView, ArgIssue>(ArgIssue::InvalidNumber))),
        (r matches Err(e) ==> ((e matches AsmError::TooLargeValue { .. }) <==> spec_parse_arg(
            template@,
            arg_str@,
        ) == Err::<ArgumentView, ArgIssue>(ArgIssue::TooLarge))),
{
    let n = arg_str.unicode_len();
    // count the `=` separators and find the first
    let mut eqs: usize = 0;
    let mut i: usize = 0;
    while i < n
        invariant
            0 <= i <= n,
            n == arg_str@.len(),
            eqs == count_char(arg_str@.take(i as int), '='),
            eqs <= i,
        decreases n - i,
    {
        if arg_str.get_char(i) == '=' {
            eqs = eqs + 1;
        }
        proof {
            let q = arg_str@.take(i + 1 as int);
            assert(q.drop_last() =~= arg_str@.take(i as int));
            assert(q.last() == arg_str@[i as int]);
        }
        i = i + 1;
    }
    proof {
        assert(arg_str@.take(n as int) =~= arg_str@);
    }
    if eqs != 1 {
        return Err(AsmError::NotArgValueFormat(arg_str.to_owned()));
    }
    let sep = scan_to(arg_str, n, 0, '=');
    proof {
        lemma_prefix_before_take(arg_str@, '=', sep as int);
        assert(sep < n) by {
            if sep == n {
                lemma_count_none(arg_str@, '=');
            }
        }
    }
    let name = arg_str.substring_char(0, sep);
    let val = arg_str.substring_char(sep + 1, n);
    proof {
        assert(val@ =~= arg_str@.skip(prefix_before(arg_str@, '=').len() + 1 as int));
    }
    if val.unicode_len() == 0 {
        return Err(AsmError::MissingValue(arg_str.to_owned()));
    }
    let op = match template.op_with_name(name) {
        None => {
            proof {
                lemma_first_op_none(template@.operands, name@);
            }
            return Err(AsmError::UnknownOperand(name.to_owned()));
        },
        Some(op) => op,
    };
    proof {
        let j = choose|j: int|
            #![trigger template@.operands[j]]
            0 <= j < template@.operands.len() && op@ == template@.operands[j] && op@.name == name@
                && (forall|k: int| 0 <= k < j ==> (#[trigger] template@.operands[k]).name != name@);
        lemma_first_op_at(template@.operands, name@, j);
    }
    let vlen = val.unicode_len();
    let is_hex = vlen >= 2 && val.get_char(0) == '0' && val.get_char(1) == 'x';
    let digits = if is_hex {
        val.substring_char(2, vlen)
    } else {
        val
    };
    proof {
        if is_hex {
            assert(digits@ =~= val@.skip(2));
        }
    }
    let radix: u32 = if is_hex {
        16
    } else {
        10
    };
    let value = match parse_radix_u32(digits, radix) {
        None => { return Err(AsmError::InvalidNumber(val.to_owned())) },
        Some(v) => v,
    };
    let max = op.max_value();
    if value >= max {
        return Err(
            AsmError::TooLargeValue { value, field: String::from_str(op.name()), max_value: max },
        );
    }
    Ok(Argument::new(op, value))
}

// ---------------------------------------------------------------------------
// Whole lines
// ---------------------------------------------------------------------------

/// The first template of the list carrying the given mnemonic.
pub open spec fn first_template_with_name(ts: Seq<TemplateView>, name: Seq<char>) -> Option<
    TemplateView,
>
    decreases ts.len(),
{
    if ts.len() == 0 {
        None
    } else if ts.first().name == name {
        Some(ts.first())
    } else {
        first_template_with_name(ts.drop_first(), name)
    }
}

proof fn lemma_first_template_at(ts: Seq<TemplateView>, name: Seq<char>, i: int)
    requires
        0 <= i < ts.len(),
        ts[i].name == name,
        forall|j: int| 0 <= j < i ==> (#[trigger] ts[j]).name != name,
    ensures
        first_template_with_name(ts, name) == Some(ts[i]),
    decreases i,
{
    if i > 0 {
        assert forall|j: int| 0 <= j < i - 1 implies (#[trigger] ts.drop_first()[j]).name
            != name by {
            assert(ts.drop_first()[j] == ts[j + 1]);
        }
        assert(ts.drop_first()[i - 1] == ts[i]);
        lemma_first_template_at(ts.drop_first(), name, i - 1);
    }
}

proof fn lemma_first_template_none(ts: Seq<TemplateView>, name: Seq<char>)
    requires
        forall|j: int| 0 <= j < ts.len() ==> (#[trigger] ts[j]).name != name,
    ensures
        first_template_with_name(ts, name) is None,
    decreases ts.len(),
{
    if ts.len() > 0 {
        assert forall|j: int|
            0 <= j < ts.drop_first().len() implies (#[trigger] ts.drop_first()[j]).name != name by {
            assert(ts.drop_first()[j] == ts[j + 1]);
        }
        lemma_first_template_none(ts.drop_first(), name);
    }
}

/// Looks the mnemonic up in the template list: the first template carrying
/// the name, if any carries it.
pub fn find_template(templates: &Vec<InstructionTemplate>, name: &str) -> (r: Option<
    InstructionTemplate,
>)
    requires
        templates_wf(templates@),
    ensures
        r is Some <==> first_template_with_name(views_of(templates@), name@) is Some,
        (r matches Some(t) ==> first_template_with_name(views_of(templates@), name@) == Some(t@)),
        (r matches Some(t) ==> t@.wf()),
{
    let ghost ts = views_of(templates@);
    let n = templates.len();
    let mut i: usize = 0;
    while i < n
        invariant
            0 <= i <= n,
            n == templates@.len(),
            ts == views_of(templates@),
            templates_wf(templates@),
            forall|j: int| 0 <= j < i ==> (#[trigger] ts[j]).name != name@,
        decreases n - i,
    {
        if str_eq(templates[i].name(), name) {
            proof {
                lemma_first_template_at(ts, name@, i as int);
                assert(templates@[i as int]@.wf());
            }
            return Some(templates[i].clone());
        }
        i = i + 1;
    }
    proof {
        lemma_first_template_none(ts, name@);
    }
    None
}

/// A line means an instruction when it has a mnemonic naming a template and
/// its remaining tokens give every operand of that template exactly one
/// value.
pub open spec fn spec_line_ok(ts: Seq<TemplateView>, toks: Seq<Seq<char>>) -> bool {
    &&& toks.len() >= 1
    &&& (first_template_with_name(ts, toks[0]) matches Some(t) && spec_args_ok(t, toks))
}

/// The argument tokens all parse, name pairwise distinct operands, and cover
/// every operand of the template.
pub open spec fn spec_args_ok(t: TemplateView, toks: Seq<Seq<char>>) -> bool {
    &&& (forall|k: int| 1 <= k < toks.len() ==> spec_parse_arg(t, #[trigger] toks[k]) is Ok)
    &&& (forall|k1: int, k2: int|
        #![trigger toks[k1], toks[k2]]
        1 <= k1 < k2 < toks.len() ==> (spec_parse_arg(t, toks[k1]) matches Ok(a1) ==> (
        spec_parse_arg(t, toks[k2]) matches Ok(a2) ==> a1.arg_spec.name != a2.arg_spec.name)))
    &&& (forall|i: int|
        0 <= i < t.operands.len() ==> exists|k: int|
            1 <= k < toks.len() && ((#[trigger] spec_parse_arg(t, toks[k])) matches Ok(a)
                && a.arg_spec == #[trigger] t.operands[i]))
}

/// The classes of what can be wrong with a line beyond its mnemonic.
#[derive(Clone, Copy, Debug, PartialEq, Eq, Structural)]
pub enum LineIssue {
    /// An argument token has this issue of its own.
    Arg(ArgIssue),
    /// An argument token names an operand an earlier token already named.
    Duplicate,
    /// Some operand of the instruction got no value.
    MissingOperands,
}

/// Token `k` names an operand that an earlier token already named.
pub open spec fn spec_duplicate_at(t: TemplateView, toks: Seq<Seq<char>>, k: int) -> bool {
    exists|j: int|
        1 <= j < k && ((#[trigger] spec_parse_arg(t, toks[j])) matches Ok(b) && (spec_parse_arg(
            t,
            toks[k],
        ) matches Ok(a) && a.arg_spec.name == b.arg_spec.name))
}

/// Some operand of the template is covered by no argument token.
pub open spec fn spec_uncovered(t: TemplateView, toks: Seq<Seq<char>>) -> bool {
    exists|i: int|
        0 <= i < t.operands.len() && !(exists|k: int|
            1 <= k < toks.len() && ((#[trigger] spec_parse_arg(t, toks[k])) matches Ok(a)
                && a.arg_spec == #[trigger] t.operands[i]))
}

/// The first thing wrong with the line's argument tokens, read left to
/// right from token `k` on: a token's own issue, then a duplicate, and after
/// all tokens an uncovered operand.
pub open spec fn spec_line_issue(t: TemplateView, toks: Seq<Seq<char>>, k: int) -> Option<LineIssue>
    decreases toks.len() - k,
{
    if k < 1 || k >= toks.len() {
        if spec_uncovered(t, toks) {
            Some(LineIssue::MissingOperands)
        } else {
            None
        }
    } else {
        match spec_parse_arg(t, toks[k]) {
            Err(issue) => Some(LineIssue::Arg(issue)),
            Ok(_) => if spec_duplicate_at(t, toks, k) {
                Some(LineIssue::Duplicate)
            } else {
                spec_line_issue(t, toks, k + 1)
            },
        }
    }
}

/// Reads one line of assembly text against a template list: an instruction
/// exactly when the line means one, with one argument per operand in the
/// template's declared order, and otherwise the error of the first thing
/// wrong with the line.
#[verifier::loop_isolation(false)]
#[verifier::rlimit(100)]
pub fn parse_inst_with(templates: &Vec<InstructionTemplate>, line: &str) -> (r: Result<
    Instruction,
    AsmError,
>)
    requires
        templates_wf(templates@),
    ensures
        r is Ok <==> spec_line_ok(views_of(templates@), spec_line_tokens(line@)),
        (r matches Ok(inst) ==> {
            let toks = spec_line_tokens(line@);
            &&& inst@.wf()
            &&& inst@.args_match_template()
            &&& first_template_with_name(views_of(templates@), toks[0]) == Some(inst@.template)
            &&& (forall|i: int|
                #![trigger inst@.arguments[i]]
                0 <= i < inst@.arguments.len() ==> exists|k: int|
                    1 <= k < toks.len() && (#[trigger] spec_parse_arg(inst@.template, toks[k]))
                        == Ok::<ArgumentView, ArgIssue>(inst@.arguments[i]))
        }),
        (r matches Err(e) ==> ((e matches AsmError::UnknownMnemonic(_)) <==> (spec_line_tokens(
            line@,
        ).len() == 0 || first_template_with_name(
            views_of(templates@),
            spec_line_tokens(line@)[0],
        ) is None))),
        (r matches Err(e) ==> (spec_line_tokens(line@).len() >= 1 ==> (first_template_with_name(
            views_of(templates@),
            spec_line_tokens(line@)[0],
        ) matches Some(t) ==> {
            let toks = spec_line_tokens(line@);
            &&& ((e matches AsmError::NotArgValueFormat(_)) <==> spec_line_issue(t, toks, 1)
                == Some(LineIssue::Arg(ArgIssue::NotArgValue)))
            &&& ((e matches AsmError::MissingValue(_)) <==> spec_line_issue(t, toks, 1) == Some(
                LineIssue::Arg(ArgIssue::MissingValue),
            ))
            &&& ((e matches AsmError::UnknownOperand(_)) <==> spec_line_issue(t, toks, 1) == Some(
                LineIssue::Arg(ArgIssue::UnknownOperand),
            ))
            &&& ((e matches AsmError::InvalidNumber(_)) <==> spec_line_issue(t, toks, 1) == Some(
                LineIssue::Arg(ArgIssue::InvalidNumber),
            ))
            &&& ((e matches AsmError::TooLargeValue { .. }) <==> spec_line_issue(t, toks, 1)
                == Some(LineIssue::Arg(ArgIssue::TooLarge)))
            &&& ((e matches AsmError::DuplicateOperand(_)) <==> spec_line_issue(t, toks, 1)
                == Some(LineIssue::Duplicate))
            &&& ((e matches AsmError::MissingOperands(_)) <==> spec_line_issue(t, toks, 1) == Some(
                LineIssue::MissingOperands,
            ))
        }))),
{
    let ghost ts = views_of(templates@);
    let ghost toks = spec_line_tokens(line@);
    let line_n = line.unicode_len();
    let hash_end = scan_to(line, line_n, 0, '#');
    proof {
        lemma_prefix_before_take(line@, '#', hash_end as int);
    }
    let stripped = line.substring_char(0, hash_end);
    proof {
        assert(stripped@ == prefix_before(line@, '#'));
    }
    let tokens = tokenize(stripped);
    proof {
        assert(views_of(tokens@) == toks);
    }
    if tokens.len() == 0 {
        return Err(AsmError::UnknownMnemonic(String::new()));
    }
    let template = match find_template(templates, tokens[0].as_str()) {
        None => { return Err(AsmError::UnknownMnemonic(tokens[0].clone())) },
        Some(t) => t,
    };
    let ghost tv = template@;
    let nt = tokens.len();
    let mut parsed: Vec<Argument> = Vec::new();
    let mut k: usize = 1;
    while k < nt
        invariant
            1 <= k <= nt,
            nt == tokens@.len(),
            toks == views_of(tokens@),
            tv == template@,
            tv.wf(),
            parsed@.len() == k - 1,
            spec_line_issue(tv, toks, 1) == spec_line_issue(tv, toks, k as int),
            forall|kk: int|
                1 <= kk < k ==> spec_parse_arg(tv, #[trigger] toks[kk]) == Ok::<
                    ArgumentView,
                    ArgIssue,
                >(views_of(parsed@)[kk - 1]),
            forall|j: int| 0 <= j < parsed@.len() ==> (#[trigger] views_of(parsed@)[j]).wf(),
            forall|j1: int, j2: int|
                #![trigger views_of(parsed@)[j1], views_of(parsed@)[j2]]
                0 <= j1 < j2 < parsed@.len() ==> views_of(parsed@)[j1].arg_spec.name != views_of(
                    parsed@,
                )[j2].arg_spec.name,
        decreases nt - k,
    {
        proof {
            assert(tokens@[k as int]@ == toks[k as int]);
        }
        let a = match parse_arg(&template, tokens[k].as_str()) {
            Err(e) => {
                proof {
                    assert(spec_parse_arg(tv, toks[k as int]) is Err);
                    assert(!spec_args_ok(tv, toks));
                    assert(spec_line_issue(tv, toks, k as int) is Some);
                }
                return Err(e);
            },
            Ok(a) => a,
        };
        let np = parsed.len();
        let mut j: usize = 0;
        while j < np
            invariant
                0 <= j <= np,
                np == parsed@.len(),
                forall|x: int| 0 <= x < j ==> (#[trigger] views_of(parsed@)[x]).arg_spec.name
                    != a@.arg_spec.name,
            decreases np - j,
        {
            proof {
                assert(views_of(parsed@)[j as int] == parsed@[j as int]@);
            }
            if str_eq(parsed[j].arg_spec().name(), a.arg_spec().name()) {
                proof {
                    assert(spec_parse_arg(tv, toks[j + 1 as int]) == Ok::<ArgumentView, ArgIssue>(
                        views_of(parsed@)[j as int],
                    ));
                    assert(spec_parse_arg(tv, toks[k as int]) == Ok::<ArgumentView, ArgIssue>(a@));
                    assert(!spec_args_ok(tv, toks));
                    assert(spec_duplicate_at(tv, toks, k as int));
                    assert(spec_line_issue(tv, toks, k as int) == Some(LineIssue::Duplicate));
                }
                return Err(AsmError::DuplicateOperand(String::from_str(a.arg_spec().name())));
            }
            j = j + 1;
        }
        proof {
            assert(!spec_duplicate_at(tv, toks, k as int)) by {
                if spec_duplicate_at(tv, toks, k as int) {
                    let jj = choose|jj: int|
                        1 <= jj < k && ((#[trigger] spec_parse_arg(tv, toks[jj])) matches Ok(b) && (
                        spec_parse_arg(tv, toks[k as int]) matches Ok(aa) && aa.arg_spec.name
                            == b.arg_spec.name));
                    assert(spec_parse_arg(tv, toks[jj]) == Ok::<ArgumentView, ArgIssue>(
                        views_of(parsed@)[jj - 1],
                    ));
                    assert(views_of(parsed@)[jj - 1].arg_spec.name != a@.arg_spec.name);
                }
            }
            assert(spec_line_issue(tv, toks, k as int) == spec_line_issue(tv, toks, k + 1 as int));
        }
        let ghost pre = views_of(parsed@);
        parsed.push(a);
        proof {
            assert(views_of(parsed@) =~= pre.push(a@));
        }
        k = k + 1;
    }
    // hand the arguments over in the template's declared order
    let ops = template.operands();
    let no = ops.len();
    let mut ordered: Vec<Argument> = Vec::new();
    let mut i: usize = 0;
    while i < no
        invariant
            0 <= i <= no,
            no == ops@.len(),
            views_of(ops@) == tv.operands,
            tv == template@,
            tv.wf(),
            toks == views_of(tokens@),
            nt == tokens@.len(),
            parsed@.len() == nt - 1,
            forall|kk: int|
                1 <= kk < nt ==> spec_parse_arg(tv, #[trigger] toks[kk]) == Ok::<
                    ArgumentView,
                    ArgIssue,
                >(views_of(parsed@)[kk - 1]),
            forall|j: int| 0 <= j < parsed@.len() ==> (#[trigger] views_of(parsed@)[j]).wf(),
            forall|j1: int, j2: int|
                #![trigger views_of(parsed@)[j1], views_of(parsed@)[j2]]
                0 <= j1 < j2 < parsed@.len() ==> views_of(parsed@)[j1].arg_spec.name != views_of(
                    parsed@,
                )[j2].arg_spec.name,
            ordered@.len() == i,
            forall|x: int| 0 <= x < i ==> (#[trigger] views_of(ordered@)[x]).arg_spec
                == tv.operands[x],
            forall|x: int| 0 <= x < i ==> (#[trigger] views_of(ordered@)[x]).wf(),
            forall|x: int|
                #![trigger views_of(ordered@)[x]]
                0 <= x < i ==> exists|kk: int|
                    1 <= kk < nt && (#[trigger] spec_parse_arg(tv, toks[kk])) == Ok::<
                        ArgumentView,
                        ArgIssue,
                    >(views_of(ordered@)[x]),
        decreases no - i,
    {
        let np = parsed.len();
        let mut j: usize = 0;
        let mut found = false;
        while j < np && !found
            invariant
                0 <= j <= np,
                np == parsed@.len(),
                !found ==> forall|x: int| 0 <= x < j ==> (#[trigger] views_of(parsed@)[x]).arg_spec
                    != views_of(ops@)[i as int],
                found ==> j < np && views_of(parsed@)[j as int].arg_spec == views_of(
                    ops@,
                )[i as int],
            decreases np - j + if found {
                0int
            } else {
                1int
            },
        {
            if parsed[j].arg_spec() == &ops[i] {
                found = true;
            } else {
                j = j + 1;
            }
        }
        if !found {
            proof {
                assert forall|kk: int|
                    1 <= kk < nt implies !((#[trigger] spec_parse_arg(tv, toks[kk])) matches Ok(a)
                    && a.arg_spec == tv.operands[i as int]) by {
                    assert(spec_parse_arg(tv, toks[kk]) == Ok::<ArgumentView, ArgIssue>(
                        views_of(parsed@)[kk - 1],
                    ));
                }
                assert(!spec_args_ok(tv, toks));
                assert(spec_uncovered(tv, toks));
                assert(spec_line_issue(tv, toks, nt as int) == Some(LineIssue::MissingOperands));
            }
            return Err(AsmError::MissingOperands(String::from_str(template.name())));
        }
        let ghost pre = views_of(ordered@);
        ordered.push(parsed[j].clone());
        proof {
            assert(views_of(ordered@) =~= pre.push(views_of(parsed@)[j as int]));
            assert(views_of(ordered@)[i as int] == views_of(parsed@)[j as int]);
            assert(spec_parse_arg(tv, toks[j + 1 as int]) == Ok::<ArgumentView, ArgIssue>(
                views_of(parsed@)[j as int],
            ));
        }
        i = i + 1;
    }
    let inst = Instruction::new(&template, ordered);
    proof {
        assert(inst@.wf());
        assert forall|x: int|
            0 <= x < tv.operands.len() implies exists|kk: int|
            1 <= kk < toks.len() && ((#[trigger] spec_parse_arg(tv, toks[kk])) matches Ok(a)
                && a.arg_spec == #[trigger] tv.operands[x]) by {
            let kk = choose|kk: int|
                1 <= kk < nt && (#[trigger] spec_parse_arg(tv, toks[kk])) == Ok::<
                    ArgumentView,
                    ArgIssue,
                >(views_of(ordered@)[x]);
            assert(spec_parse_arg(tv, toks[kk]) matches Ok(a) && a.arg_spec == tv.operands[x]);
        }
        assert(spec_args_ok(tv, toks));
        assert(spec_line_ok(ts, toks));
    }
    Ok(inst)
}

/// Reads one line of assembly text against the whole opcode table: an
/// instruction exactly when the line means one under `spec_all`, and
/// otherwise the error of the first thing wrong with the line.
pub fn parse_inst(line: &str) -> (r: Result<Instruction, AsmError>)
    ensures
        r is Ok <==> spec_line_ok(crate::riscv::spec_all(), spec_line_tokens(line@)),
        (r matches Ok(inst) ==> {
            let toks = spec_line_tokens(line@);
            &&& inst@.wf()
            &&& inst@.args_match_template()
            &&& first_template_with_name(crate::riscv::spec_all(), toks[0]) == Some(inst@.template)
            &&& (forall|i: int|
                #![trigger inst@.arguments[i]]
                0 <= i < inst@.arguments.len() ==> exists|k: int|
                    1 <= k < toks.len() && (#[trigger] spec_parse_arg(inst@.template, toks[k]))
                        == Ok::<ArgumentView, ArgIssue>(inst@.arguments[i]))
        }),
        (r matches Err(e) ==> ((e matches AsmError::UnknownMnemonic(_)) <==> (spec_line_tokens(
            line@,
        ).len() == 0 || first_template_with_name(
            crate::riscv::spec_all(),
            spec_line_tokens(line@)[0],
        ) is None))),
        (r matches Err(e) ==> (spec_line_tokens(line@).len() >= 1 ==> (first_template_with_name(
            crate::riscv::spec_all(),
            spec_line_tokens(line@)[0],
        ) matches Some(t) ==> {
            let toks = spec_line_tokens(line@);
            &&& ((e matches AsmError::NotArgValueFormat(_)) <==> spec_line_issue(t, toks, 1)
                == Some(LineIssue::Arg(ArgIssue::NotArgValue)))
            &&& ((e matches AsmError::MissingValue(_)) <==> spec_line_issue(t, toks, 1) == Some(
                LineIssue::Arg(ArgIssue::MissingValue),
            ))
            &&& ((e matches AsmError::UnknownOperand(_)) <==> spec_line_issue(t, toks, 1) == Some(
                LineIssue::Arg(ArgIssue::UnknownOperand),
            ))
            &&& ((e matches AsmError::InvalidNumber(_)) <==> spec_line_issue(t, toks, 1) == Some(
                LineIssue::Arg(ArgIssue::InvalidNumber),
            ))
            &&& ((e matches AsmError::TooLargeValue { .. }) <==> spec_line_issue(t, toks, 1)
                == Some(LineIssue::Arg(ArgIssue::TooLarge)))
            &&& ((e matches AsmError::DuplicateOperand(_)) <==> spec_line_issue(t, toks, 1)
                == Some(LineIssue::Duplicate))
            &&& ((e matches AsmError::MissingOperands(_)) <==> spec_line_issue(t, toks, 1) == Some(
                LineIssue::MissingOperands,
            ))
        }))),
{
    let table = crate::riscv::all();
    proof {
        assert(views_of(table@) == crate::riscv::spec_all());
    }
    parse_inst_with(&table, line)
}

/// A string without the character has no occurrence of it.
proof fn lemma_count_none(s: Seq<char>, c: char)
    requires
        forall|j: int| 0 <= j < s.len() ==> s[j] != c,
    ensures
        count_char(s, c) == 0,
    decreases s.len(),
{
    if s.len() > 0 {
        assert forall|j: int| 0 <= j < s.drop_last().len() implies s.drop_last()[j] != c by {
            assert(s.drop_last()[j] == s[j]);
        }
        lemma_count_none(s.drop_last(), c);
    }
}

} // verus!
