//! The instruction data model: operand field specifications, operand values,
//! instruction templates and decoded instructions, together with the bit-exact
//! encoder and decoder over 32-bit words.

use vstd::prelude::*;

verus! {

/// A 32-bit encoded instruction word.
pub type EncodedInstruction = u32;

// ---------------------------------------------------------------------------
// Mathematical views
// ---------------------------------------------------------------------------

/// Mathematical value of an operand field specification: a stable name, a bit
/// length and a bit offset within a 32-bit instruction word.
pub ghost struct ArgSpecView {
    pub name: Seq<char>,
    pub length: u32,
    pub offset: u32,
}

impl ArgSpecView {
    /// Shape of a usable field: at least one bit, short enough that the
    /// field's maximum value `2^length` fits in a `u32`, and contained in a
    /// 32-bit word.
    pub open spec fn wf(self) -> bool {
        1 <= self.length <= 31 && self.offset + self.length <= 32
    }

    /// Mask with the low `length` bits set.
    pub open spec fn low_mask(self) -> u32 {
        ((1u32 << self.length) - 1) as u32
    }

    /// Mask with the field's bits set, in field position.
    pub open spec fn field_mask(self) -> u32 {
        self.low_mask() << self.offset
    }

    /// The value this field holds inside the word `word`.
    pub open spec fn extract_value(self, word: u32) -> u32 {
        (word >> self.offset) & self.low_mask()
    }

    /// Two field specifications occupy disjoint bits of the word.
    pub open spec fn disjoint_from(self, other: ArgSpecView) -> bool {
        self.field_mask() & other.field_mask() == 0
    }
}

/// Mathematical value of an operand value: a field specification paired with
/// the value held in that field.
pub ghost struct ArgumentView {
    pub arg_spec: ArgSpecView,
    pub value: u32,
}

impl ArgumentView {
    /// The value fits the field.
    pub open spec fn wf(self) -> bool {
        self.arg_spec.wf() && self.value < (1u32 << self.arg_spec.length)
    }

    /// The field's contribution to the encoded word.
    pub open spec fn encoded(self) -> u32 {
        self.value << self.arg_spec.offset
    }
}

/// Mathematical value of an instruction template: the mnemonic, the fixed
/// bits of the canonical encoding (`match_pattern`), the set of fixed bit
/// positions (`mask_pattern`) and the ordered operand fields.
pub ghost struct TemplateView {
    pub name: Seq<char>,
    pub match_pattern: u32,
    pub mask_pattern: u32,
    pub operands: Seq<ArgSpecView>,
}

impl TemplateView {
    /// The structural invariant of a template: the fixed bits lie within the
    /// mask, every operand field is well shaped, no operand field overlaps the
    /// fixed bits, and the operand fields are pairwise disjoint.
    pub open spec fn wf(self) -> bool {
        &&& self.match_pattern & self.mask_pattern == self.match_pattern
        &&& self.operands.len() <= 5
        &&& (forall|i: int| 0 <= i < self.operands.len() ==> (#[trigger] self.operands[i]).wf())
        &&& (forall|i: int|
            0 <= i < self.operands.len() ==> (#[trigger] self.operands[i]).field_mask()
                & self.mask_pattern == 0)
        &&& (forall|i: int, j: int|
            #![trigger self.operands[i].disjoint_from(self.operands[j])]
            0 <= i < j < self.operands.len() ==> self.operands[i].disjoint_from(self.operands[j]))
    }

    /// Whether `word` carries this template's fixed bits.
    pub open spec fn spec_matches(self, word: u32) -> bool {
        word & self.mask_pattern == self.match_pattern
    }
}

/// Mathematical value of a decoded instruction: a template plus one operand
/// value per template operand, in template order.
pub ghost struct InstructionView {
    pub template: TemplateView,
    pub arguments: Seq<ArgumentView>,
}

impl InstructionView {
    /// One argument per template operand, in the template's declared order.
    pub open spec fn args_match_template(self) -> bool {
        &&& self.arguments.len() == self.template.operands.len()
        &&& (forall|i: int|
            0 <= i < self.arguments.len() ==> (#[trigger] self.arguments[i]).arg_spec
                == self.template.operands[i])
    }

    /// The full invariant: a well-formed template, matching arguments, and
    /// every value within its field.
    pub open spec fn wf(self) -> bool {
        &&& self.template.wf()
        &&& self.args_match_template()
        &&& (forall|i: int| 0 <= i < self.arguments.len() ==> (#[trigger] self.arguments[i]).wf())
    }

    /// The encoding restricted to the first `n` arguments: the template's
    /// fixed bits joined with each argument's contribution.
    pub open spec fn encode_prefix(self, n: int) -> u32
        decreases n,
    {
        if n <= 0 {
            self.template.match_pattern
        } else {
            self.encode_prefix(n - 1) | self.arguments[n - 1].encoded()
        }
    }

    /// The encoded 32-bit word of the whole instruction.
    pub open spec fn encoded(self) -> u32 {
        self.encode_prefix(self.arguments.len() as int)
    }
}

/// The instruction recovered from `word` by a template: each operand field's
/// value is read out of the word, in template order.
pub open spec fn spec_decode(t: TemplateView, word: u32) -> InstructionView {
    InstructionView {
        template: t,
        arguments: Seq::new(
            t.operands.len(),
            |i: int| ArgumentView { arg_spec: t.operands[i], value: t.operands[i].extract_value(word) },
        ),
    }
}

// ---------------------------------------------------------------------------
// Bit-level facts
// ---------------------------------------------------------------------------

/// A field's low mask is the largest value that fits the field.
proof fn lemma_low_mask(len: u32)
    by (bit_vector)
    requires
        1 <= len <= 31,
    ensures
        1u32 << len >= 2,
        (((1u32 << len) - 1) as u32) < (1u32 << len),
{
}

/// A value that fits a field contributes bits only inside the field's mask.
proof fn lemma_contribution_disjoint(v: u32, len: u32, off: u32, m: u32)
    by (bit_vector)
    requires
        1 <= len <= 31,
        off + len <= 32,
        v < (1u32 << len),
        ((((1u32 << len) - 1) as u32) << off) & m == 0,
    ensures
        (v << off) & m == 0,
{
}

/// Joining a word that carries no mask bits preserves the masked value.
proof fn lemma_or_preserves_masked(base: u32, e: u32, m: u32)
    by (bit_vector)
    requires
        e & m == 0,
    ensures
        (base | e) & m == base & m,
{
}

/// Field extraction distributes over bitwise or.
proof fn lemma_extract_or(w1: u32, w2: u32, len: u32, off: u32)
    by (bit_vector)
    ensures
        ((w1 | w2) >> off) & (((1u32 << len) - 1) as u32) == ((w1 >> off) & (((1u32 << len)
            - 1) as u32)) | ((w2 >> off) & (((1u32 << len) - 1) as u32)),
{
}

/// A word with no bits in a field extracts to zero there.
proof fn lemma_extract_zero(w: u32, len: u32, off: u32)
    by (bit_vector)
    requires
        w & ((((1u32 << len) - 1) as u32) << off) == 0,
    ensures
        (w >> off) & (((1u32 << len) - 1) as u32) == 0,
{
}

/// A value that fits a field is recovered from its own contribution.
proof fn lemma_extract_self(v: u32, len: u32, off: u32)
    by (bit_vector)
    requires
        1 <= len <= 31,
        off + len <= 32,
        v < (1u32 << len),
    ensures
        ((v << off) >> off) & (((1u32 << len) - 1) as u32) == v,
{
}

/// Whatever the word, an extracted field value fits the field.
proof fn lemma_extract_bound(w: u32, len: u32, off: u32)
    by (bit_vector)
    requires
        1 <= len <= 31,
    ensures
        ((w >> off) & (((1u32 << len) - 1) as u32)) < (1u32 << len),
{
}

/// A word contained in a mask is disjoint from anything disjoint from that mask.
proof fn lemma_within_mask_disjoint(a: u32, m: u32, f: u32)
    by (bit_vector)
    requires
        a & m == a,
        f & m == 0,
    ensures
        a & f == 0,
{
}

// ---------------------------------------------------------------------------
// Encoding lemmas
// ---------------------------------------------------------------------------

/// The first `n` contributions leave a field untouched when every one of them
/// is disjoint from it; in particular this holds of the fixed bits.
proof fn lemma_prefix_disjoint_from_field(i: InstructionView, k: int, n: int)
    requires
        i.wf(),
        0 <= k < i.arguments.len(),
        0 <= n <= k,
    ensures
        i.encode_prefix(n) & i.template.operands[k].field_mask() == 0,
    decreases n,
{
    let f = i.template.operands[k];
    if n == 0 {
        lemma_within_mask_disjoint(i.template.match_pattern, i.template.mask_pattern, f.field_mask());
    } else {
        lemma_prefix_disjoint_from_field(i, k, n - 1);
        let a = i.arguments[n - 1];
        assert(a.arg_spec == i.template.operands[n - 1]);
        assert(i.template.operands[n - 1].disjoint_from(i.template.operands[k]));
        lemma_contribution_disjoint(a.value, a.arg_spec.length, a.arg_spec.offset, f.field_mask());
        lemma_or_preserves_masked(i.encode_prefix(n - 1), a.encoded(), f.field_mask());
    }
}

/// After the `k`-th argument is joined in, the `k`-th field of the prefix
/// encoding holds exactly that argument's value, and later contributions do
/// not disturb it.
proof fn lemma_prefix_extract(i: InstructionView, k: int, n: int)
    requires
        i.wf(),
        0 <= k < i.arguments.len(),
        k < n <= i.arguments.len(),
    ensures
        i.template.operands[k].extract_value(i.encode_prefix(n)) == i.arguments[k].value,
    decreases n,
{
    let f = i.template.operands[k];
    let a = i.arguments[n - 1];
    lemma_extract_or(i.encode_prefix(n - 1), a.encoded(), f.length, f.offset);
    if n - 1 == k {
        assert(a.arg_spec == i.template.operands[n - 1]);
        assert(a.wf());
        lemma_prefix_disjoint_from_field(i, k, n - 1);
        lemma_extract_zero(i.encode_prefix(n - 1), f.length, f.offset);
        lemma_extract_self(a.value, f.length, f.offset);
        assert(f.extract_value(i.encode_prefix(n)) == ((i.encode_prefix(n - 1) >> f.offset)
            & f.low_mask()) | ((a.encoded() >> f.offset) & f.low_mask()));
        let v = a.value;
        assert(0u32 | v == v) by (bit_vector);
    } else {
        lemma_prefix_extract(i, k, n - 1);
        assert(a.arg_spec == i.template.operands[n - 1]);
        if k < n - 1 {
            assert(i.template.operands[k].disjoint_from(i.template.operands[n - 1]));
        } else {
            assert(i.template.operands[n - 1].disjoint_from(i.template.operands[k]));
        }
        let fa = a.arg_spec.field_mask();
        let ff = f.field_mask();
        assert(fa & ff == 0) by (bit_vector)
            requires
                fa & ff == 0 || ff & fa == 0,
        ;
        lemma_contribution_disjoint(a.value, a.arg_spec.length, a.arg_spec.offset, f.field_mask());
        lemma_extract_zero(a.encoded(), f.length, f.offset);
        let v = i.arguments[k].value;
        assert(v | 0u32 == v) by (bit_vector);
    }
}

/// The encoded word carries the template's fixed bits.
proof fn lemma_prefix_matches(i: InstructionView, n: int)
    requires
        i.wf(),
        0 <= n <= i.arguments.len(),
    ensures
        i.template.spec_matches(i.encode_prefix(n)),
    decreases n,
{
    if n > 0 {
        lemma_prefix_matches(i, n - 1);
        let a = i.arguments[n - 1];
        lemma_contribution_disjoint(
            a.value,
            a.arg_spec.length,
            a.arg_spec.offset,
            i.template.mask_pattern,
        );
        lemma_or_preserves_masked(i.encode_prefix(n - 1), a.encoded(), i.template.mask_pattern);
    }
}

/// Encode round-trip: a well-formed instruction's encoded word matches its
/// template, and decoding that word with the same template recovers the
/// instruction exactly.
pub proof fn lemma_encode_decode_round_trip(i: InstructionView)
    requires
        i.wf(),
    ensures
        i.template.spec_matches(i.encoded()),
        spec_decode(i.template, i.encoded()) == i,
{
    lemma_prefix_matches(i, i.arguments.len() as int);
    let d = spec_decode(i.template, i.encoded());
    assert forall|k: int| 0 <= k < i.arguments.len() implies d.arguments[k] == i.arguments[k] by {
        lemma_prefix_extract(i, k, i.arguments.len() as int);
    }
    assert(d.arguments =~= i.arguments);
}

// ---------------------------------------------------------------------------
// Encodability
// ---------------------------------------------------------------------------

impl InstructionView {
    /// What safe encoding rests on: a well-formed template and well-formed
    /// argument fields that overlap neither the fixed bits nor each other.
    /// Unlike `wf` this does not fix the arguments' order, which an argument
    /// replacement may disturb.
    pub open spec fn encodable(self) -> bool {
        &&& self.template.wf()
        &&& (forall|k: int| 0 <= k < self.arguments.len() ==> (#[trigger] self.arguments[k]).wf())
        &&& (forall|k: int|
            0 <= k < self.arguments.len() ==> (#[trigger] self.arguments[k]).arg_spec.field_mask()
                & self.template.mask_pattern == 0)
        &&& (forall|k: int, l: int|
            #![trigger self.arguments[k].arg_spec.disjoint_from(self.arguments[l].arg_spec)]
            0 <= k < l < self.arguments.len() ==> self.arguments[k].arg_spec.disjoint_from(
                self.arguments[l].arg_spec,
            ))
    }
}

/// Every instruction of the program is encodable.
pub open spec fn program_encodable(p: Seq<InstructionView>) -> bool {
    forall|i: int| 0 <= i < p.len() ==> (#[trigger] p[i]).encodable()
}

/// A well-formed instruction is encodable: argument fields in template order
/// inherit the template's disjointness.
pub proof fn lemma_wf_encodable(i: InstructionView)
    requires
        i.wf(),
    ensures
        i.encodable(),
{
    assert forall|k: int|
        0 <= k < i.arguments.len() implies (#[trigger] i.arguments[k]).arg_spec.field_mask()
        & i.template.mask_pattern == 0 by {
        assert(i.arguments[k].arg_spec == i.template.operands[k]);
    }
    assert forall|k: int, l: int|
        #![trigger i.arguments[k].arg_spec.disjoint_from(i.arguments[l].arg_spec)]
        0 <= k < l < i.arguments.len() implies i.arguments[k].arg_spec.disjoint_from(
        i.arguments[l].arg_spec,
    ) by {
        assert(i.template.operands[k].disjoint_from(i.template.operands[l]));
    }
}

/// A whole well-formed program is encodable.
pub proof fn lemma_program_wf_encodable(p: Seq<InstructionView>)
    requires
        program_wf(p),
    ensures
        program_encodable(p),
{
    assert forall|i: int| 0 <= i < p.len() implies (#[trigger] p[i]).encodable() by {
        lemma_wf_encodable(p[i]);
    }
}

/// The encoded word of an encodable instruction carries the template's fixed
/// bits, whatever order its arguments stand in.
pub proof fn lemma_encodable_matches(i: InstructionView)
    requires
        i.encodable(),
    ensures
        i.template.spec_matches(i.encoded()),
{
    lemma_prefix_matches_encodable(i, i.arguments.len() as int);
}

proof fn lemma_prefix_matches_encodable(i: InstructionView, n: int)
    requires
        i.encodable(),
        0 <= n <= i.arguments.len(),
    ensures
        i.template.spec_matches(i.encode_prefix(n)),
    decreases n,
{
    if n > 0 {
        lemma_prefix_matches_encodable(i, n - 1);
        let a = i.arguments[n - 1];
        lemma_contribution_disjoint(
            a.value,
            a.arg_spec.length,
            a.arg_spec.offset,
            i.template.mask_pattern,
        );
        lemma_or_preserves_masked(i.encode_prefix(n - 1), a.encoded(), i.template.mask_pattern);
    }
}

// ---------------------------------------------------------------------------
// Executable types
// ---------------------------------------------------------------------------

/// An operand field specification: name, bit length and bit offset.
#[derive(Debug)]
pub struct ArgumentSpec {
    pub name: String,
    pub length: u32,
    pub offset: u32,
}

impl View for ArgumentSpec {
    type V = ArgSpecView;

    open spec fn view(&self) -> ArgSpecView {
        ArgSpecView { name: self.name@, length: self.length, offset: self.offset }
    }
}

impl Clone for ArgumentSpec {
    fn clone(&self) -> (r: Self)
        ensures
            r == *self,
    {
        ArgumentSpec { name: self.name.clone(), length: self.length, offset: self.offset }
    }
}

impl PartialEq for ArgumentSpec {
    fn eq(&self, other: &Self) -> (r: bool) {
        self.name == other.name && self.length == other.length && self.offset == other.offset
    }
}

impl Eq for ArgumentSpec {}

impl vstd::std_specs::cmp::PartialEqSpecImpl for ArgumentSpec {
    open spec fn obeys_eq_spec() -> bool {
        true
    }

    open spec fn eq_spec(&self, other: &Self) -> bool {
        self@ == other@
    }
}

impl ArgumentSpec {
    /// Builds a field specification. The shape bounds are the structural
    /// invariant of the data model (and `2^length` must fit in a `u32`).
    pub fn new(name: &str, length: u32, offset: u32) -> (s: Self)
        requires
            1 <= length <= 31,
            offset + length <= 32,
        ensures
            s@ == (ArgSpecView { name: name@, length, offset }),
            s@.wf(),
    {
        ArgumentSpec { name: name.to_owned(), length, offset }
    }

    /// Reads this field's value out of an encoded word.
    pub fn extract(&self, inst: EncodedInstruction) -> (a: Argument)
        requires
            self@.wf(),
        ensures
            a@ == (ArgumentView { arg_spec: self@, value: self@.extract_value(inst) }),
            a@.wf(),
    {
        let len = self.length;
        let off = self.offset;
        proof {
            lemma_low_mask(len);
            lemma_extract_bound(inst, len, off);
        }
        let mask: u32 = (1u32 << len) - 1;
        let value: u32 = (inst >> off) & mask;
        Argument { arg_spec: self.clone(), value }
    }

    /// The field's bit length.
    pub fn length(&self) -> (r: u32)
        ensures
            r == self@.length,
    {
        self.length
    }

    /// One past the largest value the field can hold, `2^length`.
    pub fn max_value(&self) -> (r: u32)
        requires
            self@.wf(),
        ensures
            r == (1u32 << self@.length),
            r >= 2,
    {
        proof {
            lemma_low_mask(self.length);
        }
        1u32 << self.length
    }

    /// The field's stable name.
    pub fn name(&self) -> (r: &str)
        ensures
            r@ == self@.name,
    {
        self.name.as_str()
    }

    /// The mask with this field's bits set, in field position.
    pub fn field_mask(&self) -> (r: u32)
        requires
            self@.wf(),
        ensures
            r == self@.field_mask(),
    {
        proof {
            lemma_low_mask(self.length);
        }
        ((1u32 << self.length) - 1) << self.offset
    }
}

/// An operand value: a field specification paired with a `u32` value.
#[derive(Debug)]
pub struct Argument {
    pub arg_spec: ArgumentSpec,
    pub value: u32,
}

impl View for Argument {
    type V = ArgumentView;

    open spec fn view(&self) -> ArgumentView {
        ArgumentView { arg_spec: self.arg_spec@, value: self.value }
    }
}

impl Clone for Argument {
    fn clone(&self) -> (r: Self)
        ensures
            r == *self,
    {
        Argument { arg_spec: self.arg_spec.clone(), value: self.value }
    }
}

impl PartialEq for Argument {
    fn eq(&self, other: &Self) -> (r: bool) {
        self.arg_spec == other.arg_spec && self.value == other.value
    }
}

impl Eq for Argument {}

impl vstd::std_specs::cmp::PartialEqSpecImpl for Argument {
    open spec fn obeys_eq_spec() -> bool {
        true
    }

    open spec fn eq_spec(&self, other: &Self) -> bool {
        self@ == other@
    }
}

impl Argument {
    /// Pairs a field specification with a value. The range invariant
    /// `value < 2^length` is not checked here: values seeded from outside may
    /// be out of range, and only encoding demands the invariant.
    pub fn new(spec_of_arg: &ArgumentSpec, value: u32) -> (a: Argument)
        ensures
            a@ == (ArgumentView { arg_spec: spec_of_arg@, value }),
    {
        Argument { arg_spec: spec_of_arg.clone(), value }
    }

    /// The field's contribution to the encoded word, `value << offset`.
    pub fn encode(&self) -> (r: EncodedInstruction)
        requires
            self@.wf(),
        ensures
            r == self@.encoded(),
    {
        self.value << self.arg_spec.offset
    }

    /// The field specification of this operand value.
    pub fn arg_spec(&self) -> (r: &ArgumentSpec)
        ensures
            r@ == self@.arg_spec,
    {
        &self.arg_spec
    }

    /// The held value.
    pub fn value(&self) -> (r: u32)
        ensures
            r == self@.value,
    {
        self.value
    }
}

/// The sequence of mathematical views of a sequence of values.
pub open spec fn views_of<T: View>(s: Seq<T>) -> Seq<T::V> {
    s.map_values(|x: T| x@)
}

/// Every instruction of the program is well formed.
pub open spec fn program_wf(p: Seq<InstructionView>) -> bool {
    forall|i: int| 0 <= i < p.len() ==> (#[trigger] p[i]).wf()
}

/// The set of template views holds this template.
pub open spec fn view_contains(ts: Seq<TemplateView>, t: TemplateView) -> bool {
    exists|i: int| 0 <= i < ts.len() && ts[i] == t
}

/// The operand views selected by five optional operand slots, in slot order.
pub open spec fn spec_operand_list(
    operand1: Option<&ArgumentSpec>,
    operand2: Option<&ArgumentSpec>,
    operand3: Option<&ArgumentSpec>,
    operand4: Option<&ArgumentSpec>,
    operand5: Option<&ArgumentSpec>,
) -> Seq<ArgSpecView> {
    push_operand(
        push_operand(
            push_operand(push_operand(push_operand(Seq::empty(), operand1), operand2), operand3),
            operand4,
        ),
        operand5,
    )
}

/// Appends the view of an operand slot, if the slot is filled.
pub open spec fn push_operand(s: Seq<ArgSpecView>, o: Option<&ArgumentSpec>) -> Seq<ArgSpecView> {
    match o {
        Some(a) => s.push(a@),
        None => s,
    }
}

/// An instruction template: mnemonic, fixed bits, fixed-bit mask and up to
/// five ordered operand fields.
#[derive(Debug)]
pub struct InstructionTemplate {
    pub name: String,
    pub match_pattern: EncodedInstruction,
    pub mask_pattern: EncodedInstruction,
    pub operands: Vec<ArgumentSpec>,
}

impl View for InstructionTemplate {
    type V = TemplateView;

    open spec fn view(&self) -> TemplateView {
        TemplateView {
            name: self.name@,
            match_pattern: self.match_pattern,
            mask_pattern: self.mask_pattern,
            operands: views_of(self.operands@),
        }
    }
}

impl Clone for InstructionTemplate {
    fn clone(&self) -> (r: Self)
        ensures
            r@ == self@,
    {
        let operands = self.operands.clone();
        proof {
            assert(operands@ =~= self.operands@);
        }
        InstructionTemplate {
            name: self.name.clone(),
            match_pattern: self.match_pattern,
            mask_pattern: self.mask_pattern,
            operands,
        }
    }
}

impl PartialEq for InstructionTemplate {
    fn eq(&self, other: &Self) -> (r: bool) {
        if !(self.name == other.name && self.match_pattern == other.match_pattern
            && self.mask_pattern == other.mask_pattern
            && self.operands.len() == other.operands.len()) {
            proof {
                if self@ == other@ {
                    assert(self@.operands.len() == other@.operands.len());
                }
            }
            return false;
        }
        let n = self.operands.len();
        let mut i: usize = 0;
        while i < n
            invariant
                0 <= i <= n,
                n == self.operands.len(),
                n == other.operands.len(),
                forall|j: int| 0 <= j < i ==> views_of(self.operands@)[j] == views_of(
                    other.operands@,
                )[j],
            decreases n - i,
        {
            if !(self.operands[i] == other.operands[i]) {
                proof {
                    if self@ == other@ {
                        assert(views_of(self.operands@)[i as int] == views_of(other.operands@)[
                        i as int]);
                    }
                }
                return false;
            }
            i = i + 1;
        }
        proof {
            assert(views_of(self.operands@) =~= views_of(other.operands@));
        }
        true
    }
}

impl Eq for InstructionTemplate {}

impl vstd::std_specs::cmp::PartialEqSpecImpl for InstructionTemplate {
    open spec fn obeys_eq_spec() -> bool {
        true
    }

    open spec fn eq_spec(&self, other: &Self) -> bool {
        self@ == other@
    }
}

impl InstructionTemplate {
    /// Builds a template from its mnemonic, patterns and up to five operand
    /// slots. The caller vouches for the template's structural invariant.
    pub fn new(
        name: &str,
        match_pattern: EncodedInstruction,
        mask_pattern: EncodedInstruction,
        operand1: Option<&ArgumentSpec>,
        operand2: Option<&ArgumentSpec>,
        operand3: Option<&ArgumentSpec>,
        operand4: Option<&ArgumentSpec>,
        operand5: Option<&ArgumentSpec>,
    ) -> (t: Self)
        requires
            (TemplateView {
                name: name@,
                match_pattern,
                mask_pattern,
                operands: spec_operand_list(operand1, operand2, operand3, operand4, operand5),
            }).wf(),
        ensures
            t@ == (TemplateView {
                name: name@,
                match_pattern,
                mask_pattern,
                operands: spec_operand_list(operand1, operand2, operand3, operand4, operand5),
            }),
            t@.wf(),
    {
        let mut operands: Vec<ArgumentSpec> = Vec::new();
        if let Some(a) = operand1 {
            operands.push(a.clone());
        }
        proof {
            assert(views_of(operands@) =~= push_operand(Seq::empty(), operand1));
        }
        let ghost s1 = views_of(operands@);
        if let Some(a) = operand2 {
            operands.push(a.clone());
        }
        proof {
            assert(views_of(operands@) =~= push_operand(s1, operand2));
        }
        let ghost s2 = views_of(operands@);
        if let Some(a) = operand3 {
            operands.push(a.clone());
        }
        proof {
            assert(views_of(operands@) =~= push_operand(s2, operand3));
        }
        let ghost s3 = views_of(operands@);
        if let Some(a) = operand4 {
            operands.push(a.clone());
        }
        proof {
            assert(views_of(operands@) =~= push_operand(s3, operand4));
        }
        let ghost s4 = views_of(operands@);
        if let Some(a) = operand5 {
            operands.push(a.clone());
        }
        proof {
            assert(views_of(operands@) =~= push_operand(s4, operand5));
        }
        InstructionTemplate { name: name.to_owned(), match_pattern, mask_pattern, operands }
    }

    /// The ordered operand fields of this template.
    pub fn operands(&self) -> (r: &Vec<ArgumentSpec>)
        ensures
            views_of(r@) == self@.operands,
    {
        &self.operands
    }

    /// The fixed bits of the canonical encoding.
    pub fn base_pattern(&self) -> (r: EncodedInstruction)
        ensures
            r == self@.match_pattern,
    {
        self.match_pattern
    }

    /// The mnemonic.
    pub fn name(&self) -> (r: &str)
        ensures
            r@ == self@.name,
    {
        self.name.as_str()
    }

    /// The first operand field carrying the given name, if any.
    pub fn op_with_name(&self, name: &str) -> (r: Option<&ArgumentSpec>)
        ensures
            match r {
                Some(op) => exists|i: int|
                    #![trigger self@.operands[i]]
                    0 <= i < self@.operands.len() && op@ == self@.operands[i] && op@.name == name@
                        && (forall|j: int| 0 <= j < i ==> (#[trigger] self@.operands[j]).name
                        != name@),
                None => forall|i: int|
                    0 <= i < self@.operands.len() ==> (#[trigger] self@.operands[i]).name != name@,
            },
    {
        let n = self.operands.len();
        let mut i: usize = 0;
        while i < n
            invariant
                0 <= i <= n,
                n == self.operands.len(),
                forall|j: int| 0 <= j < i ==> (#[trigger] views_of(self.operands@)[j]).name
                    != name@,
            decreases n - i,
        {
            if crate::text::str_eq(self.operands[i].name.as_str(), name) {
                let op = &self.operands[i];
                proof {
                    assert(op@ == self@.operands[i as int]);
                }
                return Some(op);
            }
            i = i + 1;
        }
        None
    }

    /// Whether `data` carries this template's fixed bits.
    pub fn matches(&self, data: EncodedInstruction) -> (r: bool)
        ensures
            r == self@.spec_matches(data),
    {
        data & self.mask_pattern == self.match_pattern
    }

    /// Decodes `data` with this template: some instruction with every operand
    /// field read out of the word exactly when the fixed bits match, and
    /// nothing otherwise.
    #[verifier::loop_isolation(false)]
    pub fn decode(&self, data: EncodedInstruction) -> (r: Option<Instruction>)
        requires
            self@.wf(),
        ensures
            r is Some <==> self@.spec_matches(data),
            (r matches Some(inst) ==> inst@ == spec_decode(self@, data)),
            (r matches Some(inst) ==> inst@.wf()),
    {
        if !self.matches(data) {
            return None;
        }
        let ghost d = spec_decode(self@, data);
        let n = self.operands.len();
        let mut args: Vec<Argument> = Vec::new();
        let mut i: usize = 0;
        while i < n
            invariant
                0 <= i <= n,
                n == self.operands.len(),
                self@.wf(),
                d == spec_decode(self@, data),
                views_of(args@) =~= d.arguments.take(i as int),
            decreases n - i,
        {
            assert(self@.operands[i as int].wf());
            args.push(self.operands[i].extract(data));
            proof {
                assert(views_of(args@) =~= d.arguments.take(i + 1 as int));
            }
            i = i + 1;
        }
        proof {
            assert(d.arguments.take(n as int) =~= d.arguments);
            lemma_spec_decode_wf(self@, data);
        }
        Some(Instruction { template: self.clone(), arguments: args })
    }
}

/// Whatever the word, decoding with a well-formed template yields a
/// well-formed instruction.
pub proof fn lemma_spec_decode_wf(t: TemplateView, word: u32)
    requires
        t.wf(),
    ensures
        spec_decode(t, word).wf(),
{
    let d = spec_decode(t, word);
    assert forall|i: int| 0 <= i < d.arguments.len() implies (#[trigger] d.arguments[i]).wf() by {
        assert(t.operands[i].wf());
        lemma_extract_bound(word, t.operands[i].length, t.operands[i].offset);
    }
}

/// A decoded instruction: a template together with one operand value per
/// template operand, in template order.
#[derive(Debug)]
pub struct Instruction {
    pub template: InstructionTemplate,
    pub arguments: Vec<Argument>,
}

impl View for Instruction {
    type V = InstructionView;

    open spec fn view(&self) -> InstructionView {
        InstructionView { template: self.template@, arguments: views_of(self.arguments@) }
    }
}

impl Clone for Instruction {
    fn clone(&self) -> (r: Self)
        ensures
            r@ == self@,
    {
        let arguments = self.arguments.clone();
        proof {
            assert(arguments@ =~= self.arguments@);
        }
        Instruction { template: self.template.clone(), arguments }
    }
}

impl PartialEq for Instruction {
    fn eq(&self, other: &Self) -> (r: bool) {
        if !(self.template == other.template && self.arguments.len() == other.arguments.len()) {
            proof {
                if self@ == other@ {
                    assert(self@.arguments.len() == other@.arguments.len());
                }
            }
            return false;
        }
        let n = self.arguments.len();
        let mut i: usize = 0;
        while i < n
            invariant
                0 <= i <= n,
                n == self.arguments.len(),
                n == other.arguments.len(),
                forall|j: int| 0 <= j < i ==> views_of(self.arguments@)[j] == views_of(
                    other.arguments@,
                )[j],
            decreases n - i,
        {
            if !(self.arguments[i] == other.arguments[i]) {
                proof {
                    if self@ == other@ {
                        assert(views_of(self.arguments@)[i as int] == views_of(other.arguments@)[
                        i as int]);
                    }
                }
                return false;
            }
            i = i + 1;
        }
        proof {
            assert(views_of(self.arguments@) =~= views_of(other.arguments@));
        }
        true
    }
}

impl Eq for Instruction {}

impl vstd::std_specs::cmp::PartialEqSpecImpl for Instruction {
    open spec fn obeys_eq_spec() -> bool {
        true
    }

    open spec fn eq_spec(&self, other: &Self) -> bool {
        self@ == other@
    }
}

impl Instruction {
    /// The encoded 32-bit word: the template's fixed bits joined with every
    /// argument's contribution.
    pub fn encode(&self) -> (r: EncodedInstruction)
        requires
            self@.encodable(),
        ensures
            r == self@.encoded(),
    {
        let mut result: EncodedInstruction = self.template.base_pattern();
        let n = self.arguments.len();
        let mut i: usize = 0;
        while i < n
            invariant
                0 <= i <= n,
                n == self.arguments.len(),
                self@.encodable(),
                result == self@.encode_prefix(i as int),
            decreases n - i,
        {
            assert(self@.arguments[i as int].wf());
            result = result | self.arguments[i].encode();
            i = i + 1;
        }
        result
    }

    /// Pairs a template with its argument list. The arguments must carry the
    /// template's operand fields, in the template's declared order.
    pub fn new(template: &InstructionTemplate, arguments: Vec<Argument>) -> (r: Instruction)
        requires
            views_of(arguments@).len() == template@.operands.len(),
            forall|i: int|
                0 <= i < arguments@.len() ==> (#[trigger] views_of(arguments@)[i]).arg_spec
                    == template@.operands[i],
        ensures
            r@ == (InstructionView { template: template@, arguments: views_of(arguments@) }),
            r@.args_match_template(),
    {
        Instruction { template: template.clone(), arguments }
    }

    /// The ordered operand values.
    pub fn arguments(&self) -> (r: &[Argument])
        ensures
            views_of(r@) == self@.arguments,
    {
        self.arguments.as_slice()
    }

    /// The instruction's template.
    pub fn template(&self) -> (r: &InstructionTemplate)
        ensures
            r@ == self@.template,
    {
        &self.template
    }

    /// Replaces the operand value whose field equals `new_arg`'s field: any
    /// present value for that field is dropped and `new_arg` is appended.
    #[verifier::loop_isolation(false)]
    pub fn set_arg(&mut self, new_arg: Argument)
        ensures
            final(self)@.template == old(self)@.template,
            final(self)@.arguments == old(self)@.arguments.filter(
                |a: ArgumentView| a.arg_spec != new_arg@.arg_spec,
            ).push(new_arg@),
    {
        broadcast use vstd::prelude::Seq::lemma_filter_push;

        let ghost pred = |a: ArgumentView| a.arg_spec != new_arg@.arg_spec;
        let n = self.arguments.len();
        let mut kept: Vec<Argument> = Vec::new();
        let mut i: usize = 0;
        while i < n
            invariant
                0 <= i <= n,
                n == self.arguments.len(),
                views_of(kept@) =~= views_of(self.arguments@).take(i as int).filter(pred),
            decreases n - i,
        {
            let keep = !(self.arguments[i].arg_spec == new_arg.arg_spec);
            if keep {
                kept.push(self.arguments[i].clone());
            }
            proof {
                let views = views_of(self.arguments@);
                assert(views.take(i + 1 as int) =~= views.take(i as int).push(views[i as int]));
                if keep {
                    assert(views_of(kept@) =~= views.take(i as int).filter(pred).push(
                        views[i as int],
                    ));
                }
            }
            i = i + 1;
        }
        kept.push(new_arg);
        proof {
            assert(views_of(self.arguments@).take(n as int) =~= views_of(self.arguments@));
            assert(views_of(kept@) =~= views_of(self.arguments@).filter(pred).push(new_arg@));
        }
        self.arguments = kept;
    }
}

} // verus!
