//! Small verified helpers over strings and numbers: character-level string
//! equality, rendering of decimal and hexadecimal numbers, and parsing of
//! decimal and hexadecimal operand values.

use vstd::prelude::*;

verus! {

use vstd::string::StrSliceExecFns;

/// Character-for-character equality of two string slices.
pub fn str_eq(a: &str, b: &str) -> (r: bool)
    ensures
        r == (a@ == b@),
{
    let la = a.unicode_len();
    let lb = b.unicode_len();
    if la != lb {
        return false;
    }
    let mut i: usize = 0;
    while i < la
        invariant
            0 <= i <= la,
            la == a@.len(),
            la == b@.len(),
            forall|j: int| 0 <= j < i ==> a@[j] == b@[j],
        decreases la - i,
    {
        if a.get_char(i) != b.get_char(i) {
            return false;
        }
        i = i + 1;
    }
    proof {
        assert(a@ =~= b@);
    }
    true
}

/// Appends one character.
///
/// Relies on `String::push`, which std documents to append exactly the given
/// character to the end of the string.
#[verifier::external_body]
pub fn push_char(s: &mut String, c: char)
    ensures
        final(s)@ == old(s)@.push(c),
{
    s.push(c);
}

/// Whether a character is a decimal digit.
pub open spec fn is_dec_digit(c: char) -> bool {
    '0' <= c <= '9'
}

/// Whether a character is a lowercase hexadecimal digit.
pub open spec fn is_hex_digit(c: char) -> bool {
    ('0' <= c <= '9') || ('a' <= c <= 'f')
}

/// The character for a digit below ten.
pub open spec fn dec_char(d: int) -> char {
    ((48 + d) as u8) as char
}

/// The lowercase character for a digit below sixteen.
pub open spec fn hex_char(d: int) -> char {
    if d < 10 {
        ((48 + d) as u8) as char
    } else {
        ((87 + d) as u8) as char
    }
}

/// The decimal rendering of a number, most significant digit first.
pub open spec fn spec_dec_digits(n: nat) -> Seq<char>
    decreases n,
{
    if n < 10 {
        seq![dec_char(n as int)]
    } else {
        spec_dec_digits(n / 10).push(dec_char((n % 10) as int))
    }
}

/// The rendering of the low `width` hexadecimal digits of a number,
/// most significant digit first.
pub open spec fn spec_hex_digits(n: u64, width: nat) -> Seq<char>
    decreases width,
{
    if width == 0 {
        Seq::empty()
    } else {
        spec_hex_digits(n / 16, (width - 1) as nat).push(hex_char((n % 16) as int))
    }
}

/// Every character of a decimal rendering is a decimal digit.
pub proof fn lemma_dec_digits_are_digits(n: nat)
    ensures
        spec_dec_digits(n).len() >= 1,
        forall|i: int|
            0 <= i < spec_dec_digits(n).len() ==> is_dec_digit(#[trigger] spec_dec_digits(n)[i]),
    decreases n,
{
    if n >= 10 {
        lemma_dec_digits_are_digits(n / 10);
    }
}

/// A hexadecimal rendering has exactly `width` characters, all hexadecimal
/// digits.
pub proof fn lemma_hex_digits_are_digits(n: u64, width: nat)
    ensures
        spec_hex_digits(n, width).len() == width,
        forall|i: int|
            0 <= i < spec_hex_digits(n, width).len() ==> is_hex_digit(
                #[trigger] spec_hex_digits(n, width)[i],
            ),
    decreases width,
{
    if width > 0 {
        lemma_hex_digits_are_digits(n / 16, (width - 1) as nat);
    }
}

/// Appends one digit character.
fn push_digit_char(s: &mut String, d: u64)
    requires
        d < 16,
    ensures
        final(s)@ == old(s)@ + seq![hex_char(d as int)],
        d < 10 ==> final(s)@ == old(s)@ + seq![dec_char(d as int)],
{
    let piece: &str = match d {
        0 => "0",
        1 => "1",
        2 => "2",
        3 => "3",
        4 => "4",
        5 => "5",
        6 => "6",
        7 => "7",
        8 => "8",
        9 => "9",
        10 => "a",
        11 => "b",
        12 => "c",
        13 => "d",
        14 => "e",
        _ => "f",
    };
    proof {
        reveal_strlit("0");
        reveal_strlit("1");
        reveal_strlit("2");
        reveal_strlit("3");
        reveal_strlit("4");
        reveal_strlit("5");
        reveal_strlit("6");
        reveal_strlit("7");
        reveal_strlit("8");
        reveal_strlit("9");
        reveal_strlit("a");
        reveal_strlit("b");
        reveal_strlit("c");
        reveal_strlit("d");
        reveal_strlit("e");
        reveal_strlit("f");
        assert(piece@ =~= seq![hex_char(d as int)]);
    }
    s.append(piece);
}

/// Appends the decimal rendering of a number.
pub fn push_dec(s: &mut String, n: u64)
    ensures
        final(s)@ == old(s)@ + spec_dec_digits(n as nat),
    decreases n,
{
    if n >= 10 {
        push_dec(s, n / 10);
    }
    push_digit_char(s, n % 10);
}

/// The numeric value of one digit character: decimal digits, then lowercase
/// and uppercase hexadecimal letters.
pub open spec fn digit_val(c: char) -> int {
    if '0' <= c <= '9' {
        c as int - 48
    } else if 'a' <= c <= 'f' {
        c as int - 87
    } else if 'A' <= c <= 'F' {
        c as int - 55
    } else {
        16
    }
}

/// Every character is a digit of the radix, and there is at least one.
pub open spec fn valid_digits(s: Seq<char>, radix: int) -> bool {
    s.len() >= 1 && (forall|i: int| 0 <= i < s.len() ==> digit_val(#[trigger] s[i]) < radix)
}

/// The number the digit string denotes under the radix.
pub open spec fn spec_radix_value(s: Seq<char>, radix: int) -> int
    decreases s.len(),
{
    if s.len() == 0 {
        0
    } else {
        spec_radix_value(s.drop_last(), radix) * radix + digit_val(s.last())
    }
}

/// The denoted value never shrinks as digits are appended.
proof fn lemma_radix_value_monotone(s: Seq<char>, radix: int, i: int)
    requires
        2 <= radix,
        0 <= i <= s.len(),
        forall|j: int| 0 <= j < s.len() ==> 0 <= digit_val(#[trigger] s[j]),
    ensures
        spec_radix_value(s.take(i), radix) <= spec_radix_value(s, radix),
        0 <= spec_radix_value(s, radix),
    decreases s.len(),
{
    if s.len() == 0 {
    } else {
        assert forall|j: int|
            0 <= j < s.drop_last().len() implies 0 <= digit_val(#[trigger] s.drop_last()[j]) by {
            assert(s.drop_last()[j] == s[j]);
        }
        if i == s.len() {
            lemma_radix_value_monotone(s.drop_last(), radix, s.len() - 1);
            assert(s.take(i) =~= s);
        } else {
            lemma_radix_value_monotone(s.drop_last(), radix, i);
            assert(s.drop_last().take(i) =~= s.take(i));
        }
        let pre = spec_radix_value(s.drop_last(), radix);
        assert(pre <= pre * radix) by (nonlinear_arith)
            requires
                0 <= pre,
                2 <= radix,
        ;
        assert(0 <= digit_val(s.last()));
    }
}

/// Reads an unsigned 32-bit number from a digit string under radix ten or
/// sixteen: the denoted value exactly when every character is a digit of the
/// radix and the value fits, and nothing otherwise.
pub fn parse_radix_u32(s: &str, radix: u32) -> (r: Option<u32>)
    requires
        radix == 10 || radix == 16,
    ensures
        r is Some <==> valid_digits(s@, radix as int) && spec_radix_value(s@, radix as int)
            <= u32::MAX,
        (r matches Some(v) ==> v == spec_radix_value(s@, radix as int)),
{
    let n = s.unicode_len();
    if n == 0 {
        return None;
    }
    let mut acc: u64 = 0;
    let mut i: usize = 0;
    while i < n
        invariant
            0 <= i <= n,
            n == s@.len(),
            radix == 10 || radix == 16,
            acc == spec_radix_value(s@.take(i as int), radix as int),
            acc <= u32::MAX,
            forall|j: int| 0 <= j < i ==> digit_val(#[trigger] s@[j]) < radix,
        decreases n - i,
    {
        let c = s.get_char(i);
        let cu = c as u32;
        let d: u32 = if cu >= 48 && cu <= 57 {
            cu - 48
        } else if radix == 16 && cu >= 97 && cu <= 102 {
            cu - 87
        } else if radix == 16 && cu >= 65 && cu <= 70 {
            cu - 55
        } else {
            proof {
                assert(digit_val(s@[i as int]) >= radix);
            }
            return None;
        };
        proof {
            assert(d == digit_val(s@[i as int]));
        }
        proof {
            let rr = radix as u64;
            assert(acc * rr <= 0xffffffffu64 * 16) by (nonlinear_arith)
                requires
                    0 <= acc <= 0xffffffffu64,
                    0 <= rr <= 16,
            ;
        }
        acc = acc * (radix as u64) + (d as u64);
        proof {
            let q = s@.take(i + 1 as int);
            assert(q.drop_last() =~= s@.take(i as int));
            assert(q.last() == s@[i as int]);
        }
        if acc > 0xffffffff {
            proof {
                assert forall|j: int| 0 <= j < s@.len() implies 0 <= digit_val(
                    #[trigger] s@[j],
                ) by {}
                lemma_radix_value_monotone(s@, radix as int, i + 1 as int);
                if valid_digits(s@, radix as int) {
                    assert(spec_radix_value(s@, radix as int) > u32::MAX);
                }
            }
            return None;
        }
        i = i + 1;
    }
    proof {
        assert(s@.take(n as int) =~= s@);
    }
    Some(acc as u32)
}

/// Appends the low `width` hexadecimal digits of a number.
fn push_hex_rec(s: &mut String, n: u64, width: usize)
    ensures
        final(s)@ == old(s)@ + spec_hex_digits(n, width as nat),
    decreases width,
{
    if width == 0 {
        proof {
            assert(s@ =~= s@ + spec_hex_digits(n, 0));
        }
        return ;
    }
    push_hex_rec(s, n / 16, width - 1);
    let ghost mid = s@;
    push_digit_char(s, n % 16);
    proof {
        assert(s@ =~= old(s)@ + spec_hex_digits(n, width as nat));
    }
}

/// Appends the sixteen-digit hexadecimal rendering of a number.
pub fn push_hex16(s: &mut String, n: u64)
    ensures
        final(s)@ == old(s)@ + spec_hex_digits(n, 16),
{
    push_hex_rec(s, n, 16);
}

} // verus!
