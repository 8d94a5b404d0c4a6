//! Numbers written out as text, and read back.

use crate::text::chars_of;
use vstd::prelude::*;
use vstd::string::*;

verus! {

/// Whether a character is an ASCII decimal digit.
pub open spec fn is_digit(c: char) -> bool {
    '0' <= c && c <= '9'
}

/// The number that a run of decimal digits denotes.
pub open spec fn digits_value(s: Seq<char>) -> nat
    decreases s.len(),
{
    if s.len() == 0 {
        0
    } else {
        digits_value(s.drop_last()) * 10 + (s.last() as nat - '0' as nat) as nat
    }
}

/// Whether every character is a decimal digit.
pub open spec fn all_digits(s: Seq<char>) -> bool {
    forall|i: int| 0 <= i < s.len() ==> is_digit(#[trigger] s[i])
}

/// The unsigned number that a text denotes: an optional `+`, then at least one decimal digit and
/// nothing else, within the range of a `u64`.
pub open spec fn unsigned_value(s: Seq<char>) -> Option<u64> {
    let digits = if s.len() > 0 && s[0] == '+' {
        s.skip(1)
    } else {
        s
    };
    if digits.len() > 0 && all_digits(digits) && digits_value(digits) <= u64::MAX {
        Some(digits_value(digits) as u64)
    } else {
        None
    }
}

/// The digit character for a value below sixteen, in lower case.
pub open spec fn digit_char(d: int) -> char {
    if d < 10 {
        (48 + d) as char
    } else {
        (87 + d) as char
    }
}

/// A number in positional notation, without leading zeros.
pub open spec fn positional(n: nat, base: nat) -> Seq<char>
    decreases n,
    when base >= 2
{
    if n < base {
        seq![digit_char(n as int)]
    } else {
        proof {
            assert(n / base < n) by (nonlinear_arith)
                requires
                    n >= base,
                    base >= 2,
            ;
        }
        positional(n / base, base).push(digit_char((n % base) as int))
    }
}

/// A number in decimal notation.
pub open spec fn decimal(n: int) -> Seq<char> {
    if n < 0 {
        seq!['-'] + positional((-n) as nat, 10)
    } else {
        positional(n as nat, 10)
    }
}

/// A text padded on the left with `0` to at least `width` characters.
pub open spec fn zero_padded(s: Seq<char>, width: nat) -> Seq<char> {
    if s.len() >= width {
        s
    } else {
        Seq::new((width - s.len()) as nat, |i: int| '0') + s
    }
}

/// A 32-bit code in lower-case hexadecimal with its `0x` prefix, padded with zeros to eight
/// characters in all.
pub open spec fn hex_code(code: u32) -> Seq<char> {
    seq!['0', 'x'] + zero_padded(positional(code as nat, 16), 6)
}

/// Longer runs of digits denote numbers at least as large as what they begin with.
proof fn lemma_digits_value_grows(s: Seq<char>, n: int)
    requires
        0 <= n <= s.len(),
        all_digits(s),
    ensures
        digits_value(s.take(n)) <= digits_value(s),
    decreases s.len() - n,
{
    if n < s.len() {
        lemma_digits_value_grows(s, n + 1);
        assert(s.take(n + 1).drop_last() =~= s.take(n));
        assert(is_digit(s[n]));
    } else {
        assert(s.take(n) =~= s);
    }
}

/// Read an unsigned decimal number.
pub fn parse_unsigned(s: &str) -> (r: Option<u64>)
    ensures
        r == unsigned_value(s@),
{
    let chars = chars_of(s);
    let start: usize = if chars.len() > 0 && chars[0] == '+' {
        1
    } else {
        0
    };
    let ghost digits = chars@.skip(start as int);
    assert(start == 0 ==> digits =~= s@);
    if start == chars.len() {
        return None;
    }
    let mut value: u64 = 0;
    let mut i: usize = start;
    assert(digits.take(0) =~= Seq::<char>::empty());
    while i < chars.len()
        invariant
            start <= i <= chars@.len(),
            digits == chars@.skip(start as int),
            digits.len() > 0,
            unsigned_value(s@) == (if all_digits(digits) && digits_value(digits) <= u64::MAX {
                Some(digits_value(digits) as u64)
            } else {
                None
            }),
            forall|j: int| 0 <= j < i - start ==> is_digit(#[trigger] digits[j]),
            value == digits_value(digits.take(i - start)),
        decreases chars@.len() - i,
    {
        let c = chars[i];
        if c < '0' || '9' < c {
            assert(!is_digit(digits[i - start]));
            return None;
        }
        let d: u64 = c as u64 - '0' as u64;
        let ghost next = digits.take(i - start + 1);
        assert(next.drop_last() =~= digits.take(i - start));
        assert(digits_value(next) == value * 10 + d);
        if value > (u64::MAX - d) / 10 {
            proof {
                assert(value * 10 + d > u64::MAX) by (nonlinear_arith)
                    requires
                        value > (u64::MAX - d) / 10,
                        d <= 9,
                ;
                if all_digits(digits) {
                    lemma_digits_value_grows(digits, i - start + 1);
                }
            }
            return None;
        }
        assert(value * 10 + d <= u64::MAX) by (nonlinear_arith)
            requires
                value <= (u64::MAX - d) / 10,
                d <= 9,
        ;
        value = value * 10 + d;
        i = i + 1;
    }
    assert(digits.take(i - start) =~= digits);
    Some(value)
}

/// Write a number in positional notation.
pub fn write_positional(n: u64, base: u64) -> (r: String)
    requires
        2 <= base <= 16,
    ensures
        r@ == positional(n as nat, base as nat),
    decreases n,
{
    if n < base {
        let mut out = String::new();
        out.push(digit_of(n));
        assert(out@ =~= seq![digit_char(n as int)]);
        out
    } else {
        assert(n / base < n) by (nonlinear_arith)
            requires
                n >= base,
                base >= 2,
        ;
        assert(n % base < base) by (nonlinear_arith)
            requires
                base >= 2,
        ;
        let mut out = write_positional(n / base, base);
        out.push(digit_of(n % base));
        out
    }
}

/// The digit character for a value below sixteen.
fn digit_of(d: u64) -> (r: char)
    requires
        d < 16,
    ensures
        r == digit_char(d as int),
{
    if d < 10 {
        (48u8 + d as u8) as char
    } else {
        (87u8 + d as u8) as char
    }
}

/// Write a 32-bit code in the `0x` notation of error reports.
pub fn write_hex_code(code: u32) -> (r: String)
    ensures
        r@ == hex_code(code),
{
    let digits = write_positional(code as u64, 16);
    let count: usize = chars_of(digits.as_str()).len();
    let mut out = String::new();
    out.push('0');
    out.push('x');
    let mut i: usize = count;
    assert(out@ =~= seq!['0', 'x']);
    while i < 6
        invariant
            count <= i,
            i <= 6 || i == count,
            out@ == seq!['0', 'x'] + Seq::new((i - count) as nat, |k: int| '0'),
        decreases 6 - i,
    {
        out.push('0');
        i = i + 1;
        assert(out@ =~= seq!['0', 'x'] + Seq::new((i - count) as nat, |k: int| '0'));
    }
    out.append(digits.as_str());
    assert(out@ =~= hex_code(code));
    out
}

/// The value of a digit character of any base up to sixteen, in lower case.
pub open spec fn digit_value(c: char) -> int {
    if '0' <= c && c <= '9' {
        c as int - '0' as int
    } else if 'a' <= c && c <= 'f' {
        c as int - 'a' as int + 10
    } else {
        -1
    }
}

/// The number that a run of digit characters denotes in a base.
pub open spec fn denoted(s: Seq<char>, base: int) -> int
    decreases s.len(),
{
    if s.len() == 0 {
        0
    } else {
        denoted(s.drop_last(), base) * base + digit_value(s.last())
    }
}

proof fn lemma_digit(d: int)
    requires
        0 <= d < 16,
    ensures
        digit_value(digit_char(d)) == d,
        d < 10 ==> is_digit(digit_char(d)) && digit_char(d) as int == 48 + d,
        digit_char(d) == '0' <==> d == 0,
{
}

/// A number that is written out denotes itself, in characters that are digits of its base, and does
/// not begin with a zero unless it is zero.
pub proof fn law_written_number_denotes_itself(n: nat, base: nat)
    requires
        2 <= base <= 16,
    ensures
        denoted(positional(n, base), base as int) == n,
        positional(n, base).len() > 0,
        positional(n, base)[0] == '0' <==> n == 0,
        forall|i: int|
            0 <= i < positional(n, base).len() ==> 0 <= digit_value(
                #[trigger] positional(n, base)[i],
            ) < base,
    decreases n,
{
    if n < base {
        lemma_digit(n as int);
        let s = positional(n, base);
        assert(s.drop_last() =~= Seq::empty());
        reveal_with_fuel(denoted, 2);
        assert(0 * (base as int) == 0);
    } else {
        assert(n / base < n && n / base > 0) by (nonlinear_arith)
            requires
                n >= base,
                base >= 2,
        ;
        assert(0 <= n % base < base && (n / base) * base + n % base == n) by (nonlinear_arith)
            requires
                base >= 2,
        ;
        law_written_number_denotes_itself(n / base, base);
        lemma_digit((n % base) as int);
        let before = positional(n / base, base);
        let s = positional(n, base);
        assert(s.drop_last() =~= before);
        assert(s[0] == before[0]);
        assert forall|i: int| 0 <= i < s.len() implies 0 <= digit_value(#[trigger] s[i]) < base by {
            if i < before.len() {
                assert(s[i] == before[i]);
            }
        }
    }
}

proof fn lemma_decimal_value(s: Seq<char>)
    requires
        forall|i: int| 0 <= i < s.len() ==> 0 <= digit_value(#[trigger] s[i]) < 10,
    ensures
        all_digits(s),
        digits_value(s) == denoted(s, 10),
    decreases s.len(),
{
    if s.len() > 0 {
        assert forall|i: int| 0 <= i < s.drop_last().len() implies 0 <= digit_value(
            #[trigger] s.drop_last()[i],
        ) < 10 by {
            assert(0 <= digit_value(s[i]) < 10);
        }
        lemma_decimal_value(s.drop_last());
        assert(0 <= digit_value(s[s.len() - 1]) < 10);
    }
    assert forall|i: int| 0 <= i < s.len() implies is_digit(#[trigger] s[i]) by {
        assert(0 <= digit_value(s[i]) < 10);
    }
}

/// A number that is written in decimal is read back, with or without a plus sign before it.
pub proof fn law_decimal_number_is_read_back(n: u64)
    ensures
        unsigned_value(decimal(n as int)) == Some(n),
        unsigned_value(seq!['+'] + decimal(n as int)) == Some(n),
{
    let s = positional(n as nat, 10);
    law_written_number_denotes_itself(n as nat, 10);
    lemma_decimal_value(s);
    assert(0 <= digit_value(s[0]) < 10);
    let plus = seq!['+'] + s;
    assert(plus.skip(1) =~= s);
}

/// A text that is empty, is a lone plus sign, or holds anything but digits behind an optional plus
/// sign is no number.
pub proof fn law_other_text_is_no_number(s: Seq<char>, i: int)
    requires
        s.len() == 0 || s == seq!['+'] || {
            &&& 0 <= i < s.len()
            &&& !('0' <= s[i] && s[i] <= '9')
            &&& i > 0 || s[0] != '+'
        },
    ensures
        unsigned_value(s) is None,
{
    let digits = if s.len() > 0 && s[0] == '+' {
        s.skip(1)
    } else {
        s
    };
    if s.len() > 0 && s != seq!['+'] {
        if s[0] == '+' {
            assert(digits[i - 1] == s[i]);
            assert(!is_digit(digits[i - 1]));
        } else {
            assert(!is_digit(digits[i]));
        }
    }
}

/// A code is written behind `0x`, padded with zeros to eight characters in all, and its digits denote
/// it.
pub proof fn law_hex_code_denotes_the_code(code: u32)
    ensures
        hex_code(code).len() >= 8,
        hex_code(code)[0] == '0' && hex_code(code)[1] == 'x',
        denoted(hex_code(code).skip(2), 16) == code,
        hex_code(code).len() > 8 ==> hex_code(code)[2] != '0',
{
    let digits = positional(code as nat, 16);
    law_written_number_denotes_itself(code as nat, 16);
    let padded = zero_padded(digits, 6);
    assert(hex_code(code).skip(2) =~= padded);
    if digits.len() < 6 {
        lemma_leading_zeros((6 - digits.len()) as nat, digits);
    } else {
        assert(hex_code(code)[2] == digits[0]);
        if digits.len() > 6 && code == 0 {
            assert(digits.len() == 1);
        }
    }
}

proof fn lemma_leading_zeros(zeros: nat, s: Seq<char>)
    ensures
        denoted(Seq::new(zeros, |i: int| '0') + s, 16) == denoted(s, 16),
    decreases zeros + s.len(),
{
    let padding = Seq::new(zeros, |i: int| '0');
    let all = padding + s;
    if s.len() > 0 {
        assert(all.drop_last() =~= padding + s.drop_last());
        assert(all.last() == s.last());
        lemma_leading_zeros(zeros, s.drop_last());
    } else if zeros > 0 {
        assert(all.drop_last() =~= Seq::new((zeros - 1) as nat, |i: int| '0') + s);
        assert(all.last() == '0');
        lemma_leading_zeros((zeros - 1) as nat, s);
        assert(0 * 16 == 0);
    } else {
        assert(all =~= s);
    }
}

} // verus!
