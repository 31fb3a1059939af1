//! Numerals: how the formats write counts, codes and measurements.
use vstd::prelude::*;
use vstd::slice::slice_subrange;

use crate::text::{
    chars, eq_ignoring_case, find_char, lower, lowered, next_char, next_char_first, next_char_is,
    same_ignoring_case,
};

verus! {

// ---------------------------------------------------------------------------------
// Decimal counts
// ---------------------------------------------------------------------------------

/// The character of one decimal digit.
pub open spec fn digit(d: nat) -> char {
    (('0' as u32 + d) as u32) as char
}

/// Whether `c` is one of the ten decimal digits.
pub open spec fn digit_char(c: char) -> bool {
    '0' <= c <= '9'
}

/// What one digit character stands for.
pub open spec fn digit_value(c: char) -> nat {
    (c as u32 - '0' as u32) as nat
}

/// The decimal numeral of `n`, without leading zeros.
pub open spec fn decimal(n: nat) -> Seq<char>
    decreases n,
{
    if n < 10 {
        seq![digit(n)]
    } else {
        decimal(n / 10).push(digit(n % 10))
    }
}

/// Whether every character of `s` is a digit.
pub open spec fn all_digits(s: Seq<char>) -> bool {
    forall|i: int| 0 <= i < s.len() ==> digit_char(#[trigger] s[i])
}

/// The number that a run of digits stands for.
pub open spec fn digits_value(s: Seq<char>) -> nat
    decreases s.len(),
{
    if s.len() == 0 {
        0
    } else {
        digits_value(s.drop_last()) * 10 + digit_value(s.last())
    }
}

/// A count as text: an optional `+` and then digits, no larger than a `usize`.
pub open spec fn count_of(s: Seq<char>) -> Option<usize> {
    let body = if s.len() > 0 && s.first() == '+' {
        s.drop_first()
    } else {
        s
    };
    if body.len() > 0 && all_digits(body) && digits_value(body) <= usize::MAX {
        Some(digits_value(body) as usize)
    } else {
        None
    }
}

/// The decimal numeral of `n`.
pub fn write_count(n: u64) -> (r: Vec<char>)
    ensures
        r@ == decimal(n as nat),
    decreases n,
{
    if n < 10 {
        let mut r: Vec<char> = Vec::new();
        let d: u8 = 48u8 + n as u8;
        r.push(d as char);
        r
    } else {
        let mut r: Vec<char> = write_count(n / 10);
        let d: u8 = 48u8 + (n % 10) as u8;
        r.push(d as char);
        r
    }
}

/// Reads a count.
pub fn read_count(s: &[char]) -> (r: Option<usize>)
    ensures
        r == count_of(s@),
{
    let n: usize = s.len();
    let from: usize = if n > 0 && s[0] == '+' {
        1
    } else {
        0
    };
    let body = slice_subrange(s, from, n);
    proof {
        if from == 1 {
            assert(body@ =~= s@.drop_first());
        } else {
            assert(body@ =~= s@);
        }
    }
    let m: usize = body.len();
    if m == 0 {
        return None;
    }
    let mut value: usize = 0;
    let mut i: usize = 0;
    while i < m
        invariant
            i <= m,
            m == body@.len(),
            m > 0,
            all_digits(body@.take(i as int)),
            value == digits_value(body@.take(i as int)),
            count_of(s@) == (if all_digits(body@) && digits_value(body@) <= usize::MAX {
                Some(digits_value(body@) as usize)
            } else {
                None
            }),
        decreases m - i,
    {
        let c: char = body[i];
        if !('0' <= c && c <= '9') {
            proof {
                assert(!digit_char(body@[i as int]));
            }
            return None;
        }
        let d: usize = (c as u32 - 48u32) as usize;
        proof {
            assert(body@.take(i as int + 1).drop_last() =~= body@.take(i as int));
            digits_prefix(body@, i as int + 1);
        }
        if value > usize::MAX / 10 || (value == usize::MAX / 10 && d > usize::MAX % 10) {
            proof {
                assert(digits_value(body@.take(i as int + 1)) == value * 10 + d);
                assert(digits_value(body@.take(i as int + 1)) > usize::MAX);
            }
            return None;
        }
        value = value * 10 + d;
        i = i + 1;
    }
    proof {
        assert(body@.take(m as int) =~= body@);
    }
    Some(value)
}

/// A run of digits stands for at least what its beginning stands for.
proof fn digits_prefix(s: Seq<char>, k: int)
    requires
        0 <= k <= s.len(),
    ensures
        digits_value(s.take(k)) <= digits_value(s),
    decreases s.len() - k,
{
    if k < s.len() {
        digits_prefix(s, k + 1);
        assert(s.take(k + 1).drop_last() =~= s.take(k));
    } else {
        assert(s.take(k) =~= s);
    }
}

/// A numeral is made of digits and stands for its number.
pub proof fn decimal_digits(n: nat)
    ensures
        decimal(n).len() > 0,
        all_digits(decimal(n)),
        digits_value(decimal(n)) == n,
    decreases n,
{
    if n < 10 {
        assert(decimal(n).drop_last() =~= Seq::<char>::empty());
        assert(digits_value(Seq::<char>::empty()) == 0);
    } else {
        decimal_digits(n / 10);
        assert(decimal(n).drop_last() =~= decimal(n / 10));
    }
}

/// Reading back a written count gives the count.
pub proof fn count_round_trip(n: usize)
    ensures
        count_of(decimal(n as nat)) == Some(n),
{
    decimal_digits(n as nat);
    assert(digit_char(decimal(n as nat)[0]));
}

// ---------------------------------------------------------------------------------
// Hexadecimal codes
// ---------------------------------------------------------------------------------

/// The character of one hexadecimal digit, in lower case.
pub open spec fn hex_digit(d: int) -> char {
    if d < 10 {
        (('0' as u32 + d) as u32) as char
    } else {
        (('a' as u32 + d - 10) as u32) as char
    }
}

/// The eight-digit hexadecimal form of a 32-bit code, most significant digit first.
pub open spec fn hex8(u: u32) -> Seq<char> {
    seq![
        hex_digit(u as int / 0x1000_0000 % 16),
        hex_digit(u as int / 0x100_0000 % 16),
        hex_digit(u as int / 0x10_0000 % 16),
        hex_digit(u as int / 0x1_0000 % 16),
        hex_digit(u as int / 0x1000 % 16),
        hex_digit(u as int / 0x100 % 16),
        hex_digit(u as int / 0x10 % 16),
        hex_digit(u as int % 16),
    ]
}

fn nibble(u: u32, unit: u32) -> (r: char)
    requires
        unit > 0,
    ensures
        r == hex_digit(u as int / unit as int % 16),
{
    let d: u8 = (u / unit % 16) as u8;
    if d < 10 {
        (48u8 + d) as char
    } else {
        (87u8 + d) as char
    }
}

/// The eight-digit hexadecimal form of `u`.
pub fn write_hex8(u: u32) -> (r: Vec<char>)
    ensures
        r@ == hex8(u),
{
    let mut r: Vec<char> = Vec::new();
    r.push(nibble(u, 0x1000_0000));
    r.push(nibble(u, 0x100_0000));
    r.push(nibble(u, 0x10_0000));
    r.push(nibble(u, 0x1_0000));
    r.push(nibble(u, 0x1000));
    r.push(nibble(u, 0x100));
    r.push(nibble(u, 0x10));
    r.push(nibble(u, 1));
    proof {
        assert(r@ =~= hex8(u));
    }
    r
}

// ---------------------------------------------------------------------------------
// Measurements
// ---------------------------------------------------------------------------------

/// `s` without one leading sign.
pub open spec fn unsigned(s: Seq<char>) -> Seq<char> {
    if s.len() > 0 && (s.first() == '+' || s.first() == '-') {
        s.drop_first()
    } else {
        s
    }
}

/// Digits with at most one decimal point among them, and at least one digit.
pub open spec fn mantissa(s: Seq<char>) -> bool {
    let point = next_char(s, '.', 0);
    if point < s.len() {
        &&& all_digits(s.subrange(0, point))
        &&& all_digits(s.subrange(point + 1, s.len() as int))
        &&& s.len() > 1
    } else {
        all_digits(s) && s.len() > 0
    }
}

/// Where the exponent of a numeral starts: the first `e` or `E`, or the end.
pub open spec fn exponent_at(s: Seq<char>) -> int {
    let small = next_char(s, 'e', 0);
    let large = next_char(s, 'E', 0);
    if small <= large {
        small
    } else {
        large
    }
}

/// A decimal numeral with an optional fraction and an optional exponent.
pub open spec fn decimal_number(s: Seq<char>) -> bool {
    let e = exponent_at(s);
    if e < s.len() {
        let exponent = unsigned(s.subrange(e + 1, s.len() as int));
        mantissa(s.subrange(0, e)) && all_digits(exponent) && exponent.len() > 0
    } else {
        mantissa(s)
    }
}

/// A measurement as text: an optional sign, then a decimal numeral, an infinity or a
/// not-a-number word. These are the texts that read as a double-precision number.
pub open spec fn number(s: Seq<char>) -> bool {
    let u = unsigned(s);
    ||| decimal_number(u)
    ||| same_ignoring_case(u, "inf"@)
    ||| same_ignoring_case(u, "infinity"@)
    ||| same_ignoring_case(u, "nan"@)
}

fn are_digits(s: &[char]) -> (r: bool)
    ensures
        r == all_digits(s@),
{
    let n: usize = s.len();
    for i in 0..n
        invariant
            n == s@.len(),
            forall|k: int| 0 <= k < i ==> digit_char(#[trigger] s@[k]),
    {
        let c: char = s[i];
        if !('0' <= c && c <= '9') {
            proof {
                assert(!digit_char(s@[i as int]));
            }
            return false;
        }
    }
    true
}

fn without_sign<'a>(s: &'a [char]) -> (r: &'a [char])
    ensures
        r@ == unsigned(s@),
{
    let n: usize = s.len();
    if n > 0 && (s[0] == '+' || s[0] == '-') {
        let r = slice_subrange(s, 1, n);
        proof {
            assert(r@ =~= s@.drop_first());
        }
        r
    } else {
        s
    }
}

fn is_mantissa(s: &[char]) -> (r: bool)
    ensures
        r == mantissa(s@),
{
    let n: usize = s.len();
    let point: usize = find_char(s, '.', 0);
    if point < n {
        are_digits(slice_subrange(s, 0, point)) && are_digits(slice_subrange(s, point + 1, n))
            && n > 1
    } else {
        are_digits(s) && n > 0
    }
}

fn is_decimal_number(s: &[char]) -> (r: bool)
    ensures
        r == decimal_number(s@),
{
    let n: usize = s.len();
    let small: usize = find_char(s, 'e', 0);
    let large: usize = find_char(s, 'E', 0);
    let e: usize = if small <= large {
        small
    } else {
        large
    };
    if e < n {
        let exponent = without_sign(slice_subrange(s, e + 1, n));
        is_mantissa(slice_subrange(s, 0, e)) && are_digits(exponent) && exponent.len() > 0
    } else {
        is_mantissa(s)
    }
}

fn is_word(s: &[char], word: &str) -> (r: bool)
    ensures
        r == same_ignoring_case(s@, word@),
{
    let w: Vec<char> = chars(word);
    eq_ignoring_case(s, w.as_slice())
}

/// Whether the text reads as a number.
pub fn is_number(s: &[char]) -> (r: bool)
    ensures
        r == number(s@),
{
    let u = without_sign(s);
    is_decimal_number(u) || is_word(u, "inf") || is_word(u, "infinity") || is_word(u, "nan")
}

/// The characters that numbers are written with.
pub open spec fn number_char(c: char) -> bool {
    digit_char(c) || 'a' <= c <= 'z' || 'A' <= c <= 'Z' || c == '+' || c == '-' || c == '.'
}

/// A number is not empty, and is written with digits, letters, signs and a point only.
pub proof fn number_chars(s: Seq<char>)
    requires
        number(s),
    ensures
        s.len() > 0,
        forall|i: int| 0 <= i < s.len() ==> number_char(#[trigger] s[i]),
{
    let u = unsigned(s);
    assert(u.len() > 0 && forall|i: int| 0 <= i < u.len() ==> number_char(#[trigger] u[i])) by {
        if decimal_number(u) {
            decimal_number_chars(u);
        } else if same_ignoring_case(u, "inf"@) {
            reveal_strlit("inf");
            word_chars(u, "inf"@);
        } else if same_ignoring_case(u, "infinity"@) {
            reveal_strlit("infinity");
            word_chars(u, "infinity"@);
        } else {
            reveal_strlit("nan");
            word_chars(u, "nan"@);
        }
    }
    assert forall|i: int| 0 <= i < s.len() implies number_char(#[trigger] s[i]) by {
        if u.len() < s.len() {
            if i > 0 {
                assert(u[i - 1] == s[i]);
            }
        } else {
            assert(u[i] == s[i]);
        }
    }
}

proof fn word_chars(s: Seq<char>, word: Seq<char>)
    requires
        same_ignoring_case(s, word),
        word.len() > 0,
        forall|i: int| 0 <= i < word.len() ==> 'a' <= #[trigger] word[i] <= 'z',
    ensures
        s.len() > 0,
        forall|i: int| 0 <= i < s.len() ==> number_char(#[trigger] s[i]),
{
    assert(lowered(s).len() == lowered(word).len());
    assert forall|i: int| 0 <= i < s.len() implies number_char(#[trigger] s[i]) by {
        assert(lowered(s)[i] == lowered(word)[i]);
        assert(lower(s[i]) == lower(word[i]));
    }
}

proof fn mantissa_chars(s: Seq<char>)
    requires
        mantissa(s),
    ensures
        s.len() > 0,
        forall|i: int| 0 <= i < s.len() ==> number_char(#[trigger] s[i]),
{
    let point = next_char(s, '.', 0);
    next_char_first(s, '.', 0);
    assert forall|i: int| 0 <= i < s.len() implies number_char(#[trigger] s[i]) by {
        if i < point {
            assert(s.subrange(0, point)[i] == s[i]);
        } else if i > point {
            assert(s.subrange(point + 1, s.len() as int)[i - point - 1] == s[i]);
        }
    }
}

proof fn decimal_number_chars(s: Seq<char>)
    requires
        decimal_number(s),
    ensures
        s.len() > 0,
        forall|i: int| 0 <= i < s.len() ==> number_char(#[trigger] s[i]),
{
    next_char_first(s, 'e', 0);
    next_char_first(s, 'E', 0);
    let e = exponent_at(s);
    if e < s.len() {
        let head = s.subrange(0, e);
        let tail = s.subrange(e + 1, s.len() as int);
        let exponent = unsigned(tail);
        mantissa_chars(head);
        assert forall|i: int| 0 <= i < s.len() implies number_char(#[trigger] s[i]) by {
            if i < e {
                assert(head[i] == s[i]);
            } else if i > e {
                assert(tail[i - e - 1] == s[i]);
                if exponent.len() < tail.len() {
                    if i - e - 1 > 0 {
                        assert(exponent[i - e - 2] == tail[i - e - 1]);
                    }
                } else {
                    assert(exponent[i - e - 1] == tail[i - e - 1]);
                }
            }
        }
    } else {
        mantissa_chars(s);
    }
}

/// A numeral has no leading zero, and the numeral of ten times a number and a digit is the
/// number's with that digit behind it.
pub proof fn decimal_is_plain(n: nat, d: nat)
    requires
        d < 10,
    ensures
        n > 0 ==> decimal(n)[0] != '0',
        n > 0 ==> decimal(10 * n + d) == decimal(n).push(digit(d)),
        decimal(d) == seq![digit(d)],
        digit(d) as u32 == 48 + d,
    decreases n,
{
    if n >= 10 {
        decimal_is_plain(n / 10, 0);
        decimal_digits(n / 10);
    }
    assert((10 * n + d) / 10 == n);
    assert((10 * n + d) % 10 == d);
}

/// A count is read with or without a plus sign in front and zeros before its digits; nothing
/// else may stand around them.
pub proof fn counts_are_digits(s: Seq<char>)
    requires
        s.len() > 0,
        s[0] != '+',
    ensures
        count_of(s) is Some ==> forall|i: int| 0 <= i < s.len() ==> '0' <= #[trigger] s[i] <= '9',
        count_of(seq!['+'] + s) == count_of(s),
        count_of(seq!['0'] + s) == count_of(s),
{
    let plus = seq!['+'] + s;
    assert(plus.drop_first() =~= s);
    let zero = seq!['0'] + s;
    if all_digits(s) {
        assert(all_digits(zero));
        leading_zero(s);
    } else {
        let i = choose|i: int| 0 <= i < s.len() && !digit_char(#[trigger] s[i]);
        assert(zero[i + 1] == s[i]);
    }
}

proof fn leading_zero(s: Seq<char>)
    ensures
        digits_value(seq!['0'] + s) == digits_value(s),
    decreases s.len(),
{
    let z = seq!['0'] + s;
    if s.len() == 0 {
        assert(z.drop_last() =~= Seq::<char>::empty());
        assert(digits_value(Seq::<char>::empty()) == 0);
    } else {
        leading_zero(s.drop_last());
        assert(z.drop_last() =~= seq!['0'] + s.drop_last());
    }
}

/// What one hexadecimal digit character stands for.
pub open spec fn hex_digit_value(c: char) -> int {
    if '0' <= c <= '9' {
        c as u32 - 48
    } else {
        c as u32 - 87
    }
}

/// The eight digits of a code are lower-case hexadecimal digits, and stand for the code.
pub proof fn hex8_stands_for_its_code(u: u32)
    ensures
        hex8(u).len() == 8,
        forall|i: int|
            0 <= i < 8 ==> '0' <= #[trigger] hex8(u)[i] <= '9' || 'a' <= hex8(u)[i] <= 'f',
        hex_digit_value(hex8(u)[0]) * 0x1000_0000 + hex_digit_value(hex8(u)[1]) * 0x100_0000
            + hex_digit_value(hex8(u)[2]) * 0x10_0000 + hex_digit_value(hex8(u)[3]) * 0x1_0000
            + hex_digit_value(hex8(u)[4]) * 0x1000 + hex_digit_value(hex8(u)[5]) * 0x100
            + hex_digit_value(hex8(u)[6]) * 0x10 + hex_digit_value(hex8(u)[7]) == u,
{
    let n = u as int;
    hex_digit_is(n / 0x1000_0000 % 16);
    hex_digit_is(n / 0x100_0000 % 16);
    hex_digit_is(n / 0x10_0000 % 16);
    hex_digit_is(n / 0x1_0000 % 16);
    hex_digit_is(n / 0x1000 % 16);
    hex_digit_is(n / 0x100 % 16);
    hex_digit_is(n / 0x10 % 16);
    hex_digit_is(n % 16);
    assert(n / 0x1000_0000 == n / 0x100_0000 / 16);
    assert(n / 0x100_0000 == n / 0x10_0000 / 16);
    assert(n / 0x10_0000 == n / 0x1_0000 / 16);
    assert(n / 0x1_0000 == n / 0x1000 / 16);
    assert(n / 0x1000 == n / 0x100 / 16);
    assert(n / 0x100 == n / 0x10 / 16);
}

proof fn hex_digit_is(d: int)
    requires
        0 <= d < 16,
    ensures
        '0' <= hex_digit(d) <= '9' || 'a' <= hex_digit(d) <= 'f',
        hex_digit_value(hex_digit(d)) == d,
{
}

/// Digits are a number, with a fraction behind a point and with a sign in front too.
pub proof fn plain_numerals_are_numbers(whole: Seq<char>, fraction: Seq<char>)
    requires
        whole.len() > 0,
        forall|i: int| 0 <= i < whole.len() ==> '0' <= #[trigger] whole[i] <= '9',
        forall|i: int| 0 <= i < fraction.len() ==> '0' <= #[trigger] fraction[i] <= '9',
    ensures
        number(whole),
        number(whole + seq!['.'] + fraction),
        number(seq!['-'] + whole),
        number(seq!['-'] + (whole + seq!['.'] + fraction)),
        number(seq!['+'] + (whole + seq!['.'] + fraction)),
{
    let s = whole + seq!['.'] + fraction;
    assert(s.subrange(0, whole.len() as int) =~= whole);
    assert(s.subrange(whole.len() as int + 1, s.len() as int) =~= fraction);
    next_char_is(whole, 'e', 0, whole.len() as int);
    next_char_is(whole, 'E', 0, whole.len() as int);
    next_char_is(whole, '.', 0, whole.len() as int);
    assert forall|i: int| 0 <= i < s.len() implies s[i] != 'e' && s[i] != 'E' by {
        if i > whole.len() {
            assert(s[i] == fraction[i - whole.len() - 1]);
        } else if i < whole.len() {
            assert(s[i] == whole[i]);
        }
    }
    next_char_is(s, 'e', 0, s.len() as int);
    next_char_is(s, 'E', 0, s.len() as int);
    assert forall|i: int| 0 <= i < whole.len() implies s[i] != '.' by {
        assert(s[i] == whole[i]);
    }
    next_char_is(s, '.', 0, whole.len() as int);
    assert(whole[0] != '+' && whole[0] != '-');
    assert(s[0] == whole[0]);
    assert((seq!['-'] + whole).drop_first() =~= whole);
    assert((seq!['-'] + s).drop_first() =~= s);
    assert((seq!['+'] + s).drop_first() =~= s);
}

/// A digit behind others makes their number ten times as large and adds itself.
pub proof fn digits_are_places(s: Seq<char>, c: char)
    requires
        '0' <= c <= '9',
    ensures
        digits_value(Seq::<char>::empty()) == 0,
        digits_value(s.push(c)) == 10 * digits_value(s) + (c as u32 - 48),
{
    assert(s.push(c).drop_last() =~= s);
}

/// A count too large to hold is no count.
pub proof fn too_large_is_no_count(n: nat)
    ensures
        n > usize::MAX ==> count_of(decimal(n)) is None,
        n <= usize::MAX ==> count_of(decimal(n)) == Some(n as usize),
        count_of(Seq::<char>::empty()) is None,
        count_of(seq!['+']) is None,
{
    decimal_digits(n);
    assert(digit_char(decimal(n)[0]));
    assert(seq!['+'].drop_first().len() == 0);
}

/// An exponent may follow a numeral, with a sign of its own or without.
pub proof fn exponents_are_numbers(whole: Seq<char>, exponent: Seq<char>)
    requires
        whole.len() > 0,
        exponent.len() > 0,
        forall|i: int| 0 <= i < whole.len() ==> '0' <= #[trigger] whole[i] <= '9',
        forall|i: int| 0 <= i < exponent.len() ==> '0' <= #[trigger] exponent[i] <= '9',
    ensures
        number(whole + seq!['e'] + exponent),
        number(whole + seq!['E'] + exponent),
        number(whole + seq!['e'] + (seq!['-'] + exponent)),
        number(whole + seq!['e'] + (seq!['+'] + exponent)),
        !number(whole + seq!['e']),
{
    exponent_reads(whole, 'e', exponent, exponent);
    exponent_reads(whole, 'E', exponent, exponent);
    assert((seq!['-'] + exponent).drop_first() =~= exponent);
    assert((seq!['+'] + exponent).drop_first() =~= exponent);
    exponent_reads(whole, 'e', seq!['-'] + exponent, exponent);
    exponent_reads(whole, 'e', seq!['+'] + exponent, exponent);
    let s = whole + seq!['e'];
    assert(s[0] == whole[0]);
    assert forall|i: int| 0 <= i < whole.len() implies s[i] != 'e' && s[i] != 'E' by {
        assert(s[i] == whole[i]);
    }
    next_char_is(s, 'e', 0, whole.len() as int);
    next_char_is(s, 'E', 0, s.len() as int);
    assert(s.subrange(whole.len() as int + 1, s.len() as int).len() == 0);
    not_a_word(s, "inf"@);
    not_a_word(s, "infinity"@);
    not_a_word(s, "nan"@);
}

proof fn exponent_reads(whole: Seq<char>, e: char, tail: Seq<char>, exponent: Seq<char>)
    requires
        whole.len() > 0,
        exponent.len() > 0,
        e == 'e' || e == 'E',
        forall|i: int| 0 <= i < whole.len() ==> '0' <= #[trigger] whole[i] <= '9',
        forall|i: int| 0 <= i < exponent.len() ==> '0' <= #[trigger] exponent[i] <= '9',
        tail == exponent || (tail.len() > 0 && (tail[0] == '+' || tail[0] == '-')
            && tail.drop_first() == exponent),
    ensures
        number(whole + seq![e] + tail),
{
    let s = whole + seq![e] + tail;
    let n = whole.len() as int;
    assert(s[0] == whole[0]);
    assert(s[n] == e);
    assert forall|i: int| 0 <= i < n implies s[i] != 'e' && s[i] != 'E' by {
        assert(s[i] == whole[i]);
    }
    assert forall|i: int| n < i < s.len() implies s[i] != 'e' && s[i] != 'E' by {
        assert(s[i] == tail[i - n - 1]);
        if tail == exponent {
            assert(s[i] == exponent[i - n - 1]);
        } else if i > n + 1 {
            assert(tail.drop_first()[i - n - 2] == s[i]);
            assert(s[i] == exponent[i - n - 2]);
        }
    }
    if e == 'e' {
        next_char_is(s, 'e', 0, n);
        next_char_is(s, 'E', 0, s.len() as int);
    } else {
        next_char_is(s, 'E', 0, n);
        next_char_is(s, 'e', 0, s.len() as int);
    }
    assert(s.subrange(0, n) =~= whole);
    assert(s.subrange(n + 1, s.len() as int) =~= tail);
    next_char_is(whole, '.', 0, n);
    assert(exponent[0] != '+' && exponent[0] != '-');
    assert(unsigned(tail) == exponent);
}

proof fn not_a_word(s: Seq<char>, word: Seq<char>)
    requires
        s.len() > 0,
        '0' <= s[0] <= '9',
        word == "inf"@ || word == "infinity"@ || word == "nan"@,
    ensures
        !same_ignoring_case(s, word),
{
    reveal_strlit("inf");
    reveal_strlit("infinity");
    reveal_strlit("nan");
    if same_ignoring_case(s, word) {
        assert(lowered(s)[0] == lowered(word)[0]);
        assert(lower(s[0]) == lower(word[0]));
    }
}

/// What is written without a digit is a number only as one of the three words, whatever its
/// case and sign.
pub proof fn without_digits_only_words(s: Seq<char>)
    requires
        forall|i: int| 0 <= i < s.len() ==> !('0' <= #[trigger] s[i] <= '9'),
    ensures
        ({
            let u = if s.len() > 0 && (s[0] == '+' || s[0] == '-') {
                s.drop_first()
            } else {
                s
            };
            number(s) <==> same_ignoring_case(u, "inf"@) || same_ignoring_case(u, "infinity"@)
                || same_ignoring_case(u, "nan"@)
        }),
{
    let u = unsigned(s);
    assert forall|i: int| 0 <= i < u.len() implies !('0' <= #[trigger] u[i] <= '9') by {
        if u.len() < s.len() {
            assert(u[i] == s[i + 1]);
        } else {
            assert(u[i] == s[i]);
        }
    }
    if decimal_number(u) {
        next_char_first(u, 'e', 0);
        next_char_first(u, 'E', 0);
        let e = exponent_at(u);
        let m = if e < u.len() {
            u.subrange(0, e)
        } else {
            u
        };
        next_char_first(m, '.', 0);
        let point = next_char(m, '.', 0);
        assert forall|i: int| 0 <= i < m.len() implies !digit_char(#[trigger] m[i]) by {
            assert(m[i] == u[i]);
        }
        if point < m.len() {
            if point > 0 {
                assert(m.subrange(0, point)[0] == m[0]);
            } else {
                assert(m.subrange(1, m.len() as int)[0] == m[1]);
            }
        } else {
            assert(!digit_char(m[0]));
        }
    }
}

} // verus!
