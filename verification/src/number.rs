//! Numbers written in text and read from it.

use crate::text::chars_of;
use crate::text::copy_text;
use vstd::prelude::*;
use vstd::string::StringExecFns;

verus! {

/// The character of a decimal digit.
pub open spec fn digit(d: int) -> char {
    ('0' as int + d) as char
}

/// The decimal digits of a number, without leading zeros.
pub open spec fn decimal(n: nat) -> Seq<char>
    decreases n,
{
    if n < 10 {
        seq![digit(n as int)]
    } else {
        decimal(n / 10).push(digit((n % 10) as int))
    }
}

/// The decimal digits of an integer, with a minus sign before a negative one.
pub open spec fn decimal_signed(n: int) -> Seq<char> {
    if n < 0 {
        seq!['-'] + decimal((-n) as nat)
    } else {
        decimal(n as nat)
    }
}

/// A text filled with zeros on the left up to a width.
pub open spec fn zero_padded(s: Seq<char>, width: nat) -> Seq<char>
    decreases width - s.len(),
{
    if s.len() < width {
        zero_padded(seq!['0'] + s, width)
    } else {
        s
    }
}

/// A number in at least two decimal digits.
pub open spec fn two_digits(n: nat) -> Seq<char> {
    zero_padded(decimal(n), 2)
}

/// The character of a decimal digit.
fn digit_char(d: u8) -> (c: char)
    requires
        d < 10,
    ensures
        c == digit(d as int),
{
    (48 + d) as char
}

/// The decimal digits of a number.
pub fn decimal_text(n: u64) -> (r: String)
    ensures
        r@ == decimal(n as nat),
    decreases n,
{
    if n < 10 {
        let mut r = String::new();
        r.push(digit_char(n as u8));
        assert(r@ =~= seq![digit(n as int)]);
        r
    } else {
        let mut r = decimal_text(n / 10);
        r.push(digit_char((n % 10) as u8));
        r
    }
}

/// The decimal digits of an integer.
pub fn decimal_signed_text(n: i64) -> (r: String)
    requires
        n > i64::MIN,
    ensures
        r@ == decimal_signed(n as int),
{
    if n < 0 {
        let mut r = copy_text("-");
        proof {
            reveal_strlit("-");
            assert("-"@ =~= seq!['-']);
        }
        let digits = decimal_text((-n) as u64);
        r.append(digits.as_str());
        r
    } else {
        decimal_text(n as u64)
    }
}

/// A text filled with zeros on the left up to a width.
pub fn zero_padded_text(s: String, width: usize) -> (r: String)
    ensures
        r@ == zero_padded(s@, width as nat),
{
    let mut r = s;
    let chars = chars_of(r.as_str());
    if chars.len() >= width {
        return r;
    }
    let mut len: usize = chars.len();
    while len < width
        invariant
            r@.len() == len,
            len <= width,
            zero_padded(r@, width as nat) == zero_padded(s@, width as nat),
        decreases width - len,
    {
        let mut longer = copy_text("0");
        proof {
            reveal_strlit("0");
            assert("0"@ =~= seq!['0']);
        }
        longer.append(r.as_str());
        assert(longer@ =~= seq!['0'] + r@);
        r = longer;
        len = len + 1;
    }
    r
}

/// A number in at least two decimal digits.
pub fn two_digits_text(n: u64) -> (r: String)
    ensures
        r@ == two_digits(n as nat),
{
    zero_padded_text(decimal_text(n), 2)
}

// ---------------------------------------------------------------------------
// Reading
// ---------------------------------------------------------------------------

/// Whether a character is a decimal digit.
pub open spec fn is_digit(c: char) -> bool {
    '0' as int <= c as int <= '9' as int
}

/// Whether a text is made of decimal digits alone.
pub open spec fn all_digits(s: Seq<char>) -> bool {
    forall|i: int| 0 <= i < s.len() ==> is_digit(#[trigger] s[i])
}

/// The number that a run of decimal digits stands for.
pub open spec fn digits_value(s: Seq<char>) -> nat
    decreases s.len(),
{
    if s.len() == 0 {
        0
    } else {
        digits_value(s.drop_last()) * 10 + (s.last() as int - '0' as int) as nat
    }
}

/// A text without a plus sign at its start.
pub open spec fn without_plus(s: Seq<char>) -> Seq<char> {
    if s.len() > 0 && s[0] == '+' {
        s.skip(1)
    } else {
        s
    }
}

/// The unsigned number that a text states: one or more decimal digits, with at
/// most one plus sign before them, and no more than `max`.
pub open spec fn parse_unsigned(s: Seq<char>, max: nat) -> Option<nat> {
    let digits = without_plus(s);
    if digits.len() > 0 && all_digits(digits) && digits_value(digits) <= max {
        Some(digits_value(digits))
    } else {
        None
    }
}

/// More digits never make a smaller number.
proof fn lemma_digits_value_grows(s: Seq<char>, n: int)
    requires
        0 <= n <= s.len(),
        all_digits(s),
    ensures
        digits_value(s.take(n)) <= digits_value(s),
    decreases s.len() - n,
{
    if n == s.len() {
        assert(s.take(n) =~= s);
    } else {
        lemma_digits_value_grows(s, n + 1);
        assert(s.take(n + 1).drop_last() =~= s.take(n));
        assert(is_digit(s[n]));
    }
}

/// The unsigned number that a text states, if it is no more than `max`.
pub fn parse_unsigned_text(text: &str, max: u64) -> (r: Option<u64>)
    ensures
        match r {
            Some(n) => parse_unsigned(text@, max as nat) == Some(n as nat),
            None => parse_unsigned(text@, max as nat) is None,
        },
{
    let chars = chars_of(text);
    let start: usize = if chars.len() > 0 && chars[0] == '+' {
        1
    } else {
        0
    };
    let ghost digits = without_plus(text@);
    assert(digits =~= chars@.skip(start as int));
    if start == chars.len() {
        return None;
    }
    let mut value: u64 = 0;
    let mut i: usize = start;
    assert(digits.take(0) =~= Seq::<char>::empty());
    while i < chars.len()
        invariant
            chars@ == text@,
            start <= i <= chars@.len(),
            digits == without_plus(text@),
            digits == chars@.skip(start as int),
            all_digits(digits.take(i - start)),
            value == digits_value(digits.take(i - start)),
            value <= max,
        decreases chars@.len() - i,
    {
        let c: char = chars[i];
        assert(digits[i - start] == c);
        match digit_of(c) {
            Some(d) => {
                let wide: u128 = value as u128 * 10 + d as u128;
                let ghost longer = digits.take(i - start + 1);
                assert(longer.drop_last() =~= digits.take(i - start));
                assert(longer.last() == c);
                assert(wide == digits_value(longer));
                assert(all_digits(longer)) by {
                    assert forall|j: int| 0 <= j < longer.len() implies is_digit(
                        #[trigger] longer[j],
                    ) by {
                        if j < i - start {
                            assert(longer[j] == digits.take(i - start)[j]);
                        }
                    }
                }
                if wide > max as u128 {
                    proof {
                        if all_digits(digits) {
                            lemma_digits_value_grows(digits, i - start + 1);
                        }
                    }
                    return None;
                }
                value = wide as u64;
            },
            None => {
                assert(!all_digits(digits));
                return None;
            },
        }
        i = i + 1;
    }
    assert(digits.take(i - start) =~= digits);
    Some(value)
}

/// The value of a decimal digit.
fn digit_of(c: char) -> (r: Option<u8>)
    ensures
        match r {
            Some(d) => is_digit(c) && d == c as int - '0' as int,
            None => !is_digit(c),
        },
{
    let n: u32 = c as u32;
    if n >= 48 && n <= 57 {
        Some((n - 48) as u8)
    } else {
        None
    }
}

// ---------------------------------------------------------------------------
// Laws
// ---------------------------------------------------------------------------

/// Decimal digits are digits, and there is at least one.
pub proof fn lemma_decimal_digits(n: nat)
    ensures
        decimal(n).len() > 0,
        all_digits(decimal(n)),
        digits_value(decimal(n)) == n,
    decreases n,
{
    if n < 10 {
        let s = decimal(n);
        assert(s.drop_last() =~= Seq::<char>::empty());
        assert(s.last() == digit(n as int));
        assert(digits_value(s.drop_last()) == 0);
    } else {
        lemma_decimal_digits(n / 10);
        let s = decimal(n);
        assert(s.drop_last() =~= decimal(n / 10));
        assert forall|i: int| 0 <= i < s.len() implies is_digit(#[trigger] s[i]) by {
            if i < s.len() - 1 {
                assert(s[i] == decimal(n / 10)[i]);
            }
        }
    }
}

/// A number reads back from its decimal digits.
pub proof fn law_decimal_reads_back(n: nat, max: nat)
    requires
        n <= max,
    ensures
        parse_unsigned(decimal(n), max) == Some(n),
{
    lemma_decimal_digits(n);
    assert(is_digit(decimal(n)[0]));
}

/// Numbers are written as people write them: a digit is itself, a larger number is what
/// it is without its last digit, and that digit behind it. No zero stands before another
/// digit.
pub proof fn law_numbers_are_written_in_digits(n: nat, d: nat)
    requires
        d < 10,
    ensures
        decimal(d) == seq![('0' as int + d) as char],
        n > 0 ==> decimal((n * 10 + d) as nat) == decimal(n).push(('0' as int + d) as char),
        n > 0 ==> decimal(n)[0] != '0',
    decreases n,
{
    if n > 0 {
        let m = (n * 10 + d) as nat;
        assert(m / 10 == n && m % 10 == d);
        if n >= 10 {
            law_numbers_are_written_in_digits(n / 10, n % 10);
            assert(decimal(n)[0] == decimal(n / 10)[0]) by {
                lemma_decimal_digits(n / 10);
            }
        }
    }
}

/// A number with a sign is the number, with a minus before it where it is negative.
pub proof fn law_negative_numbers_have_a_minus(n: nat)
    ensures
        decimal_signed(n as int) == decimal(n),
        n > 0 ==> decimal_signed(-(n as int)) == seq!['-'] + decimal(n),
{
}

/// A text is filled with zeros in front until it is as long as it should be; one that is
/// long enough stays as it is.
pub proof fn law_zeros_fill_up(s: Seq<char>, width: nat)
    ensures
        s.len() >= width ==> zero_padded(s, width) == s,
        s.len() < width ==> ({
            let r = zero_padded(s, width);
            &&& r.len() == width
            &&& r.skip(width - s.len()) == s
            &&& forall|i: int| 0 <= i < width - s.len() ==> #[trigger] r[i] == '0'
        }),
    decreases width - s.len(),
{
    if s.len() < width {
        let t = seq!['0'] + s;
        law_zeros_fill_up(t, width);
        let r = zero_padded(s, width);
        if t.len() < width {
            let k = width - t.len();
            assert(r.skip(k)[0] == t[0]);
            assert(r[k] == '0');
            assert(r.skip(k + 1) =~= s) by {
                assert forall|i: int| 0 <= i < s.len() implies r.skip(k + 1)[i] == s[i] by {
                    assert(r.skip(k)[i + 1] == t[i + 1]);
                }
            }
        } else {
            assert(r == t);
            assert(r.skip(1) =~= s);
        }
    }
}

/// A number below a hundred in two digits is its tens and its units.
pub proof fn law_two_digits(n: nat)
    ensures
        n < 100 ==> two_digits(n) == seq![
            ('0' as int + n / 10) as char,
            ('0' as int + n % 10) as char,
        ],
        n >= 100 ==> two_digits(n) == decimal(n),
{
    if n < 10 {
        law_numbers_are_written_in_digits(0, n);
        assert(n / 10 == 0 && n % 10 == n);
        let s = decimal(n);
        law_zeros_fill_up(s, 2);
        let r = two_digits(n);
        assert(r.skip(1)[0] == s[0]);
        assert(r =~= seq![('0' as int + n / 10) as char, ('0' as int + n % 10) as char]);
    } else {
        law_numbers_are_written_in_digits(n / 10, n % 10);
        assert((n / 10) * 10 + n % 10 == n);
        lemma_decimal_digits(n / 10);
        law_zeros_fill_up(decimal(n), 2);
        if n < 100 {
            assert(n / 10 < 10);
            law_numbers_are_written_in_digits(0, n / 10);
            assert(two_digits(n) =~= seq![
                ('0' as int + n / 10) as char,
                ('0' as int + n % 10) as char,
            ]);
        }
    }
}

/// A number is read where a text is one or more digits, with a plus before them or not,
/// and the number is not too large; every other text is no number.
pub proof fn law_numbers_are_read(s: Seq<char>, n: nat, max: nat)
    ensures
        n <= max ==> parse_unsigned(seq!['+'] + decimal(n), max) == Some(n),
        n > max ==> parse_unsigned(decimal(n), max) is None,
        parse_unsigned(Seq::empty(), max) is None,
        (exists|i: int|
            0 <= i < s.len() && !('0' as int <= #[trigger] s[i] as int <= '9' as int) && !(i == 0
                && s[i] == '+')) ==> parse_unsigned(s, max) is None,
        parse_unsigned(s, max) matches Some(v) ==> v <= max,
{
    lemma_decimal_digits(n);
    let plus = seq!['+'] + decimal(n);
    assert(plus.skip(1) =~= decimal(n));
    assert(is_digit(decimal(n)[0]));
    if exists|i: int|
        0 <= i < s.len() && !('0' as int <= #[trigger] s[i] as int <= '9' as int) && !(i == 0
            && s[i] == '+') {
        let i = choose|i: int|
            0 <= i < s.len() && !('0' as int <= #[trigger] s[i] as int <= '9' as int) && !(i == 0
                && s[i] == '+');
        let digits = without_plus(s);
        if s[0] == '+' {
            assert(digits[i - 1] == s[i]);
            assert(!is_digit(digits[i - 1]));
        } else {
            assert(!is_digit(digits[i]));
        }
    }
}

/// Leading zeros do not count: what a run of digits stands for is what it stands for
/// without its last digit, ten times, and that digit.
pub proof fn law_digits_stand_for_a_number(s: Seq<char>, d: nat)
    requires
        d < 10,
    ensures
        digits_value(s.push(('0' as int + d) as char)) == digits_value(s) * 10 + d,
        digits_value(Seq::empty()) == 0,
{
    assert(s.push(('0' as int + d) as char).drop_last() =~= s);
}

} // verus!
