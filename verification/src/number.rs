//! Integers as text: the decimal and hexadecimal notations that the target's
//! values are exchanged in, with their parsers and printers.

use vstd::prelude::*;

verus! {

/// The value of `c` as a digit in the given radix, if it is one.
pub open spec fn digit_of(c: char, radix: int) -> Option<int> {
    if '0' <= c <= '9' && (c as int) - ('0' as int) < radix {
        Some((c as int) - ('0' as int))
    } else if 'a' <= c <= 'f' && (c as int) - ('a' as int) + 10 < radix {
        Some((c as int) - ('a' as int) + 10)
    } else if 'A' <= c <= 'F' && (c as int) - ('A' as int) + 10 < radix {
        Some((c as int) - ('A' as int) + 10)
    } else {
        None
    }
}

/// Every character of `s` is a digit in the given radix.
pub open spec fn all_digits(s: Seq<char>, radix: int) -> bool {
    forall|i: int| 0 <= i < s.len() ==> (#[trigger] digit_of(s[i], radix)) is Some
}

/// The number that the digits of `s` denote, most significant digit first.
pub open spec fn digits_value(s: Seq<char>, radix: int) -> int
    decreases s.len(),
{
    if s.len() == 0 {
        0
    } else {
        digits_value(s.drop_last(), radix) * radix + digit_of(s.last(), radix).unwrap_or(0)
    }
}

/// The number denoted by a non-empty run of digits; `None` for anything else.
pub open spec fn unsigned_value(s: Seq<char>, radix: int) -> Option<int> {
    if s.len() > 0 && all_digits(s, radix) {
        Some(digits_value(s, radix))
    } else {
        None
    }
}

/// The integer that a text denotes in the given radix: digits, after an
/// optional `+`, or after a `-` where `signed` allows one.
pub open spec fn integer_value(s: Seq<char>, radix: int, signed: bool) -> Option<int> {
    if s.len() > 0 && s[0] == '+' {
        unsigned_value(s.drop_first(), radix)
    } else if signed && s.len() > 0 && s[0] == '-' {
        match unsigned_value(s.drop_first(), radix) {
            Some(v) => Some(-v),
            None => None,
        }
    } else {
        unsigned_value(s, radix)
    }
}

/// `integer_value`, kept only where it lies within `min..=max`.
pub open spec fn integer_value_within(
    s: Seq<char>,
    radix: int,
    signed: bool,
    min: int,
    max: int,
) -> Option<int> {
    match integer_value(s, radix, signed) {
        Some(v) if min <= v <= max => Some(v),
        _ => None,
    }
}

/// The integer that a decimal text denotes.
pub open spec fn decimal_value(s: Seq<char>, signed: bool) -> Option<int> {
    integer_value(s, 10, signed)
}

/// `decimal_value`, kept only where it lies within `min..=max`.
pub open spec fn decimal_value_within(s: Seq<char>, signed: bool, min: int, max: int) -> Option<
    int,
> {
    integer_value_within(s, 10, signed, min, max)
}

/// The character that writes the digit `d`.
pub open spec fn digit_char(d: int) -> char {
    (('0' as int) + d) as char
}

/// The decimal digits of `n`, without leading zeros.
pub open spec fn decimal_digits(n: nat) -> Seq<char>
    decreases n,
{
    if n < 10 {
        seq![digit_char(n as int)]
    } else {
        decimal_digits(n / 10).push(digit_char((n % 10) as int))
    }
}

/// The canonical decimal text of `v`: a `-` for negative numbers, no `+`,
/// no leading zeros.
pub open spec fn decimal_text(v: int) -> Seq<char> {
    if v < 0 {
        seq!['-'] + decimal_digits((-v) as nat)
    } else {
        decimal_digits(v as nat)
    }
}

/// A run of digits is worth at least as much as any of its prefixes.
pub proof fn lemma_digits_value_grows(s: Seq<char>, radix: int, k: int)
    requires
        2 <= radix <= 16,
        0 <= k <= s.len(),
    ensures
        0 <= digits_value(s.take(k), radix) <= digits_value(s, radix),
    decreases s.len() - k,
{
    lemma_digits_value_nonnegative(s.take(k), radix);
    if k == s.len() {
        assert(s.take(k) == s);
    } else {
        lemma_digits_value_grows(s, radix, k + 1);
        let t = s.take(k + 1);
        assert(t.drop_last() == s.take(k));
        let low = digits_value(s.take(k), radix);
        assert(low * radix >= low) by (nonlinear_arith)
            requires
                low >= 0,
                radix >= 2,
        ;
    }
}

/// A run of digits denotes no negative number.
pub proof fn lemma_digits_value_nonnegative(s: Seq<char>, radix: int)
    requires
        2 <= radix <= 16,
    ensures
        0 <= digits_value(s, radix),
    decreases s.len(),
{
    if s.len() > 0 {
        lemma_digits_value_nonnegative(s.drop_last(), radix);
        let low = digits_value(s.drop_last(), radix);
        assert(low * radix >= 0) by (nonlinear_arith)
            requires
                low >= 0,
                radix >= 2,
        ;
    }
}

/// The decimal digits of `n` are digits, at least one, and denote `n`.
pub proof fn lemma_decimal_digits_denote(n: nat)
    ensures
        decimal_digits(n).len() > 0,
        all_digits(decimal_digits(n), 10),
        digits_value(decimal_digits(n), 10) == n,
        digit_of(decimal_digits(n)[0], 10) is Some,
    decreases n,
{
    if n < 10 {
        let s = decimal_digits(n);
        assert(digits_value(s.drop_last(), 10) == 0);
    } else {
        lemma_decimal_digits_denote(n / 10);
        let head = decimal_digits(n / 10);
        let s = decimal_digits(n);
        assert(s.drop_last() == head);
    }
}

/// Reading back the canonical decimal text of a number gives that number.
/// A negative number needs a reader that accepts a sign.
pub proof fn lemma_decimal_round_trip(v: int, signed: bool)
    requires
        v >= 0 || signed,
    ensures
        decimal_value(decimal_text(v), signed) == Some(v),
{
    if v < 0 {
        let digits = decimal_digits((-v) as nat);
        lemma_decimal_digits_denote((-v) as nat);
        let s = decimal_text(v);
        assert(s.drop_first() == digits);
    } else {
        lemma_decimal_digits_denote(v as nat);
    }
}

/// The value of `c` as a digit in the given radix.
pub fn digit(c: char, radix: u32) -> (r: Option<u32>)
    requires
        2 <= radix <= 16,
    ensures
        match r {
            Some(d) => digit_of(c, radix as int) == Some(d as int),
            None => digit_of(c, radix as int) is None,
        },
{
    let code: u32 = c as u32;
    let d: u32 = if '0' <= c && c <= '9' {
        code - 48
    } else if 'a' <= c && c <= 'f' {
        code - 97 + 10
    } else if 'A' <= c && c <= 'F' {
        code - 65 + 10
    } else {
        return None;
    };
    if d < radix {
        Some(d)
    } else {
        None
    }
}

/// Reads the digits of `s` from position `from` to its end as one number,
/// provided there is at least one, all are digits, and the number does not
/// exceed `cap`.
pub fn read_digits(s: &Vec<char>, from: usize, radix: u32, cap: u128) -> (r: Option<u128>)
    requires
        from <= s.len(),
        2 <= radix <= 16,
    ensures
        r == match unsigned_value(s@.subrange(from as int, s.len() as int), radix as int) {
            Some(v) if v <= cap => Some(v as u128),
            _ => None::<u128>,
        },
{
    let ghost t = s@.subrange(from as int, s.len() as int);
    if from == s.len() {
        return None;
    }
    let mut acc: u128 = 0;
    let mut i: usize = from;
    while i < s.len()
        invariant
            from <= i <= s.len(),
            2 <= radix <= 16,
            t == s@.subrange(from as int, s.len() as int),
            all_digits(t.take(i - from), radix as int),
            acc == digits_value(t.take(i - from), radix as int),
            acc <= cap,
        decreases s.len() - i,
    {
        let ghost head = t.take(i - from);
        let ghost next = t.take(i - from + 1);
        proof {
            assert(next.drop_last() == head);
            if all_digits(t, radix as int) {
                lemma_digits_value_grows(t, radix as int, i - from + 1);
            }
        }
        let d: u32 = match digit(s[i], radix) {
            Some(d) => d,
            None => {
                return None;
            },
        };
        let grown: u128 = match acc.checked_mul(radix as u128) {
            Some(shifted) => match shifted.checked_add(d as u128) {
                Some(grown) => grown,
                None => {
                    return None;
                },
            },
            None => {
                return None;
            },
        };
        if grown > cap {
            return None;
        }
        acc = grown;
        i = i + 1;
    }
    assert(t.take(i - from) == t);
    Some(acc)
}

/// Reads an integer in the given radix: digits after an optional `+`, or
/// after a `-` where `signed` is set. The text is rejected when it is
/// anything else or when the number lies outside `min..=max`.
pub fn parse_integer(s: &Vec<char>, radix: u32, signed: bool, min: i128, max: i128) -> (r: Option<
    i128,
>)
    requires
        2 <= radix <= 16,
        min <= 0 <= max,
    ensures
        r == match integer_value_within(s@, radix as int, signed, min as int, max as int) {
            Some(v) => Some(v as i128),
            None => None::<i128>,
        },
{
    let negative: bool = signed && s.len() > 0 && s[0] == '-';
    let from: usize = if s.len() > 0 && (s[0] == '+' || negative) {
        1
    } else {
        0
    };
    let ghost digits = s@.subrange(from as int, s.len() as int);
    proof {
        if from == 0 {
            assert(digits == s@);
        }
        lemma_digits_value_nonnegative(digits, radix as int);
    }
    let cap: u128 = if !negative {
        max as u128
    } else if min == i128::MIN {
        0x8000_0000_0000_0000_0000_0000_0000_0000u128
    } else {
        (-min) as u128
    };
    match read_digits(s, from, radix, cap) {
        Some(v) => {
            if !negative {
                Some(v as i128)
            } else if v == 0x8000_0000_0000_0000_0000_0000_0000_0000u128 {
                Some(i128::MIN)
            } else {
                Some(-(v as i128))
            }
        },
        None => None,
    }
}

/// Reads a decimal integer within `min..=max`.
pub fn parse_decimal(s: &Vec<char>, signed: bool, min: i128, max: i128) -> (r: Option<i128>)
    requires
        min <= 0 <= max,
    ensures
        r == match decimal_value_within(s@, signed, min as int, max as int) {
            Some(v) => Some(v as i128),
            None => None::<i128>,
        },
{
    parse_integer(s, 10, signed, min, max)
}

/// Reads a hexadecimal number of at most 64 bits: digits in either case,
/// after an optional `+`.
pub fn parse_hex(s: &Vec<char>) -> (r: Option<u64>)
    ensures
        r == match integer_value_within(s@, 16, false, 0, u64::MAX as int) {
            Some(v) => Some(v as u64),
            None => None::<u64>,
        },
{
    match parse_integer(s, 16, false, 0, 0xffff_ffff_ffff_ffff) {
        Some(v) => Some(v as u64),
        None => None,
    }
}

/// Writes `v` in canonical decimal notation.
pub fn format_decimal(v: i128) -> (r: Vec<char>)
    ensures
        r@ == decimal_text(v as int),
{
    let magnitude: u128 = if v == i128::MIN {
        0x8000_0000_0000_0000_0000_0000_0000_0000u128
    } else if v < 0 {
        (-v) as u128
    } else {
        v as u128
    };
    let mut low_first: Vec<char> = Vec::new();
    let mut n: u128 = magnitude;
    loop
        invariant_except_break
            decimal_digits(magnitude as nat) == decimal_digits(n as nat) + low_first@.reverse(),
        ensures
            decimal_digits(magnitude as nat) == low_first@.reverse(),
        decreases n,
    {
        let d: u8 = (n % 10) as u8;
        let c: char = (48u8 + d) as char;
        low_first.push(c);
        if n < 10 {
            break;
        }
        n = n / 10;
    }
    let mut r: Vec<char> = Vec::new();
    if v < 0 {
        r.push('-');
    }
    let ghost sign = r@;
    let mut i: usize = low_first.len();
    while i > 0
        invariant
            i <= low_first.len(),
            r@ == sign + low_first@.reverse().take(low_first.len() - i),
        decreases i,
    {
        i = i - 1;
        r.push(low_first[i]);
    }
    r
}

} // verus!
