//! Decimal numbers as the chart format writes them.

use vstd::arithmetic::power2::*;
use vstd::prelude::*;

use crate::text::slice_chars;

verus! {

/// Whether `c` is one of the ten ASCII digits.
pub open spec fn is_digit(c: char) -> bool {
    0x30 <= c as u32 <= 0x39
}

/// The number that a digit stands for.
pub open spec fn digit_value(c: char) -> nat {
    (c as u32 - 0x30) as nat
}

/// Whether `s` holds digits only.
pub open spec fn all_digits(s: Seq<char>) -> bool {
    forall|i: int| 0 <= i < s.len() ==> is_digit(#[trigger] s[i])
}

/// The number that a string of decimal digits denotes.
pub open spec fn decimal(s: Seq<char>) -> nat
    decreases s.len(),
{
    if s.len() == 0 {
        0
    } else {
        decimal(s.drop_last()) * 10 + digit_value(s.last())
    }
}

/// `s` without one leading `+`.
pub open spec fn unsigned_digits(s: Seq<char>) -> Seq<char> {
    if s.len() > 0 && s[0] == '+' {
        s.skip(1)
    } else {
        s
    }
}

/// The value of an unsigned decimal literal: an optional `+`, then one or
/// more digits, denoting a number of at most `max`. `None` for anything else.
pub open spec fn unsigned(s: Seq<char>, max: nat) -> Option<nat> {
    let d = unsigned_digits(s);
    if d.len() > 0 && all_digits(d) && decimal(d) <= max {
        Some(decimal(d))
    } else {
        None
    }
}

/// A prefix of a digit string never denotes more than the whole string.
pub proof fn lemma_decimal_prefix(s: Seq<char>, k: int)
    requires
        0 <= k <= s.len(),
    ensures
        decimal(s.take(k)) <= decimal(s),
    decreases s.len() - k,
{
    if k == s.len() {
        assert(s.take(k) =~= s);
    } else {
        lemma_decimal_prefix(s, k + 1);
        assert(s.take(k + 1).drop_last() =~= s.take(k));
    }
}

/// The number that `c` stands for, if it is a digit.
pub fn digit_of(c: char) -> (d: Option<u8>)
    ensures
        d is Some == is_digit(c),
        d is Some ==> d->0 == digit_value(c),
{
    let u = c as u32;
    if 0x30 <= u && u <= 0x39 {
        Some((u - 0x30) as u8)
    } else {
        None
    }
}

/// Reads an unsigned decimal literal of at most `max`.
pub fn parse_unsigned(s: &Vec<char>, max: u64) -> (out: Option<u64>)
    ensures
        out is Some == unsigned(s@, max as nat) is Some,
        out is Some ==> out->0 == unsigned(s@, max as nat)->0,
{
    let start: usize = if s.len() > 0 && s[0] == '+' {
        1
    } else {
        0
    };
    let ghost d = unsigned_digits(s@);
    if start == s.len() {
        return None;
    }
    let mut value: u64 = 0;
    let mut i: usize = start;
    while i < s.len()
        invariant
            start <= i <= s.len(),
            d == s@.skip(start as int),
            d == unsigned_digits(s@),
            all_digits(d.take(i - start)),
            value == decimal(d.take(i - start)),
            value <= max,
        decreases s.len() - i,
    {
        let ghost prefix = d.take(i - start + 1);
        assert(prefix.drop_last() =~= d.take(i - start));
        match digit_of(s[i]) {
            None => {
                assert(!is_digit(d[i - start]));
                return None;
            },
            Some(digit) => {
                let next: u128 = value as u128 * 10 + digit as u128;
                if next > max as u128 {
                    proof {
                        if all_digits(d) {
                            lemma_decimal_prefix(d, i - start + 1);
                        }
                    }
                    return None;
                }
                value = next as u64;
            },
        }
        i += 1;
    }
    assert(d.take(i - start) =~= d);
    Some(value)
}

/// Reads an unsigned decimal literal that fits a `usize`.
pub fn parse_usize(s: &Vec<char>) -> (out: Option<usize>)
    ensures
        out is Some == unsigned(s@, usize::MAX as nat) is Some,
        out is Some ==> out->0 == unsigned(s@, usize::MAX as nat)->0,
{
    match parse_unsigned(s, usize::MAX as u64) {
        Some(v) => Some(v as usize),
        None => None,
    }
}

/// Reads an unsigned decimal literal that fits a `u32`.
pub fn parse_u32(s: &Vec<char>) -> (out: Option<u32>)
    ensures
        out is Some == unsigned(s@, u32::MAX as nat) is Some,
        out is Some ==> out->0 == unsigned(s@, u32::MAX as nat)->0,
{
    match parse_unsigned(s, u32::MAX as u64) {
        Some(v) => Some(v as u32),
        None => None,
    }
}

/// Reads an unsigned decimal literal that fits a `u8`.
pub fn parse_u8(s: &Vec<char>) -> (out: Option<u8>)
    ensures
        out is Some == unsigned(s@, u8::MAX as nat) is Some,
        out is Some ==> out->0 == unsigned(s@, u8::MAX as nat)->0,
{
    match parse_unsigned(s, u8::MAX as u64) {
        Some(v) => Some(v as u8),
        None => None,
    }
}

/// Two to the power `exponent`, when that fits a `usize`.
pub fn power_of_two(exponent: u32) -> (out: Option<usize>)
    ensures
        out is Some == (pow2(exponent as nat) <= usize::MAX),
        out is Some ==> out->0 == pow2(exponent as nat),
{
    let mut value: usize = 1;
    let mut k: u32 = 0;
    proof {
        lemma2_to64();
    }
    while k < exponent
        invariant
            k <= exponent,
            value == pow2(k as nat),
        decreases exponent - k,
    {
        proof {
            lemma_pow2_unfold((k + 1) as nat);
        }
        match value.checked_mul(2) {
            Some(doubled) => {
                value = doubled;
            },
            None => {
                proof {
                    if k + 1 < exponent {
                        lemma_pow2_strictly_increases((k + 1) as nat, exponent as nat);
                    }
                }
                return None;
            },
        }
        k += 1;
    }
    Some(value)
}

/// First index at or after `i` that holds no digit, or the length.
pub open spec fn digits_end(s: Seq<char>, i: int) -> int
    decreases s.len() - i,
{
    if 0 <= i < s.len() && is_digit(s[i]) {
        digits_end(s, i + 1)
    } else {
        i
    }
}

/// Whether `c` is the lower-case ASCII letter `letter` or its upper-case form.
pub open spec fn same_letter(c: char, letter: char) -> bool {
    c == letter || c as u32 + 0x20 == letter as u32
}

/// Whether `s` spells the lower-case ASCII word `word`, in any mix of cases.
pub open spec fn spells(s: Seq<char>, word: Seq<char>) -> bool {
    s.len() == word.len() && forall|i: int|
        0 <= i < s.len() ==> same_letter(#[trigger] s[i], word[i])
}

/// Digits with an optional fraction and an optional exponent: at least one
/// digit before or after the point, and at least one in the exponent.
pub open spec fn real_number(s: Seq<char>) -> bool {
    let whole = digits_end(s, 0);
    let point = whole < s.len() && s[whole] == '.';
    let mantissa = if point {
        digits_end(s, whole + 1)
    } else {
        whole
    };
    let digits = if point {
        mantissa - 1
    } else {
        mantissa
    };
    digits > 0 && (mantissa == s.len() || {
        let signed = mantissa + 1 < s.len() && (s[mantissa + 1] == '+' || s[mantissa + 1] == '-');
        let exponent = if signed {
            mantissa + 2
        } else {
            mantissa + 1
        };
        &&& mantissa < s.len()
        &&& same_letter(s[mantissa], 'e')
        &&& exponent < s.len()
        &&& digits_end(s, exponent) == s.len()
    })
}

/// `s` without one leading sign.
pub open spec fn unsigned_real(s: Seq<char>) -> Seq<char> {
    if s.len() > 0 && (s[0] == '+' || s[0] == '-') {
        s.skip(1)
    } else {
        s
    }
}

/// The literals that denote a real number: an optional sign, then `inf`,
/// `infinity` or `nan` in any case, or a decimal number.
pub open spec fn real_literal(s: Seq<char>) -> bool {
    let body = unsigned_real(s);
    real_number(body) || spells(body, "inf"@) || spells(body, "infinity"@) || spells(body, "nan"@)
}

/// Where the digits that begin at `from` end.
pub(crate) fn scan_digits(s: &Vec<char>, from: usize) -> (end: usize)
    requires
        from <= s.len(),
    ensures
        end == digits_end(s@, from as int),
        from <= end <= s.len(),
{
    let mut i: usize = from;
    while i < s.len() && digit_of(s[i]).is_some()
        invariant
            from <= i <= s.len(),
            digits_end(s@, i as int) == digits_end(s@, from as int),
        decreases s.len() - i,
    {
        i += 1;
    }
    i
}

/// Whether `c` is the lower-case ASCII letter `letter` in either case.
pub fn is_letter(c: char, letter: char) -> (b: bool)
    ensures
        b == same_letter(c, letter),
{
    let have = c as u32;
    let want = letter as u32;
    c == letter || (want >= 0x20 && have == want - 0x20)
}

/// Whether `s` spells the lower-case ASCII word `word` in any mix of cases.
pub fn is_word(s: &Vec<char>, word: &str) -> (b: bool)
    ensures
        b == spells(s@, word@),
{
    let mut n: usize = 0;
    for c in it: word.chars()
        invariant
            it.seq() == word@,
            n == it.index(),
            n <= s.len(),
            forall|i: int| 0 <= i < n ==> same_letter(#[trigger] s@[i], word@[i]),
    {
        if n >= s.len() {
            return false;
        }
        let have = s[n];
        if !is_letter(have, c) {
            return false;
        }
        n += 1;
    }
    n == s.len()
}

/// Whether `s` is a decimal number with an optional fraction and exponent.
pub fn is_real_number(s: &Vec<char>) -> (b: bool)
    ensures
        b == real_number(s@),
{
    let whole = scan_digits(s, 0);
    let point = whole < s.len() && s[whole] == '.';
    let mantissa = if point {
        scan_digits(s, whole + 1)
    } else {
        whole
    };
    let digits = if point {
        mantissa - 1
    } else {
        mantissa
    };
    if digits == 0 {
        return false;
    }
    if mantissa == s.len() {
        return true;
    }
    let mark = s[mantissa];
    if !is_letter(mark, 'e') {
        return false;
    }
    let signed = mantissa + 1 < s.len() && (s[mantissa + 1] == '+' || s[mantissa + 1] == '-');
    let exponent = if signed {
        mantissa + 2
    } else {
        mantissa + 1
    };
    exponent < s.len() && scan_digits(s, exponent) == s.len()
}

/// Whether `s` is a literal for a real number.
pub fn is_real(s: &Vec<char>) -> (b: bool)
    ensures
        b == real_literal(s@),
{
    let signed = s.len() > 0 && (s[0] == '+' || s[0] == '-');
    let body = if signed {
        slice_chars(s, 1, s.len())
    } else {
        slice_chars(s, 0, s.len())
    };
    assert(body@ =~= unsigned_real(s@));
    is_real_number(&body) || is_word(&body, "inf") || is_word(&body, "infinity") || is_word(
        &body,
        "nan",
    )
}

} // verus!
