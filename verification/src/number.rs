//! Decimal numerals: reading an index from text and writing one out.

use vstd::prelude::*;
use crate::text::chars_of;

verus! {

/// The ASCII decimal digits.
pub open spec fn digit(c: char) -> bool {
    0x30 <= c as u32 <= 0x39
}

/// The number a decimal digit stands for.
pub open spec fn digit_value(c: char) -> nat {
    if digit(c) {
        (c as u32 - 0x30) as nat
    } else {
        0
    }
}

/// The digit that stands for `d`, for `d` below ten.
pub open spec fn digit_char(d: nat) -> char {
    (0x30 + d) as u8 as char
}

/// A non-empty run of decimal digits.
pub open spec fn numeral(s: Seq<char>) -> bool {
    s.len() > 0 && forall|i: int| 0 <= i < s.len() ==> digit(#[trigger] s[i])
}

/// The number that a run of decimal digits denotes, most significant digit
/// first.
pub open spec fn numeral_value(s: Seq<char>) -> nat
    decreases s.len(),
{
    if s.len() == 0 {
        0
    } else {
        10 * numeral_value(s.drop_last()) + digit_value(s.last())
    }
}

/// `s` without a leading plus sign, if it has one.
pub open spec fn unsigned(s: Seq<char>) -> Seq<char> {
    if s.len() > 0 && s[0] == '+' {
        s.skip(1)
    } else {
        s
    }
}

/// The index that `s` denotes: an optional `+` followed by at least one
/// decimal digit and nothing else, with a value that fits in `usize`.
pub open spec fn parsed_index(s: Seq<char>) -> Option<usize> {
    let digits = unsigned(s);
    if numeral(digits) && numeral_value(digits) <= usize::MAX {
        Some(numeral_value(digits) as usize)
    } else {
        None
    }
}

/// The decimal numeral of `n`, without sign or leading zeros.
pub open spec fn decimal(n: nat) -> Seq<char>
    decreases n,
{
    if n < 10 {
        seq![digit_char(n)]
    } else {
        decimal(n / 10).push(digit_char(n % 10))
    }
}

/// A numeral denotes at least as much as any of its prefixes.
pub proof fn lemma_numeral_value_prefix(s: Seq<char>, k: int)
    requires
        0 <= k <= s.len(),
    ensures
        numeral_value(s.take(k)) <= numeral_value(s),
    decreases s.len() - k,
{
    if k == s.len() {
        assert(s.take(k) == s);
    } else {
        lemma_numeral_value_prefix(s, k + 1);
        assert(s.take(k + 1).drop_last() == s.take(k));
    }
}

/// The decimal numeral of a number is a run of digits that denotes it.
pub proof fn lemma_decimal_is_numeral(n: nat)
    ensures
        numeral(decimal(n)),
        numeral_value(decimal(n)) == n,
    decreases n,
{
    if n < 10 {
        let s = decimal(n);
        assert(numeral_value(s.drop_last()) == 0);
    } else {
        lemma_decimal_is_numeral(n / 10);
        let s = decimal(n);
        assert(s.drop_last() == decimal(n / 10));
    }
}

/// Reading the decimal numeral of an index gives the index back.
pub proof fn lemma_decimal_parses_back(n: usize)
    ensures
        parsed_index(decimal(n as nat)) == Some(n),
{
    lemma_decimal_is_numeral(n as nat);
}

/// A text that holds anything but digits behind an optional leading plus
/// sign is no index.
pub proof fn lemma_non_digit_is_no_index(text: Seq<char>, i: int)
    requires
        0 <= i < text.len(),
        !digit(text[i]),
        i > 0 || text[0] != '+',
    ensures
        parsed_index(text) is None,
{
    let digits = unsigned(text);
    if text[0] == '+' {
        assert(!digit(digits[i - 1]));
    } else {
        assert(!digit(digits[i]));
    }
}

/// Tells whether `c` is an ASCII decimal digit.
pub fn is_digit(c: char) -> (b: bool)
    ensures
        b == digit(c),
{
    let n: u32 = c as u32;
    0x30 <= n && n <= 0x39
}

/// Reads `text` as an index.
///
/// The text is an optional `+` and then decimal digits only; anything else,
/// the empty text and a value beyond `usize::MAX` give `None`.
pub fn parse_index(text: &str) -> (index: Option<usize>)
    ensures
        index == parsed_index(text@),
{
    let chars = chars_of(text);
    let start: usize = if chars.len() > 0 && chars[0] == '+' {
        1
    } else {
        0
    };
    if start == chars.len() {
        return None;
    }
    let ghost digits = unsigned(text@);
    let mut value: usize = 0;
    let mut i: usize = start;
    while i < chars.len()
        invariant
            chars@ == text@,
            digits == unsigned(text@),
            digits == text@.skip(start as int),
            start <= i <= chars.len(),
            forall|j: int| 0 <= j < i - start ==> digit(#[trigger] digits[j]),
            value == numeral_value(digits.take(i - start)),
        decreases chars.len() - i,
    {
        let c = chars[i];
        assert(digits[i - start] == c);
        if !is_digit(c) {
            return None;
        }
        let d: usize = (c as u32 - 0x30) as usize;
        proof {
            let next = digits.take(i - start + 1);
            assert(next.drop_last() == digits.take(i - start));
            lemma_numeral_value_prefix(digits, i - start + 1);
        }
        match value.checked_mul(10) {
            None => {
                return None;
            },
            Some(tens) => match tens.checked_add(d) {
                None => {
                    return None;
                },
                Some(sum) => {
                    value = sum;
                },
            },
        }
        i += 1;
    }
    assert(digits.take(i - start) == digits);
    Some(value)
}

/// Writes `n` as a decimal numeral.
pub fn decimal_string(n: usize) -> (text: String)
    ensures
        text@ == decimal(n as nat),
{
    // Digits come out least significant first.
    let mut digits: Vec<char> = Vec::new();
    let mut m: usize = n;
    while m >= 10
        invariant
            decimal(n as nat) == decimal(m as nat) + digits@.reverse(),
        decreases m,
    {
        let d: u8 = (m % 10) as u8;
        let c: char = (0x30u8 + d) as char;
        assert(decimal(m as nat) == decimal((m / 10) as nat).push(c));
        assert(digits@.push(c).reverse() == seq![c] + digits@.reverse());
        digits.push(c);
        m = m / 10;
    }
    let last: char = (0x30u8 + (m as u8)) as char;
    assert(digits@.push(last).reverse() == seq![last] + digits@.reverse());
    digits.push(last);
    let mut text = String::new();
    let mut k: usize = digits.len();
    while k > 0
        invariant
            k <= digits.len(),
            text@ == digits@.reverse().take(digits.len() - k),
        decreases k,
    {
        k -= 1;
        text.push(digits[k]);
    }
    text
}

} // verus!
