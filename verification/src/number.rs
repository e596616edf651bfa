//! Unsigned numerals as the kernel's attribute files hold them.
use crate::error::Error;
use crate::text::to_chars;
use vstd::prelude::*;

verus! {

/// Whether `c` is a decimal digit.
pub open spec fn is_digit(c: char) -> bool {
    '0' <= c <= '9'
}

/// How many digits `s` opens with.
pub open spec fn leading_digits(s: Seq<char>) -> nat
    decreases s.len(),
{
    if s.len() == 0 || !is_digit(s[0]) {
        0
    } else {
        1 + leading_digits(s.skip(1))
    }
}

/// The number that a run of digits denotes.
pub open spec fn value(digits: Seq<char>) -> nat
    decreases digits.len(),
{
    if digits.len() == 0 {
        0
    } else {
        value(digits.drop_last()) * 10 + (digits.last() as nat - 48) as nat
    }
}

/// `s` without the one plus sign that may stand before its digits.
pub open spec fn without_plus(s: Seq<char>) -> Seq<char> {
    if s.len() > 1 && s[0] == '+' {
        s.skip(1)
    } else {
        s
    }
}

/// The 32-bit number that `s` denotes: digits, after an optional plus sign. Of
/// two faults, the one that stands further left counts.
pub open spec fn number(s: Seq<char>) -> Result<u32, Error> {
    let body = without_plus(s);
    let digits = body.take(leading_digits(body) as int);
    if s.len() == 0 {
        Err(Error::EmptyNumber)
    } else if value(digits) > u32::MAX {
        Err(Error::NumberTooLarge)
    } else if digits.len() < body.len() {
        Err(Error::InvalidDigit)
    } else {
        Ok(value(digits) as u32)
    }
}

pub proof fn lemma_leading_digits(s: Seq<char>)
    ensures
        leading_digits(s) <= s.len(),
        forall|i: int| 0 <= i < leading_digits(s) ==> is_digit(#[trigger] s[i]),
        leading_digits(s) < s.len() ==> !is_digit(s[leading_digits(s) as int]),
    decreases s.len(),
{
    if s.len() > 0 && is_digit(s[0]) {
        lemma_leading_digits(s.skip(1));
        assert forall|i: int| 0 <= i < leading_digits(s) implies is_digit(#[trigger] s[i]) by {
            if i > 0 {
                assert(s.skip(1)[i - 1] == s[i]);
            }
        }
    }
}

pub proof fn lemma_leading_digits_are(s: Seq<char>, n: int)
    requires
        0 <= n <= s.len(),
        forall|i: int| 0 <= i < n ==> is_digit(#[trigger] s[i]),
        n == s.len() || !is_digit(s[n]),
    ensures
        leading_digits(s) == n,
{
    lemma_leading_digits(s);
}

proof fn lemma_value_grows(digits: Seq<char>, n: int)
    requires
        0 <= n <= digits.len(),
    ensures
        value(digits.take(n)) <= value(digits),
    decreases digits.len() - n,
{
    if n < digits.len() {
        lemma_value_grows(digits, n + 1);
        assert(digits.take(n + 1).drop_last() =~= digits.take(n));
    } else {
        assert(digits.take(n) =~= digits);
    }
}

/// Read an unsigned 32-bit numeral.
pub fn parse_number(s: &str) -> (result: Result<u32, Error>)
    ensures
        result == number(s@),
{
    let chars = to_chars(s);
    if chars.len() == 0 {
        return Err(Error::EmptyNumber);
    }
    let start: usize = if chars.len() > 1 && chars[0] == '+' { 1 } else { 0 };
    let ghost body = without_plus(s@);
    let mut n: u32 = 0;
    let mut i: usize = start;
    proof {
        assert(body =~= chars@.skip(start as int));
        assert(body.take(0) =~= seq![]);
    }
    while i < chars.len() && '0' <= chars[i] && chars[i] <= '9'
        invariant
            start <= i <= chars@.len(),
            chars@ == s@,
            s@.len() > 0,
            body == without_plus(s@),
            body =~= chars@.skip(start as int),
            forall|k: int| 0 <= k < i - start ==> is_digit(#[trigger] body[k]),
            n == value(body.take(i - start)),
        decreases chars@.len() - i,
    {
        let d: u32 = chars[i] as u32 - 48;
        proof {
            assert(body.take(i - start + 1).drop_last() =~= body.take(i - start));
            assert(body.take(i - start + 1).last() == chars@[i as int]);
        }
        let next: u64 = n as u64 * 10 + d as u64;
        if next > u32::MAX as u64 {
            proof {
                lemma_leading_digits(body);
                let digits = body.take(leading_digits(body) as int);
                assert(i - start + 1 <= leading_digits(body)) by {
                    if leading_digits(body) < i - start + 1 {
                        assert(is_digit(body[leading_digits(body) as int]));
                    }
                }
                lemma_value_grows(digits, i - start + 1);
                assert(digits.take(i - start + 1) =~= body.take(i - start + 1));
            }
            return Err(Error::NumberTooLarge);
        }
        n = next as u32;
        i = i + 1;
    }
    proof {
        lemma_leading_digits_are(body, i - start);
    }
    if i < chars.len() {
        return Err(Error::InvalidDigit);
    }
    Ok(n)
}

} // verus!
