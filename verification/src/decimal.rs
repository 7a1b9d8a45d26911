//! Decimal formatting of unsigned integers into a buffer of fixed size.
//!
//! The model is the numeral of a number: `decimal_digits` builds it, and
//! `is_numeral` with `numeral_value` says what it is without building it. The
//! lemmas below show that the two agree, so that `format` can promise either.

use vstd::prelude::*;
use vstd::slice::slice_subrange;

verus! {

/// The number of digits that the largest 32-bit value takes, and so the
/// size of the buffer that `format` fills.
pub const MAX_DIGITS: usize = 10;

/// The ASCII code of the digit `0`.
pub const ASCII_ZERO: u8 = 48;

/// The ASCII digit for `d`, which is below ten.
pub open spec fn digit_byte(d: nat) -> u8 {
    (ASCII_ZERO + d) as u8
}

/// Whether `b` is an ASCII digit.
pub open spec fn is_digit(b: u8) -> bool {
    ASCII_ZERO <= b <= ASCII_ZERO + 9
}

/// The decimal representation of `n`: its digits in ASCII, the most
/// significant first, without leading zeros; zero is the single digit `0`.
pub open spec fn decimal_digits(n: nat) -> Seq<u8>
    decreases n,
{
    if n < 10 {
        seq![digit_byte(n)]
    } else {
        decimal_digits(n / 10).push(digit_byte(n % 10))
    }
}

/// The number of digits in the decimal representation of `n`.
pub open spec fn digit_count(n: nat) -> nat
    decreases n,
{
    if n < 10 {
        1
    } else {
        1 + digit_count(n / 10)
    }
}

/// Ten to the power `e`.
pub open spec fn pow10(e: nat) -> nat
    decreases e,
{
    if e == 0 {
        1
    } else {
        10 * pow10((e - 1) as nat)
    }
}

/// Whether `s` is a numeral: one digit or more, all of them ASCII digits, and
/// no zero in front of another digit.
pub open spec fn is_numeral(s: Seq<u8>) -> bool {
    &&& s.len() >= 1
    &&& forall|i: int| 0 <= i < s.len() ==> is_digit(#[trigger] s[i])
    &&& s.len() > 1 ==> s[0] != ASCII_ZERO
}

/// The number that a sequence of ASCII digits denotes, read with the most
/// significant digit first.
pub open spec fn numeral_value(s: Seq<u8>) -> nat
    decreases s.len(),
{
    if s.len() == 0 {
        0
    } else {
        numeral_value(s.drop_last()) * 10 + (s.last() - ASCII_ZERO) as nat
    }
}

/// The decimal representation of any number is a numeral, and the numeral
/// denotes that number. Zero is written as the single digit `0`.
pub proof fn lemma_decimal_digits_exact(n: nat)
    ensures
        is_numeral(decimal_digits(n)),
        numeral_value(decimal_digits(n)) == n,
        n == 0 ==> decimal_digits(n) == seq![ASCII_ZERO],
        n != 0 ==> decimal_digits(n)[0] != ASCII_ZERO,
    decreases n,
{
    let s = decimal_digits(n);
    if n < 10 {
        assert(s.drop_last() == Seq::<u8>::empty());
        assert(numeral_value(s.drop_last()) == 0);
        assert(numeral_value(s) == n);
    } else {
        let head = decimal_digits(n / 10);
        lemma_decimal_digits_exact(n / 10);
        assert(s == head.push(digit_byte(n % 10)));
        assert(s.drop_last() == head);
        assert(numeral_value(s) == (n / 10) * 10 + n % 10);
        assert(s[0] == head[0]);
        assert forall|i: int| 0 <= i < s.len() implies is_digit(#[trigger] s[i]) by {
            if i < head.len() {
                assert(s[i] == head[i]);
            }
        }
    }
}

/// Digits that do not begin with a zero denote a number that is not zero.
pub proof fn lemma_numeral_value_positive(s: Seq<u8>)
    requires
        s.len() >= 1,
        forall|i: int| 0 <= i < s.len() ==> is_digit(#[trigger] s[i]),
        s[0] != ASCII_ZERO,
    ensures
        numeral_value(s) >= 1,
    decreases s.len(),
{
    let head = s.drop_last();
    if s.len() == 1 {
        assert(is_digit(s[0]));
        assert(head == Seq::<u8>::empty());
        assert(numeral_value(head) == 0);
        assert(numeral_value(s) == s[0] - ASCII_ZERO);
    } else {
        assert(head[0] == s[0]);
        assert forall|i: int| 0 <= i < head.len() implies is_digit(#[trigger] head[i]) by {
            assert(head[i] == s[i]);
        }
        lemma_numeral_value_positive(head);
        assert(numeral_value(s) >= numeral_value(head) * 10);
    }
}

/// A number has one numeral only: every numeral is the decimal representation
/// of the number that it denotes.
pub proof fn lemma_numeral_unique(s: Seq<u8>)
    requires
        is_numeral(s),
    ensures
        decimal_digits(numeral_value(s)) == s,
    decreases s.len(),
{
    let head = s.drop_last();
    let v = numeral_value(s);
    let d = (s.last() - ASCII_ZERO) as nat;
    assert(is_digit(s[s.len() - 1]));
    assert(d < 10 && digit_byte(d) == s.last());
    if s.len() == 1 {
        assert(head == Seq::<u8>::empty());
        assert(numeral_value(head) == 0);
        assert(v == d);
        assert(decimal_digits(v) == seq![s[0]]);
        assert(seq![s[0]] == s);
    } else {
        assert(head[0] == s[0]);
        assert forall|i: int| 0 <= i < head.len() implies is_digit(#[trigger] head[i]) by {
            assert(head[i] == s[i]);
        }
        lemma_numeral_unique(head);
        lemma_numeral_value_positive(head);
        assert(v == numeral_value(head) * 10 + d);
        assert(v >= 10 && v / 10 == numeral_value(head) && v % 10 == d);
        assert(decimal_digits(v) == head.push(s.last()));
        assert(head.push(s.last()) == s);
    }
}

/// The decimal representation of `n` has `digit_count(n)` digits.
pub proof fn lemma_decimal_digits_len(n: nat)
    ensures
        decimal_digits(n).len() == digit_count(n),
    decreases n,
{
    if n >= 10 {
        lemma_decimal_digits_len(n / 10);
    }
}

/// `digit_count` is the true number of digits: a number that is not zero lies
/// between the powers of ten below and above which its count changes, and
/// zero counts as one digit.
pub proof fn lemma_digit_count_bounds(n: nat)
    ensures
        digit_count(n) >= 1,
        n != 0 ==> pow10((digit_count(n) - 1) as nat) <= n < pow10(digit_count(n)),
        n == 0 ==> digit_count(n) == 1,
    decreases n,
{
    reveal_with_fuel(pow10, 2);
    if n >= 10 {
        lemma_digit_count_bounds(n / 10);
    }
}

/// A 32-bit value has at most ten digits.
pub proof fn lemma_digit_count_u32(n: u32)
    ensures
        1 <= digit_count(n as nat) <= MAX_DIGITS,
{
    reveal_with_fuel(digit_count, 11);
}

/// Writes the decimal representation of `n` into the last bytes of `buf`,
/// from the least significant digit backwards, and returns the part of `buf`
/// that holds it. The bytes of `buf` in front of that part are left as they
/// were.
pub fn format(n: u32, buf: &mut [u8; MAX_DIGITS]) -> (out: &[u8])
    ensures
        out@ == decimal_digits(n as nat),
        is_numeral(out@),
        numeral_value(out@) == n,
        out@.len() == digit_count(n as nat),
        1 <= out@.len() <= MAX_DIGITS,
        final(buf)@ == old(buf)@.take(MAX_DIGITS - out@.len()) + out@,
{
    proof {
        lemma_decimal_digits_exact(n as nat);
        lemma_digit_count_u32(n);
    }
    if n == 0 {
        buf[MAX_DIGITS - 1] = ASCII_ZERO;
        let out = slice_subrange(buf.as_slice(), MAX_DIGITS - 1, MAX_DIGITS);
        assert(out@ == decimal_digits(0));
        return out;
    }
    let mut rest: u32 = n;
    let mut len: usize = 0;
    while rest != 0
        invariant
            len <= MAX_DIGITS,
            digit_count(n as nat) <= MAX_DIGITS,
            rest != 0 ==> digit_count(n as nat) == digit_count(rest as nat) + len,
            rest == 0 ==> digit_count(n as nat) == len,
            rest != 0 ==> decimal_digits(n as nat) == decimal_digits(rest as nat) + buf@.subrange(
                MAX_DIGITS - len,
                MAX_DIGITS as int,
            ),
            rest == 0 ==> decimal_digits(n as nat) == buf@.subrange(
                MAX_DIGITS - len,
                MAX_DIGITS as int,
            ),
            buf@.take(MAX_DIGITS - len) == old(buf)@.take(MAX_DIGITS - len),
        decreases rest,
    {
        let ghost before = buf@;
        let digit: u8 = (rest % 10) as u8;
        buf[MAX_DIGITS - len - 1] = ASCII_ZERO + digit;
        proof {
            let written = before.subrange(MAX_DIGITS - len, MAX_DIGITS as int);
            let grown = buf@.subrange(MAX_DIGITS - len - 1, MAX_DIGITS as int);
            assert(grown == seq![digit_byte((rest % 10) as nat)] + written);
            if rest >= 10 {
                assert(decimal_digits(rest as nat) == decimal_digits((rest / 10) as nat).push(
                    digit_byte((rest % 10) as nat),
                ));
                assert(decimal_digits(n as nat) == decimal_digits((rest / 10) as nat) + grown);
            } else {
                assert(decimal_digits(rest as nat) == seq![digit_byte(rest as nat)]);
                assert(decimal_digits(n as nat) == grown);
            }
        }
        rest = rest / 10;
        len = len + 1;
    }
    let out = slice_subrange(buf.as_slice(), MAX_DIGITS - len, MAX_DIGITS);
    assert(out@ == decimal_digits(n as nat));
    out
}

} // verus!
