//! Decimal numbers in protocol text.

use vstd::arithmetic::div_mod::lemma_div_denominator;
use vstd::arithmetic::power::{lemma_pow0, lemma_pow1, lemma_pow_adds, lemma_pow_positive, pow};
use vstd::prelude::*;

verus! {

/// Whether a byte is an ASCII digit.
pub open spec fn is_digit(b: u8) -> bool {
    0x30 <= b <= 0x39
}

/// The number that a run of ASCII digits stands for.
pub open spec fn digits_value(digits: Seq<u8>) -> nat
    decreases digits.len(),
{
    if digits.len() == 0 {
        0
    } else {
        digits_value(digits.drop_last()) * 10 + (digits.last() - 0x30) as nat
    }
}

/// The decimal digits of a number, without leading zeros.
pub open spec fn decimal(n: nat) -> Seq<u8>
    decreases n,
{
    if n < 10 {
        seq![(0x30 + n) as u8]
    } else {
        decimal(n / 10).push((0x30 + n % 10) as u8)
    }
}

/// The digits of a number text: everything after an optional plus sign.
pub open spec fn unsigned_digits(text: Seq<u8>) -> Seq<u8> {
    if text.len() > 0 && text[0] == 0x2b {
        text.skip(1)
    } else {
        text
    }
}

/// The `u32` that a text stands for: an optional plus sign followed by at
/// least one digit, with a value in range.
pub open spec fn u32_of(text: Seq<u8>) -> Option<u32> {
    let digits = unsigned_digits(text);
    if digits.len() > 0 && (forall|i: int| 0 <= i < digits.len() ==> is_digit(#[trigger] digits[i]))
        && digits_value(digits) <= u32::MAX {
        Some(digits_value(digits) as u32)
    } else {
        None
    }
}

proof fn lemma_digits_value_grows(digits: Seq<u8>, n: int)
    requires
        0 <= n <= digits.len(),
        forall|i: int| 0 <= i < digits.len() ==> is_digit(#[trigger] digits[i]),
    ensures
        digits_value(digits.take(n)) <= digits_value(digits),
    decreases digits.len() - n,
{
    if n == digits.len() {
        assert(digits.take(n) == digits);
    } else {
        assert(digits.take(n + 1).drop_last() == digits.take(n));
        lemma_digits_value_grows(digits, n + 1);
    }
}

/// Reads a `u32`: an optional plus sign followed by digits.
pub fn parse_u32(text: &[u8]) -> (r: Option<u32>)
    ensures
        r == u32_of(text@),
{
    let start: usize = if text.len() > 0 && text[0] == 0x2b {
        1
    } else {
        0
    };
    let ghost digits = unsigned_digits(text@);
    if start == text.len() {
        return None;
    }
    let mut value: u64 = 0;
    let mut i: usize = start;
    while i < text.len()
        invariant
            start <= i <= text.len(),
            start <= 1,
            digits == text@.skip(start as int),
            digits == unsigned_digits(text@),
            forall|k: int| 0 <= k < i - start ==> is_digit(#[trigger] digits[k]),
            value == digits_value(digits.take(i - start)),
            value <= u32::MAX,
        decreases text.len() - i,
    {
        let b: u8 = text[i];
        assert(digits[i - start] == b);
        if b < 0x30 || b > 0x39 {
            assert(!is_digit(digits[i - start]));
            return None;
        }
        assert(digits.take(i - start + 1).drop_last() == digits.take(i - start));
        value = value * 10 + (b - 0x30) as u64;
        i = i + 1;
        if value > 0xffff_ffff {
            proof {
                if forall|k: int| 0 <= k < digits.len() ==> is_digit(#[trigger] digits[k]) {
                    lemma_digits_value_grows(digits, i - start);
                }
            }
            return None;
        }
    }
    assert(digits.take(digits.len() as int) == digits);
    Some(value as u32)
}

/// Appends the decimal digits of a number.
pub fn push_decimal(out: &mut Vec<u8>, n: u32)
    ensures
        final(out)@ == old(out)@ + decimal(n as nat),
    decreases n,
{
    if n >= 10 {
        push_decimal(out, n / 10);
        out.push((0x30 + n % 10) as u8);
        assert(out@ =~= old(out)@ + decimal(n as nat));
    } else {
        out.push((0x30 + n) as u8);
        assert(out@ =~= old(out)@ + decimal(n as nat));
    }
}

proof fn lemma_decimal_digits(n: nat)
    ensures
        decimal(n).len() > 0,
        forall|i: int| 0 <= i < decimal(n).len() ==> is_digit(#[trigger] decimal(n)[i]),
        digits_value(decimal(n)) == n,
    decreases n,
{
    if n < 10 {
        let d = seq![(0x30 + n) as u8];
        assert(d.drop_last() == Seq::<u8>::empty());
        assert(digits_value(d.drop_last()) == 0);
    } else {
        lemma_decimal_digits(n / 10);
        let d = decimal(n);
        assert(d.drop_last() == decimal(n / 10));
    }
}

/// Reading the decimal digits of a number gives the number back.
pub proof fn decimal_is_read_back(n: u32)
    ensures
        u32_of(decimal(n as nat)) == Some(n),
{
    lemma_decimal_digits(n as nat);
    let d = decimal(n as nat);
    assert(is_digit(d[0]));
    assert(unsigned_digits(d) == d);
}

/// Two numbers with the same decimal digits are equal.
pub proof fn decimal_is_injective(a: u32, b: u32)
    requires
        decimal(a as nat) == decimal(b as nat),
    ensures
        a == b,
{
    decimal_is_read_back(a);
    decimal_is_read_back(b);
}

/// A number followed by something other than a digit can be read in one way
/// only.
pub proof fn leading_decimal_is_unique(a: nat, after_a: Seq<u8>, b: nat, after_b: Seq<u8>)
    requires
        after_a.len() > 0,
        after_b.len() > 0,
        !is_digit(after_a[0]),
        !is_digit(after_b[0]),
        decimal(a) + after_a == decimal(b) + after_b,
    ensures
        a == b,
        after_a == after_b,
{
    let left = decimal(a);
    let right = decimal(b);
    let whole = left + after_a;
    lemma_decimal_digits(a);
    lemma_decimal_digits(b);
    assert(whole[left.len() as int] == after_a[0]);
    assert(whole[right.len() as int] == after_b[0]) by {
        assert(whole == right + after_b);
    }
    if left.len() < right.len() {
        assert((right + after_b)[left.len() as int] == right[left.len() as int]);
    } else if right.len() < left.len() {
        assert(whole[right.len() as int] == left[right.len() as int]);
    }
    assert(whole.take(left.len() as int) =~= left);
    assert(whole.take(left.len() as int) =~= right);
    assert(whole.skip(left.len() as int) =~= after_a);
    assert(whole.skip(left.len() as int) =~= after_b);
}

/// The digits of a number written in full: each place counts ten times the place
/// after it, there is no leading zero, and there are no more places than the
/// number needs.
pub proof fn decimal_places(n: nat, place: nat)
    requires
        place < decimal(n).len(),
    ensures
        decimal(n)[decimal(n).len() - 1 - place] == 0x30 + n as int / pow(10, place) % 10,
        decimal(n).len() > 1 ==> decimal(n)[0] != 0x30,
        n < pow(10, decimal(n).len()),
        decimal(n).len() > 1 ==> n >= pow(10, (decimal(n).len() - 1) as nat),
    decreases n,
{
    lemma_pow_positive(10, place);
    lemma_pow1(10);
    lemma_pow0(10);
    if n >= 10 {
        let before = decimal(n / 10);
        lemma_decimal_digits(n / 10);
        decimal_places(n / 10, 0);
        lemma_pow_adds(10, 1, before.len());
        assert(pow(10, before.len() + 1) == 10 * pow(10, before.len()));
        if before.len() > 1 {
            lemma_pow_adds(10, 1, (before.len() - 1) as nat);
            assert(pow(10, before.len()) == 10 * pow(10, (before.len() - 1) as nat));
        }
        if place > 0 {
            let less = (place - 1) as nat;
            decimal_places(n / 10, less);
            lemma_pow_adds(10, 1, less);
            lemma_pow_positive(10, less);
            lemma_div_denominator(n as int, 10, pow(10, less));
        }
    }
}

/// A number text reads like its digits put in places: appending a digit counts
/// the earlier ones ten times.
pub proof fn digits_count_by_place(digits: Seq<u8>, digit: u8)
    requires
        is_digit(digit),
    ensures
        digits_value(Seq::empty()) == 0,
        digits_value(digits.push(digit)) == 10 * digits_value(digits) + (digit - 0x30),
{
    assert(digits.push(digit).drop_last() =~= digits);
}

/// A number text is read where it is made of ASCII digits alone, at least one,
/// after an optional plus sign, and its value is below two to the 32nd; leading
/// zeros do not matter.
pub proof fn number_texts_are_read(text: Seq<u8>)
    ensures
        u32_of(Seq::empty()) is None,
        u32_of(seq![0x2bu8]) is None,
        (exists|i: int| 1 <= i < text.len() && !(0x30 <= #[trigger] text[i] <= 0x39))
            ==> u32_of(text) is None,
        text.len() > 0 && !(0x30 <= text[0] <= 0x39) && text[0] != 0x2b ==> u32_of(text) is None,
        text.len() > 0 && (forall|i: int|
            0 <= i < text.len() ==> 0x30 <= #[trigger] text[i] <= 0x39) ==> {
            &&& u32_of(text) == (if digits_value(text) < 0x1_0000_0000 {
                Some(digits_value(text) as u32)
            } else {
                None
            })
            &&& u32_of(seq![0x2bu8] + text) == u32_of(text)
            &&& u32_of(seq![0x30u8] + text) == u32_of(text)
        },
{
    if exists|i: int| 1 <= i < text.len() && !(0x30 <= #[trigger] text[i] <= 0x39) {
        let i = choose|i: int| 1 <= i < text.len() && !(0x30 <= #[trigger] text[i] <= 0x39);
        let digits = unsigned_digits(text);
        if text[0] == 0x2b {
            assert(digits[i - 1] == text[i]);
        } else {
            assert(digits[i] == text[i]);
        }
    }
    if text.len() > 0 && (forall|i: int|
        0 <= i < text.len() ==> 0x30 <= #[trigger] text[i] <= 0x39) {
        assert(text[0] != 0x2b);
        assert((seq![0x2bu8] + text).skip(1) =~= text);
        let padded = seq![0x30u8] + text;
        lemma_leading_zero(text);
        assert(unsigned_digits(padded) == padded);
        assert forall|i: int| 0 <= i < padded.len() implies is_digit(#[trigger] padded[i]) by {
            if i > 0 {
                assert(padded[i] == text[i - 1]);
            }
        }
    }
}

proof fn lemma_leading_zero(digits: Seq<u8>)
    ensures
        digits_value(seq![0x30u8] + digits) == digits_value(digits),
    decreases digits.len(),
{
    let padded = seq![0x30u8] + digits;
    if digits.len() == 0 {
        assert(padded.drop_last() =~= Seq::<u8>::empty());
        assert(digits_value(padded.drop_last()) == 0);
        assert(padded.last() == 0x30);
    } else {
        lemma_leading_zero(digits.drop_last());
        assert(padded.drop_last() =~= seq![0x30u8] + digits.drop_last());
        assert(padded.last() == digits.last());
    }
}

} // verus!
