//! Decimal text of signed 32-bit numbers.

use vstd::prelude::*;

verus! {

/// The ASCII code of the digit `d`.
pub open spec fn digit_char(d: int) -> u8
    recommends
        0 <= d < 10,
{
    (48 + d) as u8
}

/// The decimal digits of `n` as ASCII codes, most significant first, with no
/// leading zero; zero is written as the single digit `0`.
pub open spec fn digits_of(n: nat) -> Seq<u8>
    decreases n,
{
    if n < 10 {
        seq![digit_char(n as int)]
    } else {
        digits_of(n / 10).push(digit_char(n as int % 10))
    }
}

/// The decimal text of `v`: a minus sign if `v` is negative, then the digits
/// of its magnitude.
pub open spec fn decimal_of(v: int) -> Seq<u8> {
    if v < 0 {
        seq![45u8] + digits_of((-v) as nat)
    } else {
        digits_of(v as nat)
    }
}

/// The digits of `n` that stand before the ones already taken off its low
/// end: none once `n` has come down to zero.
spec fn leading_digits(n: nat) -> Seq<u8> {
    if n == 0 {
        Seq::empty()
    } else {
        digits_of(n)
    }
}

/// The number of digits is never zero and never more than the magnitude
/// allows.
pub proof fn lemma_digits_len(n: nat)
    ensures
        digits_of(n).len() >= 1,
        n < 10 ==> digits_of(n).len() == 1,
        forall|i: int| 0 <= i < digits_of(n).len() ==> 48 <= #[trigger] digits_of(n)[i] <= 57,
    decreases n,
{
    if n >= 10 {
        lemma_digits_len(n / 10);
    }
}

/// Writes `v` as decimal ASCII text, without separators or a trailing
/// newline.
pub fn format_signed(v: i32) -> (text: Vec<u8>)
    ensures
        text@ == decimal_of(v as int),
{
    let magnitude: u32 = if v < 0 {
        (-(v as i64)) as u32
    } else {
        v as u32
    };
    let mut reversed: Vec<u8> = Vec::new();
    reversed.push(48u8 + (magnitude % 10) as u8);
    let mut rest: u32 = magnitude / 10;
    assert(digits_of(magnitude as nat) =~= leading_digits(rest as nat) + reversed@.reverse());
    while rest > 0
        invariant
            digits_of(magnitude as nat) =~= leading_digits(rest as nat) + reversed@.reverse(),
        decreases rest,
    {
        let ghost before = reversed@;
        let digit: u8 = 48u8 + (rest % 10) as u8;
        reversed.push(digit);
        assert(reversed@.reverse() =~= seq![digit] + before.reverse());
        assert(leading_digits(rest as nat) =~= leading_digits((rest / 10) as nat) + seq![digit]);
        rest = rest / 10;
    }
    let mut text: Vec<u8> = Vec::new();
    if v < 0 {
        text.push(45u8);
    }
    let ghost sign = text@;
    let mut i: usize = reversed.len();
    while i > 0
        invariant
            i <= reversed.len(),
            text@ =~= sign + reversed@.reverse().subrange(0, reversed.len() - i),
        decreases i,
    {
        i -= 1;
        text.push(reversed[i]);
    }
    assert(reversed@.reverse().subrange(0, reversed.len() as int) =~= reversed@.reverse());
    text
}

} // verus!
