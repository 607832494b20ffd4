//! Base-10 ASCII rendering of a length.

use vstd::prelude::*;

verus! {

/// The ASCII digit `0`.
pub const ASCII_ZERO: u8 = 0x30;

/// The ASCII digit that stands for a value below ten.
pub open spec fn digit(d: nat) -> u8 {
    (0x30 + d) as u8
}

/// The base-10 digits of `n`, most significant first, without leading
/// zeros; zero is the single digit `0`.
pub open spec fn decimal_digits(n: nat) -> Seq<u8>
    decreases n,
{
    if n < 10 {
        seq![digit(n)]
    } else {
        decimal_digits(n / 10).push(digit(n % 10))
    }
}

/// The number that a sequence of ASCII digits stands for.
pub open spec fn decimal_value(digits: Seq<u8>) -> nat
    decreases digits.len(),
{
    if digits.len() == 0 {
        0
    } else {
        (decimal_value(digits.drop_last()) * 10 + (digits.last() - 0x30)) as nat
    }
}

/// Every byte of a rendering is one of `0` to `9`, and there is at least
/// one.
pub proof fn lemma_decimal_digits_are_digits(n: nat)
    ensures
        decimal_digits(n).len() >= 1,
        forall|i: int|
            0 <= i < decimal_digits(n).len() ==> 0x30 <= #[trigger] decimal_digits(n)[i] <= 0x39,
    decreases n,
{
    if n >= 10 {
        lemma_decimal_digits_are_digits(n / 10);
    }
}

/// A rendering has no leading zero, except that zero itself is `0`.
pub proof fn lemma_decimal_no_leading_zero(n: nat)
    ensures
        n == 0 ==> decimal_digits(n) == seq![0x30u8],
        n > 0 ==> decimal_digits(n)[0] != 0x30,
    decreases n,
{
    if n >= 10 {
        lemma_decimal_digits_are_digits(n / 10);
        lemma_decimal_no_leading_zero(n / 10);
    }
}

/// Reading a rendering back gives the number it was made from, so two
/// numbers with the same rendering are equal.
pub proof fn lemma_decimal_round_trip(n: nat)
    ensures
        decimal_value(decimal_digits(n)) == n,
    decreases n,
{
    let digits = decimal_digits(n);
    if n < 10 {
        assert(digits.drop_last() =~= Seq::<u8>::empty());
        assert(decimal_value(digits.drop_last()) == 0);
    } else {
        lemma_decimal_round_trip(n / 10);
        assert(digits.drop_last() =~= decimal_digits(n / 10));
        assert(digits.last() == digit(n % 10));
    }
}

/// Renders `n` in base 10 as ASCII digits.
pub fn to_decimal(n: usize) -> (digits: Vec<u8>)
    ensures
        digits@ == decimal_digits(n as nat),
{
    let mut digits: Vec<u8> = Vec::new();
    let mut rest: usize = n;
    while rest >= 10
        invariant
            decimal_digits(n as nat) == decimal_digits(rest as nat) + digits@,
        decreases rest,
    {
        let low: u8 = (rest % 10) as u8;
        let ghost before = digits@;
        digits.insert(0, ASCII_ZERO + low);
        proof {
            assert(digits@ =~= seq![digit((rest % 10) as nat)] + before);
            assert(decimal_digits(rest as nat) + before =~= decimal_digits((rest / 10) as nat)
                + digits@);
        }
        rest = rest / 10;
    }
    let ghost before = digits@;
    digits.insert(0, ASCII_ZERO + (rest as u8));
    proof {
        assert(digits@ =~= decimal_digits(rest as nat) + before);
    }
    digits
}

} // verus!
