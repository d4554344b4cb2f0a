//! Decimal text of a nonce, as it goes into the signing message and the nonce header.

use vstd::prelude::*;

verus! {

/// The character for the decimal digit `d`.
pub open spec fn digit_char(d: int) -> char
    recommends
        0 <= d < 10,
{
    (d + 48) as char
}

/// The decimal digits of `n`, most significant first, without leading zeros;
/// zero is the single digit `0`.
pub open spec fn digits(n: nat) -> Seq<char>
    decreases n,
{
    if n < 10 {
        seq![digit_char(n as int)]
    } else {
        digits(n / 10).push(digit_char((n % 10) as int))
    }
}

/// The decimal text of `n`: a minus sign for a negative number, then the
/// digits of its magnitude.
pub open spec fn decimal(n: int) -> Seq<char> {
    if n < 0 {
        seq!['-'] + digits((-n) as nat)
    } else {
        digits(n as nat)
    }
}

/// The digits in front of the last one: none where `n` is zero.
spec fn leading(n: nat) -> Seq<char> {
    if n == 0 {
        Seq::empty()
    } else {
        digits(n)
    }
}

proof fn lemma_digits_split(n: nat)
    ensures
        digits(n) == leading(n / 10).push(digit_char((n % 10) as int)),
{
    if n < 10 {
        assert(n / 10 == 0);
        assert(n % 10 == n);
        assert(digits(n) =~= Seq::<char>::empty().push(digit_char(n as int)));
    }
}

fn digit(d: u64) -> (c: char)
    requires
        d < 10,
    ensures
        c == digit_char(d as int),
{
    let code: u8 = (d + 48) as u8;
    code as char
}

/// Renders `n` in decimal.
pub fn decimal_string(n: i64) -> (text: String)
    ensures
        text@ == decimal(n as int),
{
    let mut text = String::new();
    let magnitude: u64 = if n < 0 {
        text.push('-');
        (-(n as i128)) as u64
    } else {
        n as u64
    };
    let ghost sign = text@;
    assert(decimal(n as int) == sign + digits(magnitude as nat));

    let mut low_first: Vec<char> = Vec::new();
    low_first.push(digit(magnitude % 10));
    let mut rest: u64 = magnitude / 10;
    proof {
        lemma_digits_split(magnitude as nat);
        assert(low_first@.reverse() =~= seq![low_first@[0]]);
        assert(digits(magnitude as nat) =~= leading(rest as nat) + low_first@.reverse());
    }
    while rest > 0
        invariant
            low_first@.len() > 0,
            digits(magnitude as nat) == leading(rest as nat) + low_first@.reverse(),
        decreases rest,
    {
        let ghost before = low_first@;
        low_first.push(digit(rest % 10));
        proof {
            lemma_digits_split(rest as nat);
            assert(low_first@.reverse() =~= seq![digit_char((rest % 10) as int)]
                + before.reverse());
            assert(leading(rest as nat) + before.reverse() =~= leading((rest / 10) as nat)
                + low_first@.reverse());
        }
        rest = rest / 10;
    }

    let mut left: usize = low_first.len();
    while left > 0
        invariant
            left <= low_first@.len(),
            low_first@.len() > 0,
            text@ == sign + low_first@.reverse().subrange(0, low_first@.len() - left),
        decreases left,
    {
        left = left - 1;
        let ghost before = text@;
        text.push(low_first[left]);
        assert(text@ =~= sign + low_first@.reverse().subrange(0, low_first@.len() - left));
    }
    assert(low_first@.reverse().subrange(0, low_first@.len() as int) =~= low_first@.reverse());
    text
}

} // verus!
