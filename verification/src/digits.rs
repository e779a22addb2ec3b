//! Decimal digits of a number: how many there are, and what they spell.

use vstd::prelude::*;

verus! {

/// The number of decimal digits of `n`; zero has one digit.
pub open spec fn digit_count(n: nat) -> nat
    decreases n,
{
    if n < 10 {
        1
    } else {
        1 + digit_count(n / 10)
    }
}

/// Ten to the power of `e`.
pub open spec fn pow10(e: nat) -> nat
    decreases e,
{
    if e == 0 {
        1
    } else {
        10 * pow10((e - 1) as nat)
    }
}

/// The character that spells the digit `d`.
pub open spec fn digit_char(d: nat) -> char
    recommends
        d < 10,
{
    if d == 0 {
        '0'
    } else if d == 1 {
        '1'
    } else if d == 2 {
        '2'
    } else if d == 3 {
        '3'
    } else if d == 4 {
        '4'
    } else if d == 5 {
        '5'
    } else if d == 6 {
        '6'
    } else if d == 7 {
        '7'
    } else if d == 8 {
        '8'
    } else {
        '9'
    }
}

/// The decimal representation of `n`, most significant digit first, without
/// leading zeros.
pub open spec fn decimal(n: nat) -> Seq<char>
    decreases n,
{
    if n < 10 {
        seq![digit_char(n)]
    } else {
        decimal(n / 10).push(digit_char(n % 10))
    }
}

/// The decimal representation of `n` has exactly `digit_count(n)` characters.
pub proof fn lemma_decimal_len(n: nat)
    ensures
        decimal(n).len() == digit_count(n),
    decreases n,
{
    if n >= 10 {
        lemma_decimal_len(n / 10);
    }
}

/// A positive number with `d` digits lies between the two nearest powers of
/// ten: `10^(d-1) <= n < 10^d`. So `digit_count(n)` is one more than the
/// integer part of the base-ten logarithm of `n`.
pub proof fn lemma_digit_count_bounds(n: nat)
    requires
        n >= 1,
    ensures
        pow10((digit_count(n) - 1) as nat) <= n < pow10(digit_count(n)),
    decreases n,
{
    if n >= 10 {
        lemma_digit_count_bounds(n / 10);
    }
}

/// A number below `10^k` has at most `k` digits.
pub proof fn lemma_digit_count_at_most(n: nat, k: nat)
    requires
        k >= 1,
        n < pow10(k),
    ensures
        digit_count(n) <= k,
    decreases n,
{
    if n >= 10 {
        assert(pow10(1) == 10 * pow10(0));
        lemma_digit_count_at_most(n / 10, (k - 1) as nat);
    }
}

/// A machine-sized number has at most twenty digits.
pub proof fn lemma_digit_count_usize(n: usize)
    ensures
        1 <= digit_count(n as nat) <= 20,
{
    assert(pow10(20) == 100_000_000_000_000_000_000nat) by {
        reveal_with_fuel(pow10, 21);
    }
    lemma_digit_count_at_most(n as nat, 20);
}

/// Counts the decimal digits of `n`.
pub fn number_of_digits(n: usize) -> (count: usize)
    ensures
        count == digit_count(n as nat),
        count == decimal(n as nat).len(),
        1 <= count <= 20,
{
    let mut count: usize = 1;
    let mut rest: usize = n;
    proof {
        lemma_digit_count_usize(n);
    }
    while rest >= 10
        invariant
            1 <= count,
            count + digit_count(rest as nat) == 1 + digit_count(n as nat),
            digit_count(n as nat) <= 20,
        decreases rest,
    {
        rest = rest / 10;
        count = count + 1;
    }
    proof {
        lemma_decimal_len(n as nat);
    }
    count
}

/// The one-character text that spells the digit `d`.
fn digit_text(d: usize) -> (text: &'static str)
    requires
        d < 10,
    ensures
        text@ == seq![digit_char(d as nat)],
{
    proof {
        reveal_strlit("0");
        reveal_strlit("1");
        reveal_strlit("2");
        reveal_strlit("3");
        reveal_strlit("4");
        reveal_strlit("5");
        reveal_strlit("6");
        reveal_strlit("7");
        reveal_strlit("8");
        reveal_strlit("9");
    }
    if d == 0 {
        "0"
    } else if d == 1 {
        "1"
    } else if d == 2 {
        "2"
    } else if d == 3 {
        "3"
    } else if d == 4 {
        "4"
    } else if d == 5 {
        "5"
    } else if d == 6 {
        "6"
    } else if d == 7 {
        "7"
    } else if d == 8 {
        "8"
    } else {
        "9"
    }
}

/// Appends the decimal representation of `n` to `out`.
pub fn push_decimal(out: &mut String, n: usize)
    ensures
        final(out)@ == old(out)@ + decimal(n as nat),
    decreases n,
{
    if n >= 10 {
        push_decimal(out, n / 10);
    }
    out.append(digit_text(n % 10));
}

} // verus!
