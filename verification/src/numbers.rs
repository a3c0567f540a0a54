//! Decimal arithmetic for the metric values: rendering a natural number as
//! decimal text, and rounding a quotient to the nearest integer.
//!
//! The kernel reports every metric as integer text in a fixed unit
//! (millidegrees, energy units), so the library works in scaled integers
//! throughout and renders the scaled values itself.

use vstd::prelude::*;

verus! {

/// The decimal digit character for a value below ten.
pub open spec fn digit_of(d: nat) -> char {
    if d == 0 {
        '0'
    } else if d == 1 {
        '1'
    } else if d == 2 {
        '2'
    } else if d == 3 {
        '3'
    } else if d == 4 {
        '4'
    } else if d == 5 {
        '5'
    } else if d == 6 {
        '6'
    } else if d == 7 {
        '7'
    } else if d == 8 {
        '8'
    } else {
        '9'
    }
}

/// The decimal text of a natural number, without sign and without leading
/// zeros (a single `'0'` for zero).
pub open spec fn dec_of(n: nat) -> Seq<char>
    decreases n,
{
    if n < 10 {
        seq![digit_of(n)]
    } else {
        dec_of(n / 10) + seq![digit_of(n % 10)]
    }
}

/// The one-character string for a decimal digit.
pub(crate) fn digit_to_str(d: u128) -> (r: &'static str)
    requires
        d < 10,
    ensures
        r@ == seq![digit_of(d as nat)],
{
    proof {
        reveal_strlit("0");
        reveal_strlit("1");
        reveal_strlit("2");
        reveal_strlit("3");
        reveal_strlit("4");
        reveal_strlit("5");
        reveal_strlit("6");
        reveal_strlit("7");
        reveal_strlit("8");
        reveal_strlit("9");
    }
    let r: &'static str = if d == 0 {
        "0"
    } else if d == 1 {
        "1"
    } else if d == 2 {
        "2"
    } else if d == 3 {
        "3"
    } else if d == 4 {
        "4"
    } else if d == 5 {
        "5"
    } else if d == 6 {
        "6"
    } else if d == 7 {
        "7"
    } else if d == 8 {
        "8"
    } else {
        "9"
    };
    proof {
        assert(r@ =~= seq![digit_of(d as nat)]);
    }
    r
}

/// Ten raised to a natural power.
pub open spec fn pow10(e: nat) -> nat
    decreases e,
{
    if e == 0 {
        1
    } else {
        10 * pow10((e - 1) as nat)
    }
}

/// Whether a character is a decimal digit.
pub open spec fn is_digit(c: char) -> bool {
    '0' as u32 <= c as u32 && c as u32 <= '9' as u32
}

/// The numeric value of a decimal digit character.
pub open spec fn digit_val(c: char) -> nat
    recommends
        is_digit(c),
{
    (c as u32 - '0' as u32) as nat
}

/// Whether every character of the text is a decimal digit.
pub open spec fn all_digits(t: Seq<char>) -> bool {
    forall|i: int| 0 <= i < t.len() ==> is_digit(#[trigger] t[i])
}

/// The value of a run of decimal digits, read left to right.
pub open spec fn digits_val(t: Seq<char>) -> nat
    decreases t.len(),
{
    if t.len() == 0 {
        0
    } else {
        digits_val(t.drop_last()) * 10 + digit_val(t.last())
    }
}

/// Decimal integer text accepted by the library: an optional leading minus
/// sign followed by at least one digit, at most eighteen digits in all (so
/// that every accepted value fits comfortably in a machine word).
pub open spec fn parseable_int(t: Seq<char>) -> bool {
    if t.len() > 0 && t[0] == '-' {
        2 <= t.len() <= 19 && all_digits(t.skip(1))
    } else {
        1 <= t.len() <= 18 && all_digits(t)
    }
}

/// The signed value of decimal integer text.
pub open spec fn text_int_val(t: Seq<char>) -> int
    recommends
        parseable_int(t),
{
    if t.len() > 0 && t[0] == '-' {
        -(digits_val(t.skip(1)) as int)
    } else {
        digits_val(t) as int
    }
}

/// A quotient rounded to the nearest integer, ties to the even neighbour.
pub open spec fn round_nearest_even(n: nat, d: nat) -> nat
    recommends
        d > 0,
{
    let q = n / d;
    let r = n % d;
    if 2 * r < d {
        q
    } else if 2 * r > d {
        q + 1
    } else if q % 2 == 0 {
        q
    } else {
        q + 1
    }
}

/// `pow10` grows with its exponent.
pub proof fn lemma_pow10_increases(a: nat, b: nat)
    requires
        a <= b,
    ensures
        pow10(a) <= pow10(b),
    decreases b,
{
    if a < b {
        lemma_pow10_increases(a, (b - 1) as nat);
    }
}

/// The first few powers of ten, written out for concrete bounds.
pub proof fn lemma_pow10_values()
    ensures
        pow10(17) == 100_000_000_000_000_000,
        pow10(18) == 1_000_000_000_000_000_000,
        pow10(19) == 10_000_000_000_000_000_000,
{
    assert(pow10(0) == 1);
    assert(pow10(1) == 10);
    assert(pow10(2) == 100);
    assert(pow10(3) == 1000);
    assert(pow10(4) == 10000);
    assert(pow10(5) == 100_000);
    assert(pow10(6) == 1_000_000);
    assert(pow10(7) == 10_000_000);
    assert(pow10(8) == 100_000_000);
    assert(pow10(9) == 1_000_000_000);
    assert(pow10(10) == 10_000_000_000);
    assert(pow10(11) == 100_000_000_000);
    assert(pow10(12) == 1_000_000_000_000);
    assert(pow10(13) == 10_000_000_000_000);
    assert(pow10(14) == 100_000_000_000_000);
    assert(pow10(15) == 1_000_000_000_000_000);
    assert(pow10(16) == 10_000_000_000_000_000);
    assert(pow10(17) == 100_000_000_000_000_000);
    assert(pow10(18) == 1_000_000_000_000_000_000);
    assert(pow10(19) == 10_000_000_000_000_000_000);
}

/// A run of `k` digits is worth less than ten to the `k`.
pub proof fn lemma_digits_val_bound(t: Seq<char>)
    requires
        all_digits(t),
    ensures
        digits_val(t) < pow10(t.len()),
    decreases t.len(),
{
    if t.len() > 0 {
        assert(all_digits(t.drop_last()));
        lemma_digits_val_bound(t.drop_last());
        assert(is_digit(t.last()));
    }
}

/// Decimal text of a natural number is made of digits.
pub proof fn lemma_dec_of_digits(n: nat)
    ensures
        all_digits(dec_of(n)),
    decreases n,
{
    if n < 10 {
        assert(is_digit(dec_of(n)[0]));
    } else {
        lemma_dec_of_digits(n / 10);
        assert(is_digit(digit_of(n % 10)));
        assert forall|i: int| 0 <= i < dec_of(n).len() implies is_digit(#[trigger] dec_of(n)[i]) by {
            if i < dec_of(n / 10).len() {
                assert(dec_of(n)[i] == dec_of(n / 10)[i]);
            }
        }
    }
}

/// A digit character reads back as its digit.
pub proof fn lemma_digit_val_of(d: nat)
    requires
        d < 10,
    ensures
        digit_val(digit_of(d)) == d,
{
}

/// Reading back the decimal text of a natural number gives the number.
pub proof fn lemma_dec_of_val(n: nat)
    ensures
        digits_val(dec_of(n)) == n,
    decreases n,
{
    if n < 10 {
        lemma_digit_val_of(n);
        assert(digits_val(Seq::<char>::empty()) == 0);
        assert(dec_of(n).drop_last() =~= Seq::<char>::empty());
        assert(dec_of(n).last() == digit_of(n));
        assert(digits_val(dec_of(n)) == digits_val(dec_of(n).drop_last()) * 10 + digit_val(
            dec_of(n).last(),
        ));
    } else {
        lemma_dec_of_val(n / 10);
        lemma_digit_val_of(n % 10);
        let t = dec_of(n);
        assert(t.drop_last() =~= dec_of(n / 10));
        assert(t.last() == digit_of(n % 10));
        assert(digits_val(t) == (n / 10) * 10 + n % 10);
        vstd::arithmetic::div_mod::lemma_fundamental_div_mod(n as int, 10);
    }
}

/// A natural number below ten to the `k` takes between one and `k` decimal
/// digits.
pub proof fn lemma_dec_of_len(n: nat, k: nat)
    requires
        1 <= k,
        n < pow10(k),
    ensures
        1 <= dec_of(n).len() <= k,
    decreases n,
{
    if n < 10 {
    } else {
        assert(k >= 2) by {
            if k == 1 {
                assert(pow10(1) == 10 * pow10(0));
            }
        }
        assert(pow10(k) == 10 * pow10((k - 1) as nat));
        assert(n / 10 < pow10((k - 1) as nat)) by {
            vstd::arithmetic::div_mod::lemma_fundamental_div_mod(n as int, 10);
        }
        lemma_dec_of_len(n / 10, (k - 1) as nat);
    }
}

/// Rounds `n / d` to the nearest integer, ties to the even neighbour.
pub fn div_round_nearest_even(n: u128, d: u128) -> (r: u128)
    requires
        1 <= d <= 10_000_000_000_000_000_000,
        n <= 100_000_000_000_000_000_000_000,
    ensures
        r == round_nearest_even(n as nat, d as nat),
{
    let q = n / d;
    let rem = n % d;
    proof {
        vstd::arithmetic::div_mod::lemma_div_is_ordered_by_denominator(n as int, 1, d as int);
    }
    if 2 * rem < d {
        q
    } else if 2 * rem > d {
        q + 1
    } else if q % 2 == 0 {
        q
    } else {
        q + 1
    }
}

/// Renders a natural number as decimal text.
pub fn u128_to_dec(n: u128) -> (r: String)
    ensures
        r@ == dec_of(n as nat),
    decreases n,
{
    if n < 10 {
        String::from_str(digit_to_str(n))
    } else {
        proof {
            vstd::arithmetic::div_mod::lemma_div_decreases(n as int, 10);
        }
        let mut s = u128_to_dec(n / 10);
        s.append(digit_to_str(n % 10));
        s
    }
}

} // verus!
