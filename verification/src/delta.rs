//! How far a new cost lies from an old one, as text: the difference in
//! percent and as a factor.
//!
//! Both are ratios of whole numbers and are written from exact integer
//! arithmetic, rounded to the nearest value that the chosen number of digits
//! can show, ties to the even one.

use vstd::prelude::*;
use crate::text::{align_center, decimal, digit_char, push_center, push_decimal};

verus! {

/// Ten to the `n`.
pub open spec fn pow10(n: nat) -> nat
    decreases n,
{
    if n == 0 {
        1
    } else {
        10 * pow10((n - 1) as nat)
    }
}

/// `num / den` rounded to the nearest whole number, a tie to the even one.
pub open spec fn rounded(num: nat, den: nat) -> nat
    recommends
        den > 0,
{
    let q = num / den;
    let r = num % den;
    if 2 * r > den || (2 * r == den && q % 2 == 1) {
        q + 1
    } else {
        q
    }
}

/// How many digits follow the point when `num / den` is written: as many as
/// keep the text at eight characters, sign included, and none from one
/// hundred thousand on.
pub open spec fn places(num: nat, den: nat) -> nat {
    if num < 10 * den {
        5
    } else if num < 100 * den {
        4
    } else if num < 1_000 * den {
        3
    } else if num < 10_000 * den {
        2
    } else if num < 100_000 * den {
        1
    } else {
        0
    }
}

/// The last `width` decimal digits of `n`, with leading zeros.
pub open spec fn zero_padded(n: nat, width: nat) -> Seq<char>
    decreases width,
{
    if width == 0 {
        Seq::empty()
    } else {
        zero_padded(n / 10, (width - 1) as nat).push(digit_char(n % 10))
    }
}

/// The number `scaled / 10^places` written with `places` digits after the
/// point, and without a point if there are none.
pub open spec fn fixed(scaled: nat, places: nat) -> Seq<char> {
    if places == 0 {
        decimal(scaled)
    } else {
        decimal(scaled / pow10(places)) + seq!['.'] + zero_padded(scaled % pow10(places), places)
    }
}

/// The decimal exponent of `num / den`, for a ratio of at least one: the
/// number of digits before the point, less one.
pub open spec fn exponent(num: nat, den: nat) -> nat
    decreases num - den,
{
    if den == 0 || num < 10 * den {
        0
    } else {
        1 + exponent(num, 10 * den)
    }
}

/// `num / den` written with one digit and a power of ten, as in `3e7`.
pub open spec fn scientific(num: nat, den: nat) -> Seq<char> {
    let e = exponent(num, den);
    let m = rounded(num, den * pow10(e));
    if m >= 10 {
        seq!['1', 'e'] + decimal(e + 1)
    } else {
        decimal(m) + seq!['e'] + decimal(e)
    }
}

/// The ratio `num / den` as text: below one million with the digits after the
/// point that `places` gives, from one million on with a power of ten.
pub open spec fn magnitude(num: nat, den: nat) -> Seq<char>
    recommends
        den > 0,
{
    if num >= 1_000_000 * den {
        scientific(num, den)
    } else {
        fixed(rounded(num * pow10(places(num, den)), den), places(num, den))
    }
}

/// The sign that every difference is written with.
pub open spec fn sign_char(negative: bool) -> char {
    if negative {
        '-'
    } else {
        '+'
    }
}

/// A signed ratio as a field of nine characters: the signed text in the
/// middle of eight, then the unit. A ratio with denominator zero is infinite
/// and fills the field with its sign around `inf`.
pub open spec fn ratio_field(negative: bool, num: nat, den: nat, unit: char) -> Seq<char> {
    if den == 0 {
        if negative {
            "---inf---"@
        } else {
            "+++inf+++"@
        }
    } else {
        align_center(seq![sign_char(negative)] + magnitude(num, den), 8).push(unit)
    }
}

/// The distance between two costs.
pub open spec fn distance(new_cost: u64, old_cost: u64) -> nat {
    if new_cost >= old_cost {
        (new_cost - old_cost) as nat
    } else {
        (old_cost - new_cost) as nat
    }
}

/// The difference of `new` from `old` in percent, `(new - old) / old * 100`,
/// as a field: positive where the cost grew, infinite where it grew from
/// zero.
pub open spec fn percentage_field(new_cost: u64, old_cost: u64) -> Seq<char> {
    ratio_field(new_cost < old_cost, distance(new_cost, old_cost) * 100, old_cost as nat, '%')
}

/// The factor between `new` and `old` as a field: `new / old` where the cost
/// grew, else `old / new` with a minus sign, so never between minus one and
/// one; infinite where the smaller cost is zero.
pub open spec fn factor_field(new_cost: u64, old_cost: u64) -> Seq<char> {
    if new_cost >= old_cost {
        ratio_field(false, new_cost as nat, old_cost as nat, 'x')
    } else {
        ratio_field(true, old_cost as nat, new_cost as nat, 'x')
    }
}

/// The largest numerator that the fields above are written from.
pub open spec fn max_numerator() -> nat {
    100 * 0xffff_ffff_ffff_ffff
}

fn round_div(num: u128, den: u128) -> (r: u128)
    requires
        den > 0,
        num <= 100_000 * max_numerator(),
    ensures
        r == rounded(num as nat, den as nat),
{
    let q: u128 = num / den;
    let r: u128 = num % den;
    if r > den - r || (r == den - r && q % 2 == 1) {
        q + 1
    } else {
        q
    }
}

fn push_zero_padded(out: &mut String, n: u128, width: u8)
    ensures
        final(out)@ == old(out)@ + zero_padded(n as nat, width as nat),
    decreases width,
{
    if width == 0 {
        assert(out@ =~= old(out)@ + zero_padded(n as nat, 0));
    } else {
        push_zero_padded(out, n / 10, width - 1);
        push_decimal(out, n % 10);
        assert(decimal((n % 10) as nat) =~= seq![digit_char((n % 10) as nat)]);
        assert(out@ =~= old(out)@ + zero_padded(n as nat, width as nat));
    }
}

fn push_fixed(out: &mut String, scaled: u128, unit: u128, digits: u8)
    requires
        unit == pow10(digits as nat),
    ensures
        final(out)@ == old(out)@ + fixed(scaled as nat, digits as nat),
{
    if digits == 0 {
        push_decimal(out, scaled);
    } else {
        proof {
            lemma_pow10_monotonic(0, digits as nat);
        }
        push_decimal(out, scaled / unit);
        proof {
            reveal_strlit(".");
        }
        out.append(".");
        push_zero_padded(out, scaled % unit, digits);
        assert(out@ =~= old(out)@ + fixed(scaled as nat, digits as nat)) by {
            assert("."@ =~= seq!['.']);
        }
    }
}

fn push_scientific(out: &mut String, num: u128, den: u128)
    requires
        den > 0,
        num <= max_numerator(),
    ensures
        final(out)@ == old(out)@ + scientific(num as nat, den as nat),
{
    let mut d: u128 = den;
    let mut e: u128 = 0;
    assert(pow10(0) == 1);
    assert(den * 1 == den);
    while d <= num / 10
        invariant
            0 < den,
            0 < d,
            num <= max_numerator(),
            e <= 21,
            d == den * pow10(e as nat),
            pow10(e as nat) <= d,
            exponent(num as nat, den as nat) == e + exponent(num as nat, d as nat),
        decreases num - d,
    {
        assert(pow10((e + 1) as nat) == 10 * pow10(e as nat));
        assert(10 * (den * pow10(e as nat)) == den * (10 * pow10(e as nat))) by (nonlinear_arith);
        assert(e < 21) by {
            if e >= 21 {
                lemma_pow10_monotonic(21, e as nat);
                lemma_pow10_large();
            }
        }
        assert(exponent(num as nat, d as nat) == 1 + exponent(num as nat, (10 * d) as nat));
        d = d * 10;
        e = e + 1;
    }
    assert(exponent(num as nat, d as nat) == 0);
    let m: u128 = round_div(num, d);
    proof {
        reveal_strlit("1e");
        reveal_strlit("e");
    }
    if m >= 10 {
        out.append("1e");
        push_decimal(out, e + 1);
        assert(out@ =~= old(out)@ + scientific(num as nat, den as nat)) by {
            assert("1e"@ =~= seq!['1', 'e']);
        }
    } else {
        push_decimal(out, m);
        out.append("e");
        push_decimal(out, e);
        assert(out@ =~= old(out)@ + scientific(num as nat, den as nat)) by {
            assert("e"@ =~= seq!['e']);
        }
    }
}

proof fn lemma_pow10_large()
    ensures
        10 * pow10(21) > max_numerator(),
{
    reveal_with_fuel(pow10, 22);
}

proof fn lemma_pow10_monotonic(a: nat, b: nat)
    requires
        a <= b,
    ensures
        0 < pow10(a) <= pow10(b),
    decreases b,
{
    if a < b {
        lemma_pow10_monotonic(a, (b - 1) as nat);
    } else if a > 0 {
        lemma_pow10_monotonic((a - 1) as nat, (b - 1) as nat);
    }
}

fn push_magnitude(out: &mut String, num: u128, den: u128)
    requires
        den > 0,
        den <= u64::MAX,
        num <= max_numerator(),
    ensures
        final(out)@ == old(out)@ + magnitude(num as nat, den as nat),
{
    proof {
        reveal_with_fuel(pow10, 6);
        assert(pow10(0) == 1);
        assert(pow10(1) == 10);
        assert(pow10(2) == 100);
        assert(pow10(3) == 1_000);
        assert(pow10(4) == 10_000);
        assert(pow10(5) == 100_000);
    }
    if num >= 1_000_000 * den {
        push_scientific(out, num, den);
    } else {
        let (unit, digits): (u128, u8) = if num < 10 * den {
            (100_000, 5)
        } else if num < 100 * den {
            (10_000, 4)
        } else if num < 1_000 * den {
            (1_000, 3)
        } else if num < 10_000 * den {
            (100, 2)
        } else if num < 100_000 * den {
            (10, 1)
        } else {
            (1, 0)
        };
        assert(digits == places(num as nat, den as nat));
        assert(unit == pow10(digits as nat));
        assert(num * unit <= 100_000 * max_numerator()) by (nonlinear_arith)
            requires
                num <= max_numerator(),
                unit <= 100_000,
        ;
        push_fixed(out, round_div(num * unit, den), unit, digits);
    }
}

fn push_ratio_field(out: &mut String, negative: bool, num: u128, den: u128, unit: char)
    requires
        den <= u64::MAX,
        num <= max_numerator(),
        unit == '%' || unit == 'x',
    ensures
        final(out)@ == old(out)@ + ratio_field(negative, num as nat, den as nat, unit),
{
    if den == 0 {
        if negative {
            out.append("---inf---");
        } else {
            out.append("+++inf+++");
        }
    } else {
        let mut text = String::new();
        proof {
            reveal_strlit("-");
            reveal_strlit("+");
            reveal_strlit("%");
            reveal_strlit("x");
        }
        if negative {
            text.append("-");
        } else {
            text.append("+");
        }
        push_magnitude(&mut text, num, den);
        assert(text@ =~= seq![sign_char(negative)] + magnitude(num as nat, den as nat));
        push_center(out, text.as_str(), 8);
        if unit == '%' {
            out.append("%");
        } else {
            out.append("x");
        }
        assert(out@ =~= old(out)@ + ratio_field(negative, num as nat, den as nat, unit));
    }
}

/// Appends the difference of `new` from `old` in percent.
pub fn push_percentage(out: &mut String, new_cost: u64, old_cost: u64)
    ensures
        final(out)@ == old(out)@ + percentage_field(new_cost, old_cost),
{
    let d: u64 = if new_cost >= old_cost {
        new_cost - old_cost
    } else {
        old_cost - new_cost
    };
    push_ratio_field(out, new_cost < old_cost, d as u128 * 100, old_cost as u128, '%');
}

/// Appends the factor between `new` and `old`.
pub fn push_factor(out: &mut String, new_cost: u64, old_cost: u64)
    ensures
        final(out)@ == old(out)@ + factor_field(new_cost, old_cost),
{
    if new_cost >= old_cost {
        push_ratio_field(out, false, new_cost as u128, old_cost as u128, 'x');
    } else {
        push_ratio_field(out, true, old_cost as u128, new_cost as u128, 'x');
    }
}

} // verus!
