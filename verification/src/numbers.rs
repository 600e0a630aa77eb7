//! Integer notions that the contracts speak of: absolute value, greatest
//! common divisor and decimal notation.

use vstd::prelude::*;
use vstd::arithmetic::div_mod::{lemma_div_multiples_vanish, lemma_fundamental_div_mod};

verus! {

/// The absolute value of an integer.
pub open spec fn magnitude(x: int) -> nat {
    if x < 0 {
        (-x) as nat
    } else {
        x as nat
    }
}

/// The greatest common divisor of two natural numbers, by Euclid's
/// recursion; the divisor of zero and zero is zero.
pub open spec fn gcd_of(a: nat, b: nat) -> nat
    decreases b,
{
    if b == 0 {
        a
    } else {
        gcd_of(b, a % b)
    }
}

/// Whether `d` divides `n`.
pub open spec fn divides(d: int, n: int) -> bool {
    exists|k: int| n == #[trigger] (d * k)
}

/// The value of `gcd_of` divides both numbers.
pub proof fn lemma_gcd_divides(a: nat, b: nat)
    ensures
        divides(gcd_of(a, b) as int, a as int),
        divides(gcd_of(a, b) as int, b as int),
    decreases b,
{
    let g = gcd_of(a, b) as int;
    if b == 0 {
        assert(a == g * 1);
        assert(0 == g * 0);
    } else {
        lemma_gcd_divides(b, a % b);
        let k1 = choose|k: int| b as int == #[trigger] (g * k);
        let k2 = choose|k: int| (a % b) as int == #[trigger] (g * k);
        lemma_fundamental_div_mod(a as int, b as int);
        let q = a as int / b as int;
        assert(a as int == g * (k1 * q + k2)) by (nonlinear_arith)
            requires
                a as int == b as int * q + (a % b) as int,
                b as int == g * k1,
                (a % b) as int == g * k2,
        ;
    }
}

/// Every common divisor of two numbers divides the value of `gcd_of`, which
/// is therefore the greatest of them.
pub proof fn lemma_gcd_greatest(a: nat, b: nat, e: int)
    requires
        divides(e, a as int),
        divides(e, b as int),
    ensures
        divides(e, gcd_of(a, b) as int),
    decreases b,
{
    if b != 0 {
        let m = choose|k: int| a as int == #[trigger] (e * k);
        let n = choose|k: int| b as int == #[trigger] (e * k);
        lemma_fundamental_div_mod(a as int, b as int);
        let q = a as int / b as int;
        assert((a % b) as int == e * (m - n * q)) by (nonlinear_arith)
            requires
                a as int == b as int * q + (a % b) as int,
                a as int == e * m,
                b as int == e * n,
        ;
        lemma_gcd_greatest(b, a % b, e);
    }
}

/// The value of `gcd_of` is no larger than the larger of the two numbers.
pub proof fn lemma_gcd_at_most(a: nat, b: nat)
    ensures
        gcd_of(a, b) <= a || gcd_of(a, b) <= b,
    decreases b,
{
    if b != 0 {
        lemma_gcd_at_most(b, a % b);
    }
}

/// The greatest common divisor of any number and one is one.
pub proof fn lemma_gcd_with_one(a: nat)
    ensures
        gcd_of(a, 1) == 1,
{
    reveal_with_fuel(gcd_of, 3);
    assert(a % 1 == 0);
}

/// Whether `n / d` is a fraction in lowest terms with a positive denominator.
pub open spec fn is_reduced(n: int, d: int) -> bool {
    d > 0 && gcd_of(magnitude(n), d as nat) == 1
}

/// The numerator and the denominator of `n / d` in lowest terms, for a
/// positive `d`.
pub open spec fn reduced(n: int, d: int) -> (int, int) {
    (n / (gcd_of(magnitude(n), d as nat) as int), d / (gcd_of(magnitude(n), d as nat) as int))
}

/// A divisor of a divisor of a number divides that number.
pub proof fn lemma_divides_transitive(a: int, b: int, c: int)
    requires
        divides(a, b),
        divides(b, c),
    ensures
        divides(a, c),
{
    let k1 = choose|k: int| b == #[trigger] (a * k);
    let k2 = choose|k: int| c == #[trigger] (b * k);
    assert(c == a * (k1 * k2)) by (nonlinear_arith)
        requires
            b == a * k1,
            c == b * k2,
    ;
}

/// A number divides another exactly where it divides its absolute value.
pub proof fn lemma_divides_magnitude(d: int, n: int)
    ensures
        divides(d, n) <==> divides(d, magnitude(n) as int),
{
    if divides(d, n) {
        let k = choose|k: int| n == #[trigger] (d * k);
        if n < 0 {
            assert(magnitude(n) as int == d * (-k)) by (nonlinear_arith)
                requires
                    n == d * k,
                    magnitude(n) as int == -n,
            ;
        }
    }
    if divides(d, magnitude(n) as int) {
        let k = choose|k: int| magnitude(n) as int == #[trigger] (d * k);
        if n < 0 {
            assert(n == d * (-k)) by (nonlinear_arith)
                requires
                    magnitude(n) as int == d * k,
                    magnitude(n) as int == -n,
            ;
        }
    }
}

/// A natural number that divides one is one.
pub proof fn lemma_divisor_of_one(g: nat)
    requires
        divides(g as int, 1),
    ensures
        g == 1,
{
    let k = choose|k: int| 1 == #[trigger] (g as int * k);
    assert(g == 1) by (nonlinear_arith)
        requires
            1 == g as int * k,
            g >= 0,
    ;
}

/// Adding a multiple of the denominator to the numerator keeps a fraction
/// in lowest terms.
pub proof fn lemma_reduced_plus_integer(a: int, b: int, c: int)
    requires
        is_reduced(a, b),
    ensures
        is_reduced(a + b * c, b),
{
    let g = gcd_of(magnitude(a + b * c), b as nat);
    lemma_gcd_divides(magnitude(a + b * c), b as nat);
    lemma_divides_magnitude(g as int, a + b * c);
    let k1 = choose|k: int| b == #[trigger] (g as int * k);
    let k2 = choose|k: int| a + b * c == #[trigger] (g as int * k);
    assert(a == g as int * (k2 - k1 * c)) by (nonlinear_arith)
        requires
            b == g as int * k1,
            a + b * c == g as int * k2,
    ;
    lemma_divides_magnitude(g as int, a);
    lemma_gcd_greatest(magnitude(a), b as nat, g as int);
    lemma_divisor_of_one(g);
}

/// For a positive `d`, the greatest common divisor of `n` and `d` is
/// positive, divides both without remainder, and leaves a fraction in lowest
/// terms that equals `n / d`.
pub proof fn lemma_reduced_is_reduced(n: int, d: int)
    requires
        d > 0,
    ensures
        gcd_of(magnitude(n), d as nat) > 0,
        n == reduced(n, d).0 * gcd_of(magnitude(n), d as nat),
        d == reduced(n, d).1 * gcd_of(magnitude(n), d as nat),
        is_reduced(reduced(n, d).0, reduced(n, d).1),
{
    let g = gcd_of(magnitude(n), d as nat) as int;
    lemma_gcd_divides(magnitude(n), d as nat);
    lemma_divides_magnitude(g, n);
    let kn = choose|k: int| n == #[trigger] (g * k);
    let kd = choose|k: int| d == #[trigger] (g * k);
    assert(g > 0 && kd > 0) by (nonlinear_arith)
        requires
            d == g * kd,
            d > 0,
            g >= 0,
    ;
    lemma_div_multiples_vanish(kn, g);
    lemma_div_multiples_vanish(kd, g);
    let n1 = reduced(n, d).0;
    let d1 = reduced(n, d).1;
    assert(n1 == kn && d1 == kd);
    assert(n == n1 * g && d == d1 * g) by (nonlinear_arith)
        requires
            n == g * kn,
            d == g * kd,
            n1 == kn,
            d1 == kd,
    ;
    let h = gcd_of(magnitude(n1), d1 as nat) as int;
    lemma_gcd_divides(magnitude(n1), d1 as nat);
    lemma_divides_magnitude(h, n1);
    let u = choose|k: int| n1 == #[trigger] (h * k);
    let v = choose|k: int| d1 == #[trigger] (h * k);
    assert(n == (g * h) * u && d == (g * h) * v) by (nonlinear_arith)
        requires
            n == g * n1,
            d == g * d1,
            n1 == h * u,
            d1 == h * v,
    ;
    lemma_divides_magnitude(g * h, n);
    lemma_gcd_greatest(magnitude(n), d as nat, g * h);
    let w = choose|k: int| g == #[trigger] ((g * h) * k);
    assert(1 == h * w) by (nonlinear_arith)
        requires
            g == (g * h) * w,
            g > 0,
    ;
    lemma_divisor_of_one(h as nat);
}

/// The `n`-th power of `x`.
pub open spec fn power(x: int, n: nat) -> int
    decreases n,
{
    if n == 0 {
        1
    } else {
        x * power(x, (n - 1) as nat)
    }
}

/// The sum of the terms `s[i] * x^i`: the value at `x` of the polynomial
/// with the integer coefficients `s`.
pub open spec fn power_sum(s: Seq<int>, x: int) -> int
    decreases s.len(),
{
    if s.len() == 0 {
        0
    } else {
        power_sum(s.drop_last(), x) + s.last() * power(x, (s.len() - 1) as nat)
    }
}

/// The sum of powers, taken apart at its constant term.
pub proof fn lemma_power_sum_shift(s: Seq<int>, x: int)
    requires
        s.len() > 0,
    ensures
        power_sum(s, x) == s[0] + x * power_sum(s.skip(1), x),
    decreases s.len(),
{
    if s.len() == 1 {
        assert(s.drop_last().len() == 0);
        assert(s.skip(1).len() == 0);
        assert(power_sum(s.drop_last(), x) == 0);
        assert(power_sum(s.skip(1), x) == 0);
        assert(power(x, 0) == 1);
        assert(x * 0 == 0);
        assert(s.last() * 1 == s[0]);
    } else {
        let n = s.len();
        lemma_power_sum_shift(s.drop_last(), x);
        assert(s.skip(1).drop_last() == s.drop_last().skip(1));
        let inner = power_sum(s.drop_last().skip(1), x);
        let high = power(x, (n - 2) as nat);
        assert(power(x, (n - 1) as nat) == x * high);
        assert(power_sum(s.skip(1), x) == inner + s.last() * high);
        assert(x * (inner + s.last() * high) == x * inner + s.last() * (x * high)) by (nonlinear_arith);
    }
}

/// The character of a decimal digit.
pub open spec fn digit(d: nat) -> char {
    if d == 0 {
        '0'
    } else if d == 1 {
        '1'
    } else if d == 2 {
        '2'
    } else if d == 3 {
        '3'
    } else if d == 4 {
        '4'
    } else if d == 5 {
        '5'
    } else if d == 6 {
        '6'
    } else if d == 7 {
        '7'
    } else if d == 8 {
        '8'
    } else {
        '9'
    }
}

/// The decimal digits of a natural number, without leading zeros.
pub open spec fn decimal_nat(n: nat) -> Seq<char>
    decreases n,
{
    if n < 10 {
        seq![digit(n)]
    } else {
        decimal_nat(n / 10).push(digit(n % 10))
    }
}

/// The decimal notation of an integer: a minus sign before the digits of a
/// negative number.
pub open spec fn decimal(x: int) -> Seq<char> {
    if x < 0 {
        seq!['-'] + decimal_nat((-x) as nat)
    } else {
        decimal_nat(x as nat)
    }
}

} // verus!
