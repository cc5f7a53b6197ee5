//! Rounding, fractions, and figures for people to read.
//!
//! Figures are shown with a few decimals. They are the ones that come out of
//! double-precision arithmetic: whole numbers are rounded to the nearest
//! double, and so are their quotient and every product; the last result is
//! rounded to the decimals that are shown. Every rounding goes to the nearest,
//! and to the even one of two that are equally near.

use vstd::prelude::*;
use vstd::string::*;
use vstd::arithmetic::power2::{
    lemma2_to64, lemma2_to64_rest, lemma_pow2_strictly_increases, lemma_pow2_unfold, pow2,
};

use crate::size::{GIB, MIB, TIB};
use crate::text::{dec, decimal, decimal_wide};

verus! {

/// `n / d` rounded to the nearest whole number, a tie to the even one.
pub open spec fn round_half_even(n: nat, d: nat) -> nat {
    let q = n / d;
    let r = n % d;
    if 2 * r < d || (2 * r == d && q % 2 == 0) {
        q
    } else {
        q + 1
    }
}

/// `n / d` rounded to the nearest whole number, a tie to the even one.
pub fn rounded(n: u128, d: u128) -> (r: u128)
    requires
        0 < d <= 0x8000_0000_0000_0000_0000_0000_0000_0000,
        n < u128::MAX,
    ensures
        r == round_half_even(n as nat, d as nat),
        r <= n / d + 1,
{
    let q: u128 = n / d;
    let rest: u128 = n % d;
    proof {
        assert(q <= n) by (nonlinear_arith)
            requires
                q == n / d,
                d > 0,
        ;
    }
    let other: u128 = d - rest;
    if rest < other || (rest == other && q % 2 == 0) {
        q
    } else {
        q + 1
    }
}

/// The distance between neighbouring doubles around `n`.
pub open spec fn granule(n: nat) -> nat
    decreases n,
{
    if n < 0x20_0000_0000_0000 {
        1
    } else {
        2 * granule(n / 2)
    }
}

/// The double nearest to `n`.
pub open spec fn nearest_double(n: nat) -> nat {
    round_half_even(n, granule(n)) * granule(n)
}

/// The distance between neighbouring doubles around `n`.
fn granule_of(n: u128) -> (r: u128)
    ensures
        r == granule(n as nat),
        1 <= r,
        r * 0x10_0000_0000_0000 <= n || r == 1,
    decreases n,
{
    if n < 0x20_0000_0000_0000 {
        1
    } else {
        let half: u128 = granule_of(n / 2);
        half * 2
    }
}

/// The double nearest to `n`.
fn double_of(n: u128) -> (r: u128)
    requires
        n <= 0x1000_0000_0000_0000_0000_0000_0000_0000,
    ensures
        r == nearest_double(n as nat),
        r <= 2 * n + 1,
        n > 0 ==> r > 0,
{
    let g: u128 = granule_of(n);
    let q: u128 = rounded(n, g);
    proof {
        let a = n as int / g as int;
        assert(a * g <= n < a * g + g) by (nonlinear_arith)
            requires
                a == n as int / g as int,
                g > 0,
        ;
        assert(q * g <= (a + 1) * g) by (nonlinear_arith)
            requires
                q <= a + 1,
                g > 0,
        ;
        assert((a + 1) * g == a * g + g) by (nonlinear_arith);
        if n > 0 {
            assert(a >= 1) by (nonlinear_arith)
                requires
                    a == n as int / g as int,
                    g > 0,
                    n >= g,
            ;
            assert(q * g >= g) by (nonlinear_arith)
                requires
                    q >= 1,
                    g > 0,
            ;
        }
    }
    q * g
}

/// The double nearest to `n / d`, as a fraction whose denominator is a power
/// of two.
pub open spec fn quotient(n: nat, d: nat) -> (nat, nat)
    decreases
            if n < d * 0x10_0000_0000_0000 {
                d * 0x10_0000_0000_0000 - n
            } else {
                0
            },
{
    if n == 0 || d == 0 {
        (0, 1)
    } else if n < d * 0x10_0000_0000_0000 {
        let (a, b) = quotient(2 * n, d);
        (a, 2 * b)
    } else {
        let g = granule(n / d);
        (round_half_even(n, d * g) * g, 1)
    }
}

/// The double nearest to `n / d`, as a fraction whose denominator is a power
/// of two.
fn divide(n: u128, d: u128) -> (r: (u128, u128))
    requires
        n <= 0x4_0000_0000_0000_0000,
        0 < d <= 0x4_0000_0000_0000_0000,
    ensures
        (r.0 as nat, r.1 as nat) == quotient(n as nat, d as nat),
        r.0 <= 0x10_0000_0000_0000_0000,
        1 <= r.1 <= 0x100_0000_0000_0000_0000_0000_0000_0000,
{
    if n == 0 {
        return (0, 1);
    }
    let mut m: u128 = n;
    let mut b: u128 = 1;
    let ghost q = quotient(n as nat, d as nat);
    while m < d * 0x10_0000_0000_0000
        invariant
            1 <= b <= m,
            m <= 0x4_0000_0000_0000_0000 || m < 2 * d * 0x10_0000_0000_0000,
            0 < d <= 0x4_0000_0000_0000_0000,
            q.0 == quotient(m as nat, d as nat).0,
            q.1 == quotient(m as nat, d as nat).1 * b,
        decreases
                if m < d * 0x10_0000_0000_0000 {
                    d * 0x10_0000_0000_0000 - m
                } else {
                    0
                },
    {
        proof {
            let y = quotient((2 * m) as nat, d as nat).1;
            assert((2 * y) * b == y * (2 * b)) by (nonlinear_arith);
        }
        m = m * 2;
        b = b * 2;
    }
    let g: u128 = granule_of(m / d);
    let ghost x = m as int / d as int;
    proof {
        assert(x * d <= m < x * d + d) by (nonlinear_arith)
            requires
                x == m as int / d as int,
                d > 0,
        ;
        assert(x >= 0x10_0000_0000_0000) by (nonlinear_arith)
            requires
                x == m as int / d as int,
                d > 0,
                m >= d * 0x10_0000_0000_0000,
        ;
        assert(d * g <= d * x) by (nonlinear_arith)
            requires
                g <= x,
                d > 0,
        ;
        assert(d * x == x * d) by (nonlinear_arith);
        assert(0 < d * g) by (nonlinear_arith)
            requires
                d > 0,
                g > 0,
        ;
        assert(x <= 0x4_0000_0000_0000_0000) by (nonlinear_arith)
            requires
                x * d <= m,
                d > 0,
                m <= 0x4_0000_0000_0000_0000 || m < 2 * d * 0x10_0000_0000_0000,
        ;
    }
    let w: u128 = rounded(m, d * g);
    proof {
        let y = m as int / (d * g);
        assert(y * g <= x) by (nonlinear_arith)
            requires
                y == m as int / (d * g),
                x == m as int / d as int,
                d > 0,
                g > 0,
        ;
        assert(w * g <= (y + 1) * g) by (nonlinear_arith)
            requires
                w <= y + 1,
                g > 0,
        ;
        assert((y + 1) * g == y * g + g) by (nonlinear_arith);
    }
    assert(q.0 == round_half_even(m as nat, (d * g) as nat) * g && q.1 == b);
    (w * g, b)
}

/// A quotient with a denominator other than one has a numerator of 53 bits.
proof fn lemma_quotient_small(n: nat, d: nat)
    ensures
        quotient(n, d).1 >= 1,
        quotient(n, d).1 > 1 ==> quotient(n, d).0 <= 0x20_0000_0000_0000,
    decreases
            if n < d * 0x10_0000_0000_0000 {
                d * 0x10_0000_0000_0000 - n
            } else {
                0
            },
{
    if n > 0 && d > 0 && n < d * 0x10_0000_0000_0000 {
        lemma_quotient_small(2 * n, d);
        if 2 * n >= d * 0x10_0000_0000_0000 {
            let m = 2 * n;
            let x = m / d;
            assert(x < 0x20_0000_0000_0000) by (nonlinear_arith)
                requires
                    x == m / d,
                    d > 0,
                    m < d * 0x20_0000_0000_0000,
            ;
            assert(granule(x) == 1);
            let g = granule(x);
            assert(d * g == d && round_half_even(m, d) * g == round_half_even(m, d))
                by (nonlinear_arith)
                requires
                    g == 1,
            ;
            assert(quotient(m, d).0 == round_half_even(m, d));
        } else {
            assert(quotient(2 * n, d).1 == 2 * quotient(4 * n, d).1);
            lemma_quotient_small(4 * n, d);
        }
    }
}

proof fn lemma_small_is_exact(n: nat)
    requires
        n < 0x20_0000_0000_0000,
    ensures
        nearest_double(n) == n,
{
    assert(granule(n) == 1);
    assert(n / 1 == n && n % 1 == 0);
}

/// The shape of a quotient of at most one.
proof fn lemma_quotient_shape(n: nat, d: nat)
    requires
        0 < n <= d,
    ensures
        ({
            let (a, b) = quotient(n, d);
            &&& exists|k: nat| b == pow2(k)
            &&& d * 0x10_0000_0000_0000 <= n * b < d * 0x20_0000_0000_0000
            &&& a == round_half_even(n * b, d)
        }),
{
    lemma_quotient_shape_from(n, d);
}

/// The shape of the quotient `m / d`, where `m` is smaller than it has to be.
proof fn lemma_quotient_shape_from(m: nat, d: nat)
    requires
        0 < m < d * 0x20_0000_0000_0000,
        d > 0,
    ensures
        ({
            let (a, c) = quotient(m, d);
            &&& exists|k: nat| c == pow2(k)
            &&& d * 0x10_0000_0000_0000 <= m * c < d * 0x20_0000_0000_0000
            &&& a == round_half_even(m * c, d)
        }),
    decreases
            if m < d * 0x10_0000_0000_0000 {
                d * 0x10_0000_0000_0000 - m
            } else {
                0
            },
{
    if m < d * 0x10_0000_0000_0000 {
        lemma_quotient_shape_from(2 * m, d);
        let c = quotient(2 * m, d).1;
        let k = choose|k: nat| c == pow2(k);
        lemma_pow2_unfold(k + 1);
        assert(2 * c == pow2(k + 1));
        assert(m * (2 * c) == (2 * m) * c) by (nonlinear_arith);
    } else {
        let x = m / d;
        assert(x < 0x20_0000_0000_0000) by (nonlinear_arith)
            requires
                x == m / d,
                d > 0,
                m < d * 0x20_0000_0000_0000,
        ;
        let g = granule(x);
        assert(g == 1);
        assert(d * g == d && round_half_even(m, d) * g == round_half_even(m, d))
            by (nonlinear_arith)
            requires
                g == 1,
        ;
        assert(m * 1 == m);
        lemma2_to64();
        assert(1 == pow2(0));
    }
}

/// A share of whole numbers reaches a number of hundredths as doubles exactly
/// when it does as fractions, unless the numbers are enormous. `m / 2^53` is the
/// double nearest to `p / 100`, and below it.
pub proof fn lemma_hundredths(n: u64, d: u64, p: nat, m: nat)
    requires
        0 < d <= 0x2000_0000_0000,
        n <= d,
        50 < p < 100,
        m * 100 <= p * 0x20_0000_0000_0000 < m * 100 + 100,
    ensures
        (Fraction { num: n, den: d }).at_least(m) <==> n * 100 >= d * p,
{
    let f = Fraction { num: n, den: d };
    let (n, d) = (n as nat, d as nat);
    lemma_small_is_exact(n);
    lemma_small_is_exact(d);
    assert(f.double() == quotient(n, d));
    if n == 0 {
        assert(d * p > 0) by (nonlinear_arith)
            requires
                d > 0,
                p > 0,
        ;
        assert(quotient(n, d).0 == 0 && quotient(n, d).1 == 1);
        assert(m * 1 > 0);
    } else {
        lemma_quotient_shape(n, d);
        let (a, b) = quotient(n, d);
        let k = choose|k: nat| b == pow2(k);
        lemma2_to64_rest();
        if n < d && k <= 52 {
            if k < 52 {
                lemma_pow2_strictly_increases(k, 52);
            }
            assert(n * b < d * 0x10_0000_0000_0000) by (nonlinear_arith)
                requires
                    n < d,
                    b <= 0x10_0000_0000_0000,
            ;
        }
        if k > 54 {
            lemma_pow2_strictly_increases(54, k);
        }
        let q = (n * b) / d;
        assert(q * d <= n * b < q * d + d) by (nonlinear_arith)
            requires
                q == (n * b) / d,
                d > 0,
        ;
        if n == d {
            assert(q == b) by (nonlinear_arith)
                requires
                    q == (n * b) / d,
                    n == d,
                    d > 0,
            ;
            assert(a >= b);
            assert(a * 0x20_0000_0000_0000 >= m * b) by (nonlinear_arith)
                requires
                    a >= b,
                    m <= 0x20_0000_0000_0000,
            ;
            assert(n * 100 >= d * p) by (nonlinear_arith)
                requires
                    n == d,
                    p < 100,
            ;
        } else if n * 100 >= d * p {
            assert(k == 53) by {
                if k >= 54 {
                    assert(n * b >= d * 0x20_0000_0000_0000) by (nonlinear_arith)
                        requires
                            n * 100 >= d * p,
                            p > 50,
                            b >= 0x40_0000_0000_0000,
                    ;
                }
            }
            assert(q >= m) by (nonlinear_arith)
                requires
                    n * 0x20_0000_0000_0000 < q * d + d,
                    n * 100 >= d * p,
                    m * 100 <= p * 0x20_0000_0000_0000,
                    d > 0,
            ;
            assert(a * 0x20_0000_0000_0000 >= m * b) by (nonlinear_arith)
                requires
                    a >= q,
                    q >= m,
                    b == 0x20_0000_0000_0000,
            ;
        } else if b == 0x20_0000_0000_0000 {
            assert(q + 1 < m) by (nonlinear_arith)
                requires
                    q * d <= n * 0x20_0000_0000_0000,
                    n * 100 + 1 <= d * p,
                    p * 0x20_0000_0000_0000 < m * 100 + 100,
                    0 < d <= 0x2000_0000_0000,
            ;
            assert(a * 0x20_0000_0000_0000 < m * b) by (nonlinear_arith)
                requires
                    a < m,
                    b == 0x20_0000_0000_0000,
            ;
        } else {
            assert(b >= 0x40_0000_0000_0000);
            assert(a <= 0x20_0000_0000_0000) by {
                assert(q < 0x20_0000_0000_0000) by (nonlinear_arith)
                    requires
                        q * d <= n * b,
                        n * b < d * 0x20_0000_0000_0000,
                        d > 0,
                ;
            }
            assert(a * 0x20_0000_0000_0000 < m * b) by (nonlinear_arith)
                requires
                    a <= 0x20_0000_0000_0000,
                    b >= 0x40_0000_0000_0000,
                    m * 100 + 100 > 50 * 0x20_0000_0000_0000 + 0x20_0000_0000_0000,
            ;
        }
    }
}

/// A fraction of two whole numbers. It stands for the double nearest to the
/// quotient of the doubles nearest to them.
#[derive(Debug, Clone, Copy, PartialEq, Eq, Structural)]
pub struct Fraction {
    pub num: u64,
    pub den: u64,
}

impl Fraction {
    /// The double that the fraction stands for, as a fraction whose
    /// denominator is a power of two.
    pub open spec fn double(self) -> (nat, nat) {
        quotient(nearest_double(self.num as nat), nearest_double(self.den as nat))
    }

    /// The double that the fraction stands for, as a fraction whose
    /// denominator is a power of two.
    fn value(self) -> (r: (u128, u128))
        requires
            self.den > 0,
        ensures
            (r.0 as nat, r.1 as nat) == self.double(),
            r.0 <= 0x10_0000_0000_0000_0000,
            1 <= r.1 <= 0x100_0000_0000_0000_0000_0000_0000_0000,
    {
        divide(double_of(self.num as u128), double_of(self.den as u128))
    }

    /// Whether the double is at least `m / 2^53`.
    pub open spec fn at_least(self, m: nat) -> bool {
        self.double().0 * 0x20_0000_0000_0000 >= m * self.double().1
    }

    /// Whether the double is at least `m / 2^53`.
    pub fn reaches(self, m: u64) -> (r: bool)
        requires
            self.den > 0,
            0x10_0000_0000_0000 <= m <= 0x20_0000_0000_0000,
        ensures
            r == self.at_least(m as nat),
    {
        let (a, b) = self.value();
        let left: u128 = a * 0x20_0000_0000_0000;
        if b > 0x10_0000_0000_0000_0000 {
            proof {
                lemma_quotient_small(
                    nearest_double(self.num as nat),
                    nearest_double(self.den as nat),
                );
                assert(m * b >= 0x10_0000_0000_0000 * b) by (nonlinear_arith)
                    requires
                        m >= 0x10_0000_0000_0000,
                        b >= 0,
                ;
                assert(a <= 0x20_0000_0000_0000);
            }
            return false;
        }
        proof {
            assert(m * b <= 0x20_0000_0000_0000 * 0x10_0000_0000_0000_0000) by (nonlinear_arith)
                requires
                    m <= 0x20_0000_0000_0000,
                    b <= 0x10_0000_0000_0000_0000,
            ;
        }
        left >= m as u128 * b
    }
}

/// `x` tenths, written with one decimal.
pub open spec fn tenths_text(x: nat) -> Seq<char> {
    dec(x / 10) + "."@ + dec(x % 10)
}

/// How many tenths of `unit` the double nearest to `bytes` is.
pub open spec fn tenths(bytes: nat, unit: nat) -> nat {
    round_half_even(nearest_double(bytes) * 10, unit)
}

/// How many tenths of `unit` the double nearest to `bytes` is.
pub fn tenths_of(bytes: u64, unit: u64) -> (r: u128)
    requires
        unit > 0,
    ensures
        r == tenths(bytes as nat, unit as nat),
{
    let d: u128 = double_of(bytes as u128);
    rounded(d * 10, unit as u128)
}

/// A figure in tenths, written with one decimal.
pub fn with_decimal(x: u128) -> (r: String)
    ensures
        r@ == tenths_text(x as nat),
{
    let whole = decimal_wide(x / 10);
    let tenth = decimal_wide(x % 10);
    whole.concat(".").concat(tenth.as_str())
}

/// A size in the largest of the units tebibyte, gibibyte and mebibyte that it
/// reaches, with one decimal; in bytes below.
pub open spec fn size_for_people(bytes: nat) -> Seq<char> {
    if bytes >= TIB {
        tenths_text(tenths(bytes, TIB as nat)) + " TiB"@
    } else if bytes >= GIB {
        tenths_text(tenths(bytes, GIB as nat)) + " GiB"@
    } else if bytes >= MIB {
        tenths_text(tenths(bytes, MIB as nat)) + " MiB"@
    } else {
        dec(bytes) + " B"@
    }
}

/// A size in the largest of the units tebibyte, gibibyte and mebibyte that it
/// reaches, with one decimal; in bytes below.
pub fn format_size(bytes: u64) -> (r: String)
    ensures
        r@ == size_for_people(bytes as nat),
{
    if bytes >= TIB {
        with_decimal(tenths_of(bytes, TIB)).concat(" TiB")
    } else if bytes >= GIB {
        with_decimal(tenths_of(bytes, GIB)).concat(" GiB")
    } else if bytes >= MIB {
        with_decimal(tenths_of(bytes, MIB)).concat(" MiB")
    } else {
        decimal(bytes).concat(" B")
    }
}

/// A fraction in percent, in tenths of a percent.
pub open spec fn percent_tenths(f: Fraction) -> nat {
    round_half_even(nearest_double(f.double().0 * 100) * 10, f.double().1)
}

/// A fraction in percent, with one decimal.
pub fn percent(f: Fraction) -> (r: String)
    requires
        f.den > 0,
    ensures
        r@ == tenths_text(percent_tenths(f)),
{
    let (a, b) = f.value();
    with_decimal(rounded(double_of(a * 100) * 10, b))
}

/// A fraction in whole percent.
pub open spec fn percent_whole(f: Fraction) -> nat {
    round_half_even(nearest_double(f.double().0 * 100), f.double().1)
}

/// A fraction in whole percent.
pub fn whole_percent(f: Fraction) -> (r: String)
    requires
        f.den > 0,
    ensures
        r@ == dec(percent_whole(f)),
{
    let (a, b) = f.value();
    decimal_wide(rounded(double_of(a * 100), b))
}

/// A fraction in tenths.
pub open spec fn fraction_tenths(f: Fraction) -> nat {
    round_half_even(f.double().0 * 10, f.double().1)
}

/// A fraction, with one decimal.
pub fn one_decimal(f: Fraction) -> (r: String)
    requires
        f.den > 0,
    ensures
        r@ == tenths_text(fraction_tenths(f)),
{
    let (a, b) = f.value();
    with_decimal(rounded(a * 10, b))
}

/// A fraction in hundredths.
pub open spec fn fraction_hundredths(f: Fraction) -> nat {
    round_half_even(f.double().0 * 100, f.double().1)
}

/// `x` hundredths, written with two decimals.
pub open spec fn hundredths_text(x: nat) -> Seq<char> {
    dec(x / 100) + "."@ + dec(x / 10 % 10) + dec(x % 10)
}

/// A fraction, with two decimals.
pub fn two_decimals(f: Fraction) -> (r: String)
    requires
        f.den > 0,
    ensures
        r@ == hundredths_text(fraction_hundredths(f)),
{
    let (a, b) = f.value();
    let x: u128 = rounded(a * 100, b);
    let whole = decimal_wide(x / 100);
    let tenth = decimal_wide(x / 10 % 10);
    let hundredth = decimal_wide(x % 10);
    whole.concat(".").concat(tenth.as_str()).concat(hundredth.as_str())
}

/// A text with a figure of one decimal, its `.0` left out.
pub open spec fn without_zero_tenth(x: nat) -> Seq<char> {
    if x % 10 == 0 {
        dec(x / 10)
    } else {
        tenths_text(x)
    }
}

/// Rounding gives a whole number that no other is nearer to; of two that are as near, the
/// even one.
pub proof fn law_rounding_is_to_the_nearest(n: nat, d: nat)
    requires
        d > 0,
    ensures
        ({
            let r = round_half_even(n, d);
            &&& 2 * n <= 2 * (r * d) + d
            &&& 2 * (r * d) <= 2 * n + d
            &&& 2 * n == 2 * (r * d) + d || 2 * (r * d) == 2 * n + d ==> r % 2 == 0
        }),
        n % d == 0 ==> round_half_even(n, d) * d == n,
{
    let q = n / d;
    let r = n % d;
    assert(n == q * d + r && r < d) by {
        vstd::arithmetic::div_mod::lemma_fundamental_div_mod(n as int, d as int);
        assert(d * q == q * d) by (nonlinear_arith);
    }
    assert((q + 1) * d == q * d + d) by (nonlinear_arith);
}

proof fn lemma_whole_tenths(k: nat, unit: nat)
    requires
        unit > 0,
        k * unit < 0x20_0000_0000_0000,
    ensures
        tenths(k * unit, unit) == 10 * k,
        tenths_text(10 * k) == dec(k) + "."@ + dec(0),
{
    lemma_small_is_exact(k * unit);
    let n = k * unit * 10;
    assert(n == unit * (10 * k)) by (nonlinear_arith)
        requires
            n == k * unit * 10,
    ;
    vstd::arithmetic::div_mod::lemma_div_multiples_vanish((10 * k) as int, unit as int);
    vstd::arithmetic::div_mod::lemma_mod_multiples_basic((10 * k) as int, unit as int);
    assert(n % unit == 0) by {
        assert(unit * (10 * k) == (10 * k) * unit) by (nonlinear_arith);
    }
}

/// A whole number of a unit is told by that number and that unit, as long as no larger unit
/// fits.
pub proof fn law_whole_sizes_are_told_exactly(k: nat)
    requires
        0 < k < 1024,
    ensures
        size_for_people(k) == dec(k) + " B"@,
        size_for_people(k * 0x10_0000) == dec(k) + "."@ + dec(0) + " MiB"@,
        size_for_people(k * 0x4000_0000) == dec(k) + "."@ + dec(0) + " GiB"@,
        size_for_people(k * 0x100_0000_0000) == dec(k) + "."@ + dec(0) + " TiB"@,
{
    lemma_whole_tenths(k, 0x10_0000);
    lemma_whole_tenths(k, 0x4000_0000);
    lemma_whole_tenths(k, 0x100_0000_0000);
}

} // verus!
