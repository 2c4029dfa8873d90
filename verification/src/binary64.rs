//! Exact arithmetic on the non-negative double-precision numbers that display levels pass
//! through.
//!
//! A number is held as `mantissa * 2^exponent` units, where one whole is [`unit`] units. Every
//! operation rounds its exact result to the nearest number with a mantissa of 53 bits, ties to
//! the even mantissa, which is how the IEEE 754 binary64 format rounds. The unit is small enough
//! that no result other than zero falls below the precision of the format here: a ratio of two
//! 32-bit counts is at least `2^-32`, and 53 bits of it reach down to `2^-85`.

use vstd::prelude::*;
use vstd::arithmetic::power2::{lemma_pow2_adds, lemma_pow2_pos, lemma_pow2_unfold, pow2};
use vstd::arithmetic::div_mod::{lemma_fundamental_div_mod, lemma_fundamental_div_mod_converse};

verus! {

/// The number of units in one: `2^86`.
pub open spec fn unit() -> int {
    0x40_0000_0000_0000_0000_0000
}

/// The first count that no longer fits a 53-bit mantissa.
pub open spec fn mantissa_limit() -> int {
    0x20_0000_0000_0000
}

/// The integer nearest to `n / d`; of two equally near ones, the even one.
pub open spec fn nearest_even(n: int, d: int) -> int {
    if 2 * (n % d) < d || (2 * (n % d) == d && (n / d) % 2 == 0) {
        n / d
    } else {
        n / d + 1
    }
}

/// `n / d` rounded to 53 significant bits.
pub open spec fn rounded(n: int, d: int) -> int
    decreases n - d,
{
    if d <= 0 || n < mantissa_limit() * d {
        nearest_even(n, d)
    } else {
        2 * rounded(n, 2 * d)
    }
}

/// The sum of two numbers, in units.
pub open spec fn sum(x: int, y: int) -> int {
    rounded(x + y, 1)
}

/// The difference of two numbers, the first no smaller than the second, in units.
pub open spec fn difference(x: int, y: int) -> int {
    rounded(x - y, 1)
}

/// The product of two numbers, in units.
pub open spec fn product(x: int, y: int) -> int {
    rounded(x * y, unit())
}

/// The quotient of two numbers, in units.
pub open spec fn quotient(x: int, y: int) -> int {
    rounded(x * unit(), y)
}

/// The whole number nearest to a number of units; a half goes up.
pub open spec fn whole(x: int) -> int {
    (2 * x + unit()) / (2 * unit())
}

/// Dividing by `d` and multiplying back brackets the dividend.
proof fn lemma_division(n: int, d: int)
    requires
        d > 0,
    ensures
        n == (n / d) * d + n % d,
        0 <= n % d < d,
{
    lemma_fundamental_div_mod(n, d);
    assert(d * (n / d) == (n / d) * d) by (nonlinear_arith);
}

/// A quotient and a remainder in range are the quotient and the remainder.
proof fn lemma_division_unique(n: int, d: int, q: int, r: int)
    requires
        d > 0,
        0 <= r < d,
        n == q * d + r,
    ensures
        n / d == q,
        n % d == r,
{
    lemma_fundamental_div_mod_converse(n, d, q, r);
}

/// The integer nearest to a fraction depends on the fraction, not on how it is written.
pub proof fn lemma_nearest_even_scaled(n: int, d: int, c: int)
    requires
        n >= 0,
        d > 0,
        c > 0,
    ensures
        nearest_even(n * c, d * c) == nearest_even(n, d),
{
    lemma_division(n, d);
    let q = n / d;
    let r = n % d;
    assert(n * c == q * (d * c) + r * c) by (nonlinear_arith)
        requires
            n == q * d + r,
    ;
    assert(0 <= r * c < d * c && d * c > 0) by (nonlinear_arith)
        requires
            0 <= r < d,
            c > 0,
    ;
    lemma_division_unique(n * c, d * c, q, r * c);
    assert((2 * (r * c) < d * c) == (2 * r < d)) by (nonlinear_arith)
        requires
            c > 0,
    ;
    assert((2 * (r * c) == d * c) == (2 * r == d)) by (nonlinear_arith)
        requires
            c > 0,
    ;
}

/// Rounding a fraction depends on the fraction, not on how it is written.
pub proof fn lemma_rounded_scaled(n: int, d: int, c: int)
    requires
        n >= 0,
        d > 0,
        c > 0,
    ensures
        rounded(n * c, d * c) == rounded(n, d),
    decreases n - d,
{
    let limit = mantissa_limit();
    assert(d * c > 0) by (nonlinear_arith)
        requires
            d > 0,
            c > 0,
    ;
    assert((n * c < limit * (d * c)) == (n < limit * d)) by (nonlinear_arith)
        requires
            c > 0,
    ;
    if n < limit * d {
        lemma_nearest_even_scaled(n, d, c);
    } else {
        lemma_rounded_scaled(n, 2 * d, c);
        assert((2 * d) * c == 2 * (d * c)) by (nonlinear_arith);
    }
}

/// The integer nearest to a fraction grows with the numerator, and stays between the bounds that
/// whole multiples of the denominator give.
proof fn lemma_nearest_even_monotone(a: int, b: int, d: int)
    requires
        0 <= a <= b,
        d > 0,
    ensures
        0 <= nearest_even(a, d) <= nearest_even(b, d),
{
    lemma_division(a, d);
    lemma_division(b, d);
    let (p, r) = (a / d, a % d);
    let (q, s) = (b / d, b % d);
    assert(0 <= p) by (nonlinear_arith)
        requires
            0 <= a,
            a == p * d + r,
            r < d,
            d > 0,
    ;
    assert(p <= q) by (nonlinear_arith)
        requires
            a <= b,
            a == p * d + r,
            b == q * d + s,
            0 <= r,
            s < d,
            d > 0,
    ;
    if p == q {
        assert(r <= s) by (nonlinear_arith)
            requires
                a <= b,
                a == p * d + r,
                b == q * d + s,
                p == q,
        ;
    }
}

/// A multiple of the denominator divides exactly.
proof fn lemma_nearest_even_exact(k: int, d: int)
    requires
        d > 0,
    ensures
        nearest_even(k * d, d) == k,
{
    lemma_division_unique(k * d, d, k, 0);
}

/// Rounding is monotone in the numerator.
pub proof fn lemma_rounded_monotone(a: int, b: int, d: int)
    requires
        0 <= a <= b,
        d > 0,
    ensures
        0 <= rounded(a, d) <= rounded(b, d),
    decreases b - d,
{
    let limit = mantissa_limit();
    lemma_nearest_even_monotone(a, a, d);
    if b < limit * d {
        lemma_nearest_even_monotone(a, b, d);
    } else if a >= limit * d {
        lemma_rounded_monotone(a, b, 2 * d);
    } else {
        // `a` is below the limit and `b` is not: the limit itself lies between them.
        lemma_nearest_even_monotone(a, limit * d, d);
        lemma_nearest_even_exact(limit, d);
        lemma_rounded_monotone(limit * d, b, 2 * d);
        let half = 0x10_0000_0000_0000int;
        assert(limit * d == half * (2 * d)) by (nonlinear_arith)
            requires
                limit == 2 * half,
        ;
        assert(limit * d < limit * (2 * d)) by (nonlinear_arith)
            requires
                d > 0,
                limit > 0,
        ;
        lemma_nearest_even_exact(half, 2 * d);
    }
}

/// A number that has 53 bits or fewer, at any scale, is not changed by rounding.
pub proof fn lemma_rounded_exact(k: int, e: nat)
    requires
        0 <= k <= mantissa_limit(),
    ensures
        rounded(k * pow2(e), 1) == k * pow2(e),
    decreases e,
{
    let n = k * pow2(e);
    lemma_pow2_pos(e);
    assert(n >= 0) by (nonlinear_arith)
        requires
            n == k * pow2(e),
            k >= 0,
            pow2(e) > 0,
    ;
    if n < mantissa_limit() {
        lemma_nearest_even_exact(n, 1);
    } else if e == 0 {
        vstd::arithmetic::power2::lemma2_to64();
        assert(n == mantissa_limit());
        let half = 0x10_0000_0000_0000int;
        lemma_nearest_even_exact(half, 2);
        assert(rounded(n, 2) == half);
    } else {
        lemma_pow2_unfold(e);
        let m = k * pow2((e - 1) as nat);
        assert(n == m * 2) by (nonlinear_arith)
            requires
                n == k * pow2(e),
                m == k * pow2((e - 1) as nat),
                pow2(e) == 2 * pow2((e - 1) as nat),
        ;
        lemma_rounded_exact(k, (e - 1) as nat);
        lemma_rounded_scaled(m, 1, 2);
    }
}

/// Whether a count of units is a number as it stands.
pub open spec fn representable(x: int) -> bool {
    rounded(x, 1) == x
}

/// The units in a sixty-fourth: `2^80`.
pub open spec fn sixty_fourth() -> int {
    0x1_0000_0000_0000_0000_0000
}

pub proof fn lemma_sixty_fourths(k: int)
    requires
        0 <= k <= mantissa_limit(),
    ensures
        representable(k * sixty_fourth()),
{
    lemma_rounded_exact(k, 80);
    lemma_pow2_adds(64, 16);
    vstd::arithmetic::power2::lemma2_to64();
}

/// What lies between two numbers is rounded to a number between them.
pub proof fn lemma_rounded_between(n: int, d: int, low: int, high: int)
    requires
        d > 0,
        0 <= low,
        representable(low),
        representable(high),
        low * d <= n <= high * d,
    ensures
        low <= rounded(n, d) <= high,
{
    assert(0 <= low * d && 0 <= high * d && low <= high) by (nonlinear_arith)
        requires
            d > 0,
            0 <= low,
            low * d <= high * d,
    ;
    lemma_rounded_monotone(low * d, n, d);
    lemma_rounded_monotone(n, high * d, d);
    lemma_rounded_scaled(low, 1, d);
    lemma_rounded_scaled(high, 1, d);
}

/// The distance between two numbers.
pub open spec fn apart(a: int, b: int) -> int {
    if a >= b {
        a - b
    } else {
        b - a
    }
}

/// Rounding stays close: what it is off by is at most half a unit, or one part in `2^53`.
pub proof fn rounding_stays_close(n: int, d: int)
    requires
        n >= 0,
        d > 0,
    ensures
        rounded(n, d) >= 0,
        2 * apart(rounded(n, d) * d, n) <= d || 0x20_0000_0000_0000 * apart(
            rounded(n, d) * d,
            n,
        ) <= n,
    decreases n - d,
{
    let limit = mantissa_limit();
    lemma_rounded_monotone(0, n, d);
    if n < limit * d {
        lemma_division(n, d);
        let q = n / d;
        let r = n % d;
        if nearest_even(n, d) == q {
            assert(apart(q * d, n) == r);
        } else {
            assert((q + 1) * d == q * d + d) by (nonlinear_arith);
            assert(apart((q + 1) * d, n) == d - r);
        }
    } else {
        rounding_stays_close(n, 2 * d);
        let r = rounded(n, 2 * d);
        assert(r * (2 * d) == (2 * r) * d) by (nonlinear_arith);
        let e = apart((2 * r) * d, n);
        if 2 * e <= 2 * d {
            assert(limit * e <= n) by (nonlinear_arith)
                requires
                    e <= d,
                    limit * d <= n,
                    limit > 0,
            ;
        }
    }
}

/// Rounding to a whole number picks the nearest one, and the upper one of two that are as near.
pub proof fn wholes_are_nearest(x: int)
    ensures
        2 * apart(whole(x) * unit(), x) <= unit(),
        2 * (whole(x) * unit() - x) > -unit(),
{
    let u = unit();
    lemma_division(2 * x + u, 2 * u);
    let q = (2 * x + u) / (2 * u);
    assert(q * (2 * u) == 2 * (q * u)) by (nonlinear_arith);
}

/// One number: `mantissa * 2^exponent` units.
#[derive(Clone, Copy, Debug)]
pub struct Binary64 {
    mantissa: u64,
    exponent: u32,
}

impl View for Binary64 {
    type V = int;

    closed spec fn view(&self) -> int {
        self.mantissa * pow2(self.exponent as nat)
    }
}

/// The most units that a number may have: sums and products stay below `2^127`.
pub open spec fn capacity() -> int {
    0x8000_0000_0000_0000_0000_0000_0000_0000
}

proof fn lemma_powers()
    ensures
        pow2(53) == mantissa_limit(),
        pow2(86) == unit(),
        pow2(127) == capacity(),
{
    vstd::arithmetic::power2::lemma2_to64();
    vstd::arithmetic::power2::lemma2_to64_rest();
    lemma_pow2_adds(43, 43);
    lemma_pow2_adds(64, 63);
}

/// `2^e`.
fn power(e: u32) -> (p: u128)
    requires
        e <= 127,
    ensures
        p == pow2(e as nat),
{
    let mut p: u128 = 1;
    let mut i: u32 = 0;
    proof {
        vstd::arithmetic::power2::lemma2_to64();
        lemma_powers();
    }
    while i < e
        invariant
            i <= e <= 127,
            p == pow2(i as nat),
            pow2(127) == capacity(),
        decreases e - i,
    {
        proof {
            lemma_pow2_unfold((i + 1) as nat);
            if i + 1 < 127 {
                vstd::arithmetic::power2::lemma_pow2_strictly_increases((i + 1) as nat, 127);
            }
        }
        p = p * 2;
        i = i + 1;
    }
    p
}

impl Binary64 {
    #[verifier::type_invariant]
    spec fn inv(self) -> bool {
        self.mantissa <= mantissa_limit()
    }

    /// The number with a given mantissa at a given scale.
    pub fn new(mantissa: u64, exponent: u32) -> (x: Self)
        requires
            mantissa <= mantissa_limit(),
        ensures
            x@ == mantissa * pow2(exponent as nat),
    {
        Binary64 { mantissa, exponent }
    }

    /// A whole number.
    pub fn from_count(count: u32) -> (x: Self)
        ensures
            x@ == count * unit(),
    {
        proof {
            lemma_powers();
        }
        Binary64 { mantissa: count as u64, exponent: 86 }
    }

    /// `n / d` units, rounded.
    pub fn from_ratio(n: u128, d: u128) -> (x: Self)
        requires
            d > 0,
            n < capacity(),
        ensures
            x@ == rounded(n as int, d as int),
    {
        let limit: u128 = 0x20_0000_0000_0000;
        let mut divisor: u128 = d;
        let mut exponent: u32 = 0;
        proof {
            vstd::arithmetic::power2::lemma2_to64();
            assert(1 * rounded(n as int, d as int) == rounded(n as int, d as int));
        }
        while n / divisor >= limit
            invariant
                divisor > 0,
                limit == mantissa_limit(),
                n < capacity(),
                rounded(n as int, d as int) == pow2(exponent as nat) * rounded(
                    n as int,
                    divisor as int,
                ),
                exponent < u32::MAX - 200,
                divisor >= pow2(exponent as nat),
            decreases n - divisor,
        {
            proof {
                lemma_division(n as int, divisor as int);
                let q = n as int / divisor as int;
                assert(n >= limit * divisor) by (nonlinear_arith)
                    requires
                        q >= limit,
                        n >= q * divisor,
                        divisor > 0,
                ;
                assert(2 * divisor <= limit * divisor) by (nonlinear_arith)
                    requires
                        limit >= 2,
                        divisor > 0,
                ;
                lemma_pow2_unfold((exponent + 1) as nat);
                let half = rounded(n as int, (2 * divisor) as int);
                assert(pow2(exponent as nat) * (2 * half) == (2 * pow2(exponent as nat)) * half)
                    by (nonlinear_arith);
                lemma_powers();
                if exponent >= 127 {
                    if exponent > 127 {
                        vstd::arithmetic::power2::lemma_pow2_strictly_increases(
                            127,
                            exponent as nat,
                        );
                    }
                    assert(false);
                }
            }
            divisor = divisor * 2;
            exponent = exponent + 1;
        }
        let q: u128 = n / divisor;
        let r: u128 = n % divisor;
        let mantissa: u128 = if r < divisor - r || (r == divisor - r && q % 2 == 0) {
            q
        } else {
            q + 1
        };
        proof {
            lemma_division(n as int, divisor as int);
            assert(n < limit * divisor) by (nonlinear_arith)
                requires
                    q < limit,
                    n == q * divisor + r,
                    0 <= r < divisor,
            ;
            assert(rounded(n as int, divisor as int) == mantissa);
            assert(pow2(exponent as nat) * mantissa == mantissa * pow2(exponent as nat))
                by (nonlinear_arith);
        }
        Binary64 { mantissa: mantissa as u64, exponent }
    }

    /// The number as a count of units.
    pub fn units(&self) -> (n: u128)
        requires
            self@ < capacity(),
        ensures
            n == self@,
    {
        proof {
            use_type_invariant(self);
        }
        if self.mantissa == 0 {
            return 0;
        }
        proof {
            lemma_powers();
            lemma_pow2_pos(self.exponent as nat);
            let p = pow2(self.exponent as nat);
            let m = self.mantissa;
            assert(m * p >= p) by (nonlinear_arith)
                requires
                    m >= 1,
                    p > 0,
            ;
            if self.exponent > 127 {
                vstd::arithmetic::power2::lemma_pow2_strictly_increases(
                    127,
                    self.exponent as nat,
                );
            }
        }
        let p: u128 = power(self.exponent);
        self.mantissa as u128 * p
    }

    /// `self + other`.
    pub fn plus(&self, other: &Self) -> (x: Self)
        requires
            0 <= self@,
            0 <= other@,
            self@ + other@ < capacity(),
        ensures
            x@ == sum(self@, other@),
    {
        Self::from_ratio(self.units() + other.units(), 1)
    }

    /// `self - other`.
    pub fn minus(&self, other: &Self) -> (x: Self)
        requires
            0 <= other@ <= self@ < capacity(),
        ensures
            x@ == difference(self@, other@),
    {
        Self::from_ratio(self.units() - other.units(), 1)
    }

    /// `self * other`.
    pub fn times(&self, other: &Self) -> (x: Self)
        requires
            0 <= self@ * other@ < capacity() * unit(),
            self@ < capacity(),
            other@ < capacity(),
        ensures
            x@ == product(self@, other@),
    {
        proof {
            use_type_invariant(self);
            use_type_invariant(other);
            lemma_powers();
        }
        if self.mantissa == 0 || other.mantissa == 0 {
            proof {
                assert(self@ * other@ == 0) by (nonlinear_arith)
                    requires
                        self@ == self.mantissa * pow2(self.exponent as nat),
                        other@ == other.mantissa * pow2(other.exponent as nat),
                        self.mantissa == 0 || other.mantissa == 0,
                ;
            }
            assert(rounded(0, unit()) == 0);
            proof {
                assert(0 * pow2(0) == 0);
            }
            return Binary64 { mantissa: 0, exponent: 0 };
        }
        let ghost a = self.mantissa as int;
        let ghost b = other.mantissa as int;
        let ghost pa = pow2(self.exponent as nat) as int;
        let ghost pb = pow2(other.exponent as nat) as int;
        proof {
            self.lemma_exponent();
            other.lemma_exponent();
            lemma_pow2_pos(self.exponent as nat);
            lemma_pow2_pos(other.exponent as nat);
            lemma_pow2_adds(self.exponent as nat, other.exponent as nat);
            assert((a * pa) * (b * pb) == (a * b) * (pa * pb)) by (nonlinear_arith);
            assert(0 < a * b <= mantissa_limit() * mantissa_limit()) by (nonlinear_arith)
                requires
                    0 < a <= mantissa_limit(),
                    0 < b <= mantissa_limit(),
            ;
        }
        let m: u128 = self.mantissa as u128 * other.mantissa as u128;
        let e: u32 = self.exponent + other.exponent;
        if e >= 86 {
            let ghost p = pow2((e - 86) as nat) as int;
            proof {
                lemma_pow2_adds(86, (e - 86) as nat);
                lemma_pow2_pos((e - 86) as nat);
                assert(self@ * other@ == (m * p) * unit()) by (nonlinear_arith)
                    requires
                        self@ * other@ == m * pow2(e as nat),
                        pow2(e as nat) == unit() * p,
                ;
                assert(m * p < capacity()) by (nonlinear_arith)
                    requires
                        (m * p) * unit() < capacity() * unit(),
                        unit() > 0,
                ;
                assert(m * p >= p) by (nonlinear_arith)
                    requires
                        m >= 1,
                        p > 0,
                ;
                if e - 86 > 127 {
                    vstd::arithmetic::power2::lemma_pow2_strictly_increases(127, (e - 86) as nat);
                }
                lemma_rounded_scaled(m * p, 1, unit());
            }
            let factor: u128 = power(e - 86);
            Self::from_ratio(m * factor, 1)
        } else {
            let ghost p = pow2(e as nat) as int;
            proof {
                lemma_pow2_adds(e as nat, (86 - e) as nat);
                lemma_pow2_pos(e as nat);
                lemma_pow2_pos((86 - e) as nat);
                lemma_rounded_scaled(m as int, pow2((86 - e) as nat) as int, p);
                assert(pow2((86 - e) as nat) * p == p * pow2((86 - e) as nat))
                    by (nonlinear_arith);
            }
            let divisor: u128 = power(86 - e);
            Self::from_ratio(m, divisor)
        }
    }

    proof fn lemma_exponent(self)
        requires
            self.mantissa >= 1,
            self@ < capacity(),
        ensures
            self.exponent < 127,
    {
        lemma_powers();
        let p = pow2(self.exponent as nat);
        let m = self.mantissa;
        lemma_pow2_pos(self.exponent as nat);
        assert(m * p >= p) by (nonlinear_arith)
            requires
                m >= 1,
                p > 0,
        ;
        if self.exponent > 127 {
            vstd::arithmetic::power2::lemma_pow2_strictly_increases(127, self.exponent as nat);
        }
    }

    /// `self / count`.
    pub fn over_count(&self, count: u32) -> (x: Self)
        requires
            count > 0,
            0 <= self@ < capacity(),
        ensures
            x@ == quotient(self@, count * unit()),
    {
        proof {
            lemma_rounded_scaled(self@, count as int, unit());
        }
        Self::from_ratio(self.units(), count as u128)
    }

    /// `self * count`.
    pub fn times_count(&self, count: u32) -> (x: Self)
        requires
            0 <= self@,
            self@ * count < capacity(),
            self@ < capacity(),
        ensures
            x@ == product(self@, count * unit()),
    {
        proof {
            let n = self@ * count;
            assert(self@ * (count * unit()) == n * unit()) by (nonlinear_arith)
                requires
                    n == self@ * count,
            ;
            assert(n >= 0) by (nonlinear_arith)
                requires
                    n == self@ * count,
                    self@ >= 0,
                    count >= 0,
            ;
            lemma_rounded_scaled(n, 1, unit());
        }
        Self::from_ratio(self.units() * count as u128, 1)
    }

    /// The nearest whole number; a half goes up.
    pub fn to_whole(&self) -> (n: u128)
        requires
            0 <= self@ < capacity() / 4,
        ensures
            n == whole(self@),
    {
        let one: u128 = 0x40_0000_0000_0000_0000_0000;
        (2 * self.units() + one) / (2 * one)
    }
}

/// The quotient of two counts.
pub fn ratio(count: u32, of: u32) -> (x: Binary64)
    requires
        of > 0,
    ensures
        x@ == quotient(count * unit(), of * unit()),
{
    let one: u128 = 0x40_0000_0000_0000_0000_0000;
    proof {
        lemma_rounded_scaled(count * unit(), of as int, unit());
    }
    Binary64::from_ratio(count as u128 * one, of as u128)
}

}
