//! Fixed-point scalars with sixteen fractional bits.
//!
//! A [`Fixed`] whose raw count is `n` stands for the rational number
//! `n / 65536`. Results that fall outside the representable range saturate at
//! the nearest bound; products and quotients round toward minus infinity.
//!
//! A [`Coord`] is a position in buffer-pixel space in the same units, with a
//! wider raw count.

use vstd::arithmetic::div_mod::lemma_fundamental_div_mod;
use vstd::arithmetic::div_mod::lemma_fundamental_div_mod_converse;
use vstd::prelude::*;

verus! {

/// The raw count that stands for the number one.
pub const ONE_RAW: i32 = 65536;

/// The closest representable raw count to `v`.
pub open spec fn clamp_raw(v: int) -> int {
    if v < i32::MIN {
        i32::MIN as int
    } else if v > i32::MAX {
        i32::MAX as int
    } else {
        v
    }
}

/// The quotient `n / d` rounded toward minus infinity, for `d != 0`.
pub open spec fn floor_quot(n: int, d: int) -> int {
    if d > 0 {
        n / d
    } else {
        (-n) / (-d)
    }
}

/// `floor_quot(n, d)` is the one integer `q` with `q * d <= n < (q + 1) * d`
/// when `d` is positive, and with the inequalities mirrored when it is negative.
pub proof fn lemma_floor_quot_bounds(n: int, d: int)
    requires
        d != 0,
    ensures
        d > 0 ==> floor_quot(n, d) * d <= n < (floor_quot(n, d) + 1) * d,
        d < 0 ==> (floor_quot(n, d) + 1) * d < n <= floor_quot(n, d) * d,
{
    if d > 0 {
        lemma_fundamental_div_mod(n, d);
        assert((n / d + 1) * d == d * (n / d) + d) by (nonlinear_arith);
        assert((n / d) * d == d * (n / d)) by (nonlinear_arith);
    } else {
        let m = -n;
        let e = -d;
        lemma_fundamental_div_mod(m, e);
        assert((m / e + 1) * d == -(e * (m / e)) - e) by (nonlinear_arith)
            requires
                d == -e,
        ;
        assert((m / e) * d == -(e * (m / e))) by (nonlinear_arith)
            requires
                d == -e,
        ;
    }
}

/// Any integer `q` that brackets `n` between `q * d` and `(q + 1) * d` is the
/// floored quotient.
pub proof fn lemma_floor_quot_unique(n: int, d: int, q: int)
    requires
        d > 0,
        q * d <= n < (q + 1) * d,
    ensures
        floor_quot(n, d) == q,
{
    let r = n - q * d;
    assert((q + 1) * d == q * d + d) by (nonlinear_arith);
    lemma_fundamental_div_mod_converse(n, d, q, r);
}

/// Saturates a wide integer to the range of a raw count.
pub fn saturate(v: i128) -> (r: i32)
    ensures
        r == clamp_raw(v as int),
{
    if v < -2147483648 {
        -2147483648
    } else if v > 2147483647 {
        2147483647
    } else {
        v as i32
    }
}

/// How the floored quotient of a negative numerator follows from the quotient
/// and remainder of its absolute value.
proof fn lemma_floor_of_negative(m: int, d: int)
    requires
        m > 0,
        d > 0,
    ensures
        m % d == 0 ==> floor_quot(-m, d) == -(m / d),
        m % d != 0 ==> floor_quot(-m, d) == -(m / d) - 1,
{
    let q = m / d;
    let r = m % d;
    lemma_fundamental_div_mod(m, d);
    assert(d * q == q * d) by (nonlinear_arith);
    if r == 0 {
        assert((-q) * d == -(q * d)) by (nonlinear_arith);
        assert((-q + 1) * d == -(q * d) + d) by (nonlinear_arith);
        lemma_floor_quot_unique(-m, d, -q);
    } else {
        assert((-q - 1) * d == -(q * d) - d) by (nonlinear_arith);
        assert((-q - 1 + 1) * d == -(q * d)) by (nonlinear_arith);
        lemma_floor_quot_unique(-m, d, -q - 1);
    }
}

/// Divides rounding toward minus infinity.
pub fn div_floor(n: i128, d: i128) -> (q: i128)
    requires
        d != 0,
        i128::MIN < n,
        i128::MIN < d,
    ensures
        q == floor_quot(n as int, d as int),
{
    let num: i128 = if d < 0 { -n } else { n };
    let den: i128 = if d < 0 { -d } else { d };
    let t: i128 = num / den;
    let r: i128 = num % den;
    proof {
        if num < 0 {
            lemma_floor_of_negative(-(num as int), den as int);
            assert((-(num as int)) / (den as int) <= -(num as int)) by (nonlinear_arith)
                requires
                    -(num as int) > 0,
                    den >= 1,
            ;
        }
    }
    if r < 0 {
        t - 1
    } else {
        t
    }
}

/// A fixed-point number: `raw` counts units of `1 / 65536`.
#[derive(Clone, Copy, Debug, PartialEq, Eq, Structural)]
pub struct Fixed {
    pub raw: i32,
}

impl View for Fixed {
    type V = int;

    /// The raw count as a mathematical integer.
    open spec fn view(&self) -> int {
        self.raw as int
    }
}

impl Fixed {
    /// The representable number closest to `v / 65536`.
    pub open spec fn of(v: int) -> Fixed {
        Fixed { raw: clamp_raw(v) as i32 }
    }

    /// The saturating sum.
    pub open spec fn plus(self, rhs: Fixed) -> Fixed {
        Fixed::of(self@ + rhs@)
    }

    /// The saturating difference.
    pub open spec fn minus(self, rhs: Fixed) -> Fixed {
        Fixed::of(self@ - rhs@)
    }

    /// The saturating negation.
    pub open spec fn negated(self) -> Fixed {
        Fixed::of(-self@)
    }

    /// The product, rounded toward minus infinity and saturated.
    pub open spec fn times(self, rhs: Fixed) -> Fixed {
        Fixed::of(floor_quot(self@ * rhs@, 65536))
    }

    /// The quotient by a non-zero divisor, rounded toward minus infinity and
    /// saturated.
    pub open spec fn over(self, rhs: Fixed) -> Fixed {
        Fixed::of(floor_quot(self@ * 65536, rhs@))
    }

    /// The number whose raw count is `raw`.
    pub fn from_raw(raw: i32) -> (r: Fixed)
        ensures
            r@ == raw,
    {
        Fixed { raw }
    }

    /// The whole number `n`, exactly.
    pub fn from_int(n: i16) -> (r: Fixed)
        ensures
            r@ == n * 65536,
    {
        let wide: i32 = n as i32;
        Fixed { raw: wide * ONE_RAW }
    }

    /// Zero.
    pub fn zero() -> (r: Fixed)
        ensures
            r@ == 0,
    {
        Fixed { raw: 0 }
    }

    /// One.
    pub fn one() -> (r: Fixed)
        ensures
            r@ == 65536,
    {
        Fixed { raw: ONE_RAW }
    }

    /// The raw count.
    pub fn raw(&self) -> (r: i32)
        ensures
            r == self@,
    {
        self.raw
    }

    /// The saturating sum.
    pub fn add(&self, rhs: &Fixed) -> (r: Fixed)
        ensures
            r == self.plus(*rhs),
    {
        let wide: i128 = self.raw as i128 + rhs.raw as i128;
        Fixed { raw: saturate(wide) }
    }

    /// The saturating difference.
    pub fn sub(&self, rhs: &Fixed) -> (r: Fixed)
        ensures
            r == self.minus(*rhs),
    {
        let wide: i128 = self.raw as i128 - rhs.raw as i128;
        Fixed { raw: saturate(wide) }
    }

    /// The saturating negation.
    pub fn neg(&self) -> (r: Fixed)
        ensures
            r == self.negated(),
    {
        let wide: i128 = -(self.raw as i128);
        Fixed { raw: saturate(wide) }
    }

    /// The product, rounded toward minus infinity and saturated.
    pub fn mul(&self, rhs: &Fixed) -> (r: Fixed)
        ensures
            r == self.times(*rhs),
    {
        let wide: i128 = wide_product(self.raw, rhs.raw);
        Fixed { raw: saturate(div_floor(wide, 65536)) }
    }

    /// The quotient, rounded toward minus infinity and saturated; `None` exactly
    /// when the divisor is zero.
    pub fn div(&self, rhs: &Fixed) -> (r: Option<Fixed>)
        ensures
            rhs@ == 0 ==> r is None,
            rhs@ != 0 ==> r == Some(self.over(*rhs)),
    {
        if rhs.raw == 0 {
            None
        } else {
            let wide: i128 = self.raw as i128 * 65536;
            Some(Fixed { raw: saturate(div_floor(wide, rhs.raw as i128)) })
        }
    }
}

/// A coordinate in buffer-pixel space: `raw` counts units of `1 / 65536`, in
/// sixty-four bits, so that every position inside every pixel with 32-bit
/// coordinates is held exactly.
#[derive(Clone, Copy, Debug, PartialEq, Eq, Structural)]
pub struct Coord {
    pub raw: i64,
}

impl View for Coord {
    type V = int;

    /// The raw count as a mathematical integer.
    open spec fn view(&self) -> int {
        self.raw as int
    }
}

impl Coord {
    /// The coordinate whose raw count is `raw`.
    pub fn from_raw(raw: i64) -> (c: Coord)
        ensures
            c@ == raw,
    {
        Coord { raw }
    }

    /// The raw count.
    pub fn raw(&self) -> (r: i64)
        ensures
            r == self@,
    {
        self.raw
    }
}

/// The exact product of two raw counts, in units of `1 / 65536^2`.
pub fn wide_product(a: i32, b: i32) -> (p: i128)
    ensures
        p == a * b,
        -0x4000_0000_0000_0000 <= p <= 0x4000_0000_0000_0000,
{
    assert(-0x4000_0000_0000_0000 <= a * b <= 0x4000_0000_0000_0000) by (nonlinear_arith)
        requires
            -0x8000_0000 <= a <= 0x7fff_ffff,
            -0x8000_0000 <= b <= 0x7fff_ffff,
    ;
    a as i128 * b as i128
}

} // verus!
