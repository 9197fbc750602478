//! Signed fixed-point numbers with 32 fractional bits and saturating
//! arithmetic.
use vstd::prelude::*;
use crate::scalar::{one, one_is_neutral, zero, zero_is_absorbing, Scalar};

verus! {

/// A fixed-point number: `raw` counts units of 2^-32.
///
/// Sums, differences, products and quotients are computed exactly, rounded
/// toward zero to a multiple of 2^-32, and then clamped to the range of `i64`.
/// No operation overflows or fails: a result beyond the range becomes the
/// largest or smallest number, and so does a quotient by zero, by the sign of
/// the dividend. The hyperbolic tangent is a rational approximation.
#[derive(Clone, Copy, Debug, PartialEq, Eq, Structural)]
pub struct Fixed {
    /// The number in units of 2^-32.
    pub raw: i64,
}

/// The raw value of the number one.
pub const UNIT: i64 = 0x1_0000_0000;

/// `v` clamped to the range of `i64`.
pub open spec fn saturate(v: int) -> i64 {
    if v > i64::MAX {
        i64::MAX
    } else if v < i64::MIN {
        i64::MIN
    } else {
        v as i64
    }
}

/// The quotient of `n` by `d`, rounded toward zero. For `d == 0` it is the
/// largest value of the sign of `n`, beyond the range of `i64`, so that it
/// saturates.
pub open spec fn quotient(n: int, d: int) -> int {
    if d == 0 {
        if n > 0 {
            i64::MAX + 1
        } else if n < 0 {
            i64::MIN - 1
        } else {
            0
        }
    } else if n >= 0 && d > 0 {
        n / d
    } else if n < 0 && d > 0 {
        -((-n) / d)
    } else if n >= 0 {
        -(n / (-d))
    } else {
        (-n) / (-d)
    }
}

/// `v` clamped to the range of `i64`.
fn saturate_wide(v: i128) -> (r: i64)
    ensures
        r == saturate(v as int),
{
    if v > i64::MAX as i128 {
        i64::MAX
    } else if v < i64::MIN as i128 {
        i64::MIN
    } else {
        v as i64
    }
}

/// The absolute value of `v`.
fn magnitude(v: i128) -> (r: i128)
    requires
        v > i128::MIN,
    ensures
        r == (if v < 0 { -(v as int) } else { v as int }),
{
    if v < 0 {
        -v
    } else {
        v
    }
}

/// The quotient of `n` by `d`, rounded toward zero, and beyond the range of
/// `i64` for a zero divisor.
fn quotient_wide(n: i128, d: i128) -> (r: i128)
    requires
        n > i128::MIN,
        d > i128::MIN,
    ensures
        r == quotient(n as int, d as int),
{
    if d == 0 {
        if n > 0 {
            i64::MAX as i128 + 1
        } else if n < 0 {
            i64::MIN as i128 - 1
        } else {
            0
        }
    } else {
        let q: i128 = magnitude(n) / magnitude(d);
        if (n < 0) == (d < 0) {
            q
        } else {
            -q
        }
    }
}

impl Fixed {
    /// The number with the given raw value.
    pub fn from_raw(raw: i64) -> (r: Self)
        ensures
            r.raw == raw,
    {
        Fixed { raw }
    }

    /// The rational approximation `x (27 + x^2) / (27 + 9 x^2)` of the
    /// hyperbolic tangent for `|x| < 3`, and `1` or `-1` beyond.
    pub open spec fn rational_tanh(self) -> Self {
        if self.raw >= 3 * UNIT {
            Fixed { raw: UNIT }
        } else if self.raw <= -3 * UNIT {
            Fixed { raw: (-UNIT) as i64 }
        } else {
            let square = self.times_spec(self);
            let c27 = Fixed { raw: (27 * UNIT) as i64 };
            let c9 = Fixed { raw: (9 * UNIT) as i64 };
            self.times_spec(c27.plus_spec(square)).over_spec(c27.plus_spec(c9.times_spec(square)))
        }
    }
}

impl Scalar for Fixed {
    open spec fn from_count_spec(n: usize) -> Self {
        Fixed { raw: saturate(n * UNIT) }
    }

    open spec fn plus_spec(self, rhs: Self) -> Self {
        Fixed { raw: saturate(self.raw + rhs.raw) }
    }

    open spec fn minus_spec(self, rhs: Self) -> Self {
        Fixed { raw: saturate(self.raw - rhs.raw) }
    }

    open spec fn times_spec(self, rhs: Self) -> Self {
        Fixed { raw: saturate(quotient(self.raw * rhs.raw, UNIT as int)) }
    }

    open spec fn over_spec(self, rhs: Self) -> Self {
        Fixed { raw: saturate(quotient(self.raw * UNIT, rhs.raw as int)) }
    }

    open spec fn exceeds_spec(self, rhs: Self) -> bool {
        self.raw > rhs.raw
    }

    open spec fn tanh_spec(self) -> Self {
        self.rational_tanh()
    }

    fn from_count(n: usize) -> (r: Self) {
        if n > 0x7fff_ffff {
            assert(n * UNIT > i64::MAX) by (nonlinear_arith)
                requires
                    n > 0x7fff_ffff,
                    UNIT == 0x1_0000_0000,
            ;
            Fixed { raw: i64::MAX }
        } else {
            assert(0 <= n * UNIT <= i64::MAX) by (nonlinear_arith)
                requires
                    0 <= n <= 0x7fff_ffff,
                    UNIT == 0x1_0000_0000,
            ;
            Fixed { raw: (n as i64) * UNIT }
        }
    }

    fn plus(self, rhs: Self) -> (r: Self) {
        Fixed { raw: saturate_wide(self.raw as i128 + rhs.raw as i128) }
    }

    fn minus(self, rhs: Self) -> (r: Self) {
        Fixed { raw: saturate_wide(self.raw as i128 - rhs.raw as i128) }
    }

    fn times(self, rhs: Self) -> (r: Self) {
        let a: i128 = self.raw as i128;
        let b: i128 = rhs.raw as i128;
        assert(-0x4000_0000_0000_0000_0000_0000_0000_0000 <= a * b
            <= 0x4000_0000_0000_0000_0000_0000_0000_0000) by (nonlinear_arith)
            requires
                -0x8000_0000_0000_0000 <= a <= 0x7fff_ffff_ffff_ffff,
                -0x8000_0000_0000_0000 <= b <= 0x7fff_ffff_ffff_ffff,
        ;
        Fixed { raw: saturate_wide(quotient_wide(a * b, UNIT as i128)) }
    }

    fn over(self, rhs: Self) -> (r: Self) {
        let a: i128 = self.raw as i128;
        assert(-0x8000_0000_0000_0000_0000_0000 <= a * UNIT <= 0x8000_0000_0000_0000_0000_0000)
            by (nonlinear_arith)
            requires
                -0x8000_0000_0000_0000 <= a <= 0x7fff_ffff_ffff_ffff,
                UNIT == 0x1_0000_0000,
        ;
        Fixed { raw: saturate_wide(quotient_wide(a * (UNIT as i128), rhs.raw as i128)) }
    }

    fn exceeds(self, rhs: Self) -> (r: bool) {
        self.raw > rhs.raw
    }

    fn tanh(self) -> (r: Self) {
        if self.raw >= 3 * UNIT {
            Fixed { raw: UNIT }
        } else if self.raw <= -3 * UNIT {
            Fixed { raw: -UNIT }
        } else {
            let square = self.times(self);
            let c27 = Fixed { raw: 27 * UNIT };
            let c9 = Fixed { raw: 9 * UNIT };
            self.times(c27.plus(square)).over(c27.plus(c9.times(square)))
        }
    }
}

/// In fixed-point arithmetic zero plus zero is zero, and zero times any
/// number is zero.
pub proof fn fixed_zero_is_absorbing()
    ensures
        zero_is_absorbing::<Fixed>(),
{
    assert(zero::<Fixed>().raw == 0);
    assert forall|x: Fixed| #[trigger] zero::<Fixed>().times_spec(x) == zero::<Fixed>() by {
        assert(0 * x.raw == 0);
    }
}

/// In fixed-point arithmetic any number times one is that number.
pub proof fn fixed_one_is_neutral()
    ensures
        one_is_neutral::<Fixed>(),
{
    assert(one::<Fixed>().raw == UNIT);
    assert forall|x: Fixed| #[trigger] x.times_spec(one::<Fixed>()) == x by {
        let r = x.raw as int;
        if r >= 0 {
            assert((r * 0x1_0000_0000) / 0x1_0000_0000 == r) by (nonlinear_arith);
            assert(r * 0x1_0000_0000 >= 0) by (nonlinear_arith)
                requires
                    r >= 0,
            ;
        } else {
            assert(-(r * 0x1_0000_0000) == (-r) * 0x1_0000_0000) by (nonlinear_arith);
            assert(((-r) * 0x1_0000_0000) / 0x1_0000_0000 == -r) by (nonlinear_arith);
            assert(r * 0x1_0000_0000 < 0) by (nonlinear_arith)
                requires
                    r < 0,
            ;
        }
    }
}

/// For `0 <= a < 3`, in units of 2^-32, the numerator of the rational
/// approximation exceeds its denominator by less than nine units, although
/// the square is rounded down.
proof fn numerator_stays_near_denominator(a: int, s: int)
    requires
        0 <= a < 3 * UNIT,
        s == (a * a) / (UNIT as int),
    ensures
        0 <= s < 9 * UNIT,
        0 <= a * (27 * UNIT + s) <= UNIT * (27 * UNIT + 9 * s) + 9 * UNIT,
{
    let u = UNIT as int;
    assert(0 <= a * a < 9 * u * u) by (nonlinear_arith)
        requires
            0 <= a < 3 * u,
    ;
    assert(s * u <= a * a < (s + 1) * u && 0 <= s < 9 * u) by (nonlinear_arith)
        requires
            s == (a * a) / u,
            0 <= a * a < 9 * u * u,
            u > 0,
    ;
    assert(0 <= a * (27 * u + s)) by (nonlinear_arith)
        requires
            0 <= a,
            0 <= s,
            0 < u,
    ;
    let t = 3 * u - a;
    let slack = u * (27 * u + 9 * s) + 9 * u - a * (27 * u + s);
    // u * slack is at least t^3, which is positive.
    assert(u * s * (9 * u - a) >= (a * a - u + 1) * (9 * u - a)) by (nonlinear_arith)
        requires
            s * u >= a * a - u + 1,
            9 * u - a > 0,
    ;
    assert(u * slack == 27 * u * u * (u - a) + u * s * (9 * u - a) + 9 * u * u)
        by (nonlinear_arith)
        requires
            slack == u * (27 * u + 9 * s) + 9 * u - a * (27 * u + s),
    ;
    assert(27 * u * u * (u - a) + (a * a - u + 1) * (9 * u - a) + 9 * u * u == t * t * t + u * a
        + 9 * u - a) by (nonlinear_arith)
        requires
            t == 3 * u - a,
    ;
    assert(t * t * t > 0) by (nonlinear_arith)
        requires
            t > 0,
    ;
    assert(u * a - a >= 0) by (nonlinear_arith)
        requires
            a >= 0,
            u >= 1,
    ;
    assert(u * slack > 0);
    assert(slack > 0) by (nonlinear_arith)
        requires
            u * slack > 0,
            u > 0,
    ;
}

/// The rational approximation of the hyperbolic tangent stays between minus
/// one and one.
pub proof fn rational_tanh_is_bounded(x: Fixed)
    ensures
        -UNIT <= x.rational_tanh().raw <= UNIT,
{
    let u = UNIT as int;
    let r = x.raw as int;
    if -3 * u < r < 3 * u {
        let a = if r < 0 {
            -r
        } else {
            r
        };
        let s = (a * a) / u;
        numerator_stays_near_denominator(a, s);
        assert(r * r == a * a) by (nonlinear_arith)
            requires
                a == r || a == -r,
        ;
        let square = x.times_spec(x);
        assert(square.raw == s);
        let c27 = Fixed { raw: (27 * UNIT) as i64 };
        let c9 = Fixed { raw: (9 * UNIT) as i64 };
        let top = c27.plus_spec(square);
        assert(top.raw == 27 * u + s);
        let p = (a * (27 * u + s)) / u;
        assert(0 <= p <= 27 * u + 9 * s + 9) by (nonlinear_arith)
            requires
                p == (a * (27 * u + s)) / u,
                0 <= a * (27 * u + s) <= u * (27 * u + 9 * s) + 9 * u,
                u > 0,
        ;
        assert(r * (27 * u + s) == if r < 0 {
            -(a * (27 * u + s))
        } else {
            a * (27 * u + s)
        }) by (nonlinear_arith)
            requires
                a == (if r < 0 {
                    -r
                } else {
                    r
                }),
        ;
        let numerator = x.times_spec(top);
        assert(numerator.raw == if r < 0 {
            -p
        } else {
            p
        });
        assert((9 * u) * s == 9 * s * u && ((9 * s) * u) / u == 9 * s) by (nonlinear_arith)
            requires
                u > 0,
        ;
        assert(9 * u * s >= 0) by (nonlinear_arith)
            requires
                s >= 0,
                u > 0,
        ;
        let scaled = c9.times_spec(square);
        assert(scaled.raw == 9 * s);
        let denominator = c27.plus_spec(scaled);
        let d = 27 * u + 9 * s;
        assert(denominator.raw == d);
        let q = (p * u) / d;
        assert(0 <= q <= u) by (nonlinear_arith)
            requires
                q == (p * u) / d,
                0 <= p <= d + 9,
                d >= 27 * u,
                u > 9,
        ;
        assert(p * u >= 0 && (-p) * u == -(p * u)) by (nonlinear_arith)
            requires
                p >= 0,
                u > 0,
        ;
        assert(numerator.over_spec(denominator).raw == if r < 0 {
            -q
        } else {
            q
        });
    }
}

} // verus!
