//! Saturating fixed-point arithmetic on `i64` scalars.
//!
//! A scalar stands for the real number `value / FX_ONE`. Magnitudes are kept
//! within `FX_MAX`; the arithmetic saturates there instead of overflowing.

use vstd::prelude::*;

verus! {

/// Fraction steps per unit: a scalar `v` stands for the real number
/// `v / FX_ONE`.
pub const FX_ONE: i64 = 65536;

/// Largest magnitude a scalar may take; sums and products saturate here.
pub const FX_MAX: i64 = 0x100_0000_0000;

/// Half turn (pi) in fixed-point angle steps.
pub const FX_PI: i64 = 205888;

/// Quarter turn (pi / 2) in fixed-point angle steps.
pub const FX_HALF_PI: i64 = 102944;

/// Eighth turn (pi / 4) in fixed-point angle steps.
pub const FX_QUARTER_PI: i64 = 51472;

/// Full turn (two pi) in fixed-point angle steps.
pub const FX_TAU: i64 = 411776;

/// A scalar within the representable magnitude.
pub open spec fn fx_ok(a: i64) -> bool {
    -FX_MAX <= a <= FX_MAX
}

/// Saturation of an unbounded value into the representable range.
pub open spec fn clip(v: int) -> int {
    if v > FX_MAX {
        FX_MAX as int
    } else if v < -(FX_MAX as int) {
        -(FX_MAX as int)
    } else {
        v
    }
}

/// Saturate a (sum-sized) value into the representable range.
pub fn clip_i64(v: i64) -> (r: i64)
    ensures
        r == clip(v as int),
        fx_ok(r),
{
    if v > FX_MAX {
        FX_MAX
    } else if v < -FX_MAX {
        -FX_MAX
    } else {
        v
    }
}

/// Saturate a (dot-product-sized) value into the representable range.
pub fn clip_i128(v: i128) -> (r: i64)
    ensures
        r == clip(v as int),
        fx_ok(r),
{
    if v > FX_MAX as i128 {
        FX_MAX
    } else if v < -(FX_MAX as i128) {
        -FX_MAX
    } else {
        v as i64
    }
}

/// Saturating fixed-point sum.
pub fn fx_add(a: i64, b: i64) -> (r: i64)
    requires
        fx_ok(a),
        fx_ok(b),
    ensures
        r == clip(a + b),
        fx_ok(r),
{
    clip_i64(a + b)
}

/// Magnitude of an unbounded value.
pub open spec fn abs_i(a: int) -> int {
    if a >= 0 {
        a
    } else {
        -a
    }
}

/// Magnitude of a fixed-point product, truncated toward zero.
pub open spec fn mul_mag(a: int, b: int) -> int {
    (abs_i(a) * abs_i(b)) / (FX_ONE as int)
}

/// Saturating fixed-point product, truncated toward zero.
pub open spec fn fx_mul_spec(a: int, b: int) -> int {
    let m = if mul_mag(a, b) > FX_MAX {
        FX_MAX as int
    } else {
        mul_mag(a, b)
    };
    if (a < 0) != (b < 0) {
        -m
    } else {
        m
    }
}

/// Saturating fixed-point product, truncated toward zero.
pub fn fx_mul(a: i64, b: i64) -> (r: i64)
    requires
        fx_ok(a),
        fx_ok(b),
    ensures
        r == fx_mul_spec(a as int, b as int),
        fx_ok(r),
{
    let neg: bool = (a < 0) != (b < 0);
    let ua: u64 = (if a < 0 {
        -a
    } else {
        a
    }) as u64;
    let ub: u64 = (if b < 0 {
        -b
    } else {
        b
    }) as u64;
    proof {
        assert(ua as int == abs_i(a as int));
        assert(ub as int == abs_i(b as int));
        assert((ua as int) * (ub as int) <= (FX_MAX as int) * (FX_MAX as int))
            by (nonlinear_arith)
            requires
                0 <= ua as int <= FX_MAX as int,
                0 <= ub as int <= FX_MAX as int,
        ;
    }
    let q: u128 = (ua as u128 * ub as u128) / (FX_ONE as u128);
    if q > FX_MAX as u128 {
        if neg {
            -FX_MAX
        } else {
            FX_MAX
        }
    } else {
        let qi: i64 = q as i64;
        if neg {
            -qi
        } else {
            qi
        }
    }
}

/// A zero factor yields a zero product, whichever side it stands on.
pub proof fn lemma_fx_mul_zero(a: int)
    ensures
        fx_mul_spec(a, 0) == 0,
        fx_mul_spec(0, a) == 0,
{
    assert(abs_i(0) == 0);
    assert(abs_i(a) * 0 == 0);
    assert(0 * abs_i(a) == 0);
    assert(0int / (FX_ONE as int) == 0);
}

/// One toroidal coordinate step: fold a value one unit off the range back
/// into `[0, FX_ONE)`.
pub open spec fn wrap_unit_spec(v: int) -> int {
    if v < 0 {
        v + FX_ONE
    } else if v >= FX_ONE {
        v - FX_ONE
    } else {
        v
    }
}

/// Fold a coordinate that drifted at most one unit off the range back into
/// `[0, FX_ONE)`.
pub fn wrap_unit(v: i64) -> (r: i64)
    requires
        -FX_ONE <= v < 2 * FX_ONE,
    ensures
        r == wrap_unit_spec(v as int),
        0 <= r < FX_ONE,
{
    if v < 0 {
        v + FX_ONE
    } else if v >= FX_ONE {
        v - FX_ONE
    } else {
        v
    }
}

/// Fold an angle at most one turn off the range back into
/// `[-FX_PI, FX_PI]`.
pub open spec fn wrap_pi_spec(v: int) -> int {
    if v > FX_PI {
        v - FX_TAU
    } else if v < -(FX_PI as int) {
        v + FX_TAU
    } else {
        v
    }
}

/// Fold an angle at most one turn off the range back into
/// `[-FX_PI, FX_PI]`.
pub fn wrap_pi(v: i64) -> (r: i64)
    requires
        -FX_TAU <= v <= FX_TAU,
    ensures
        r == wrap_pi_spec(v as int),
        -FX_PI <= r <= FX_PI,
{
    if v > FX_PI {
        v - FX_TAU
    } else if v < -FX_PI {
        v + FX_TAU
    } else {
        v
    }
}

/// Coefficient of the arctangent approximation (0.273 in fixed-point steps).
pub const ATAN_K: i64 = 17891;

/// Denominator of the quadratic sine approximation (pi squared in
/// fixed-point steps).
pub const SIN_DENOM: i64 = 646818;

/// The integer square root: the largest value whose square does not exceed
/// `n`.
pub open spec fn sqrt_floor(n: nat) -> nat
    decreases n,
{
    if n == 0 {
        0
    } else {
        let p = sqrt_floor((n - 1) as nat);
        if (p + 1) * (p + 1) <= n {
            (p + 1) as nat
        } else {
            p
        }
    }
}

/// `sqrt_floor` is the floor of the square root.
pub proof fn lemma_sqrt_floor(n: nat)
    ensures
        sqrt_floor(n) * sqrt_floor(n) <= n,
        (sqrt_floor(n) + 1) * (sqrt_floor(n) + 1) > n,
    decreases n,
{
    if n == 0 {
        assert(sqrt_floor(0) == 0);
        assert((sqrt_floor(n) + 1) * (sqrt_floor(n) + 1) == 1) by (nonlinear_arith)
            requires
                sqrt_floor(n) == 0,
        ;
    } else {
        lemma_sqrt_floor((n - 1) as nat);
        let p = sqrt_floor((n - 1) as nat);
        assert(p * p <= (n - 1) as nat);
        assert((p + 1) * (p + 1) > (n - 1) as nat);
        if (p + 1) * (p + 1) <= n {
            assert(sqrt_floor(n) == (p + 1) as nat);
            assert((p + 1) * (p + 1) < (p + 2) * (p + 2)) by (nonlinear_arith)
                requires
                    p >= 0,
            ;
            assert((p + 2) * (p + 2) > n);
            assert((sqrt_floor(n) + 1) * (sqrt_floor(n) + 1) == (p + 2) * (p + 2));
        } else {
            assert(sqrt_floor(n) == p);
            assert((p + 1) * (p + 1) > n);
            assert((sqrt_floor(n) + 1) * (sqrt_floor(n) + 1) == (p + 1) * (p + 1));
        }
    }
}

/// Only one value can be the floor of the square root.
pub proof fn lemma_sqrt_unique(n: nat, r: nat)
    requires
        r * r <= n,
        n < (r + 1) * (r + 1),
    ensures
        r == sqrt_floor(n),
{
    lemma_sqrt_floor(n);
    let s = sqrt_floor(n);
    if r < s {
        assert((r + 1) * (r + 1) <= s * s) by (nonlinear_arith)
            requires
                0 <= r,
                r + 1 <= s,
        ;
    } else if s < r {
        assert((s + 1) * (s + 1) <= r * r) by (nonlinear_arith)
            requires
                0 <= s,
                s + 1 <= r,
        ;
    }
}

/// The integer square root, by bisection.
pub fn isqrt(n: u128) -> (r: u64)
    requires
        n < 0x4_0000_0000_0000_0000_0000,
    ensures
        r as nat == sqrt_floor(n as nat),
        (r as int) * (r as int) <= n as int,
        (r as int + 1) * (r as int + 1) > n as int,
        r < 0x200_0000_0000,
{
    let mut lo: u64 = 0;
    let mut hi: u64 = 0x200_0000_0000;
    proof {
        assert((hi as int) * (hi as int) == 0x4_0000_0000_0000_0000_0000);
    }
    while hi - lo > 1
        invariant
            lo < hi <= 0x200_0000_0000,
            (lo as int) * (lo as int) <= n as int,
            (hi as int) * (hi as int) > n as int,
        decreases hi - lo,
    {
        let mid: u64 = lo + (hi - lo) / 2;
        proof {
            assert((mid as int) * (mid as int) <= 0x4_0000_0000_0000_0000_0000)
                by (nonlinear_arith)
                requires
                    0 <= mid as int <= 0x200_0000_0000,
            ;
        }
        let sq: u128 = (mid as u128) * (mid as u128);
        if sq <= n {
            lo = mid;
        } else {
            hi = mid;
        }
    }
    proof {
        lemma_sqrt_unique(n as nat, lo as nat);
    }
    lo
}

/// The Euclidean length of a displacement, rounded down.
pub open spec fn hyp_spec(dx: int, dy: int) -> int {
    sqrt_floor((dx * dx + dy * dy) as nat) as int
}

/// The Euclidean length of a displacement, rounded down.
pub fn hyp_fx(dx: i64, dy: i64) -> (r: i64)
    requires
        -0x10_0000 <= dx <= 0x10_0000,
        -0x10_0000 <= dy <= 0x10_0000,
    ensures
        r == hyp_spec(dx as int, dy as int),
        0 <= r <= 0x20_0000,
{
    proof {
        assert(0 <= (dx as int) * (dx as int) <= 0x100_0000_0000) by (nonlinear_arith)
            requires
                -0x10_0000 <= dx as int <= 0x10_0000,
        ;
        assert(0 <= (dy as int) * (dy as int) <= 0x100_0000_0000) by (nonlinear_arith)
            requires
                -0x10_0000 <= dy as int <= 0x10_0000,
        ;
    }
    let sq: u128 = (dx as i128 * dx as i128) as u128 + (dy as i128 * dy as i128) as u128;
    let r: u64 = isqrt(sq);
    proof {
        if r as int > 0x20_0000 {
            assert((r as int) * (r as int) >= 0x20_0001 * 0x20_0001) by (nonlinear_arith)
                requires
                    r as int >= 0x20_0001,
            ;
            assert(false);
        }
    }
    r as i64
}

/// The arctangent of a ratio in `[0, 1]`, in fixed-point angle steps:
/// `z * (pi/4 + 0.273 * (1 - z))`.
pub open spec fn atan_unit_spec(z: int) -> int {
    (z * (FX_QUARTER_PI + (ATAN_K * (FX_ONE - z)) / (FX_ONE as int))) / (FX_ONE as int)
}

/// The arctangent of a ratio in `[0, 1]`, in fixed-point angle steps.
pub fn atan_unit(z: i64) -> (r: i64)
    requires
        0 <= z <= FX_ONE,
    ensures
        r == atan_unit_spec(z as int),
        0 <= r <= FX_QUARTER_PI + ATAN_K,
{
    proof {
        assert(0 <= ATAN_K as int * (FX_ONE - z) <= ATAN_K as int * FX_ONE)
            by (nonlinear_arith)
            requires
                0 <= FX_ONE - z <= FX_ONE as int,
                0 < ATAN_K as int,
        ;
    }
    let k: u64 = (ATAN_K as u64 * (FX_ONE - z) as u64) / (FX_ONE as u64);
    proof {
        vstd::arithmetic::div_mod::lemma_div_is_ordered(
            ATAN_K as int * (FX_ONE - z),
            ATAN_K as int * FX_ONE as int,
            FX_ONE as int,
        );
        vstd::arithmetic::div_mod::lemma_div_by_multiple(ATAN_K as int, FX_ONE as int);
        assert(k as int <= ATAN_K as int);
    }
    let inner: u64 = FX_QUARTER_PI as u64 + k;
    proof {
        assert((z as int) * (inner as int) <= 65536 * (FX_QUARTER_PI + ATAN_K) as int)
            by (nonlinear_arith)
            requires
                0 <= z as int <= 65536,
                0 <= inner as int <= (FX_QUARTER_PI + ATAN_K) as int,
        ;
    }
    let num: u64 = (z as u64) * inner;
    proof {
        assert((z as int) * (inner as int) <= (FX_ONE as int) * (inner as int))
            by (nonlinear_arith)
            requires
                0 <= z <= FX_ONE as int,
                0 <= inner as int,
        ;
        vstd::arithmetic::div_mod::lemma_div_is_ordered(
            (z as int) * (inner as int),
            (FX_ONE as int) * (inner as int),
            FX_ONE as int,
        );
        vstd::arithmetic::div_mod::lemma_div_multiples_vanish(
            inner as int,
            FX_ONE as int,
        );
    }
    (num / FX_ONE as u64) as i64
}

/// The angle of a displacement, in fixed-point angle steps in
/// `[-FX_PI, FX_PI]`, measured from the positive first axis; zero for the
/// zero displacement. Built octant by octant from `atan_unit_spec`.
pub open spec fn atan2_spec(y: int, x: int) -> int {
    let ax = abs_i(x);
    let ay = abs_i(y);
    if ax == 0 && ay == 0 {
        0
    } else {
        let base = if ax >= ay {
            atan_unit_spec((ay * FX_ONE) / ax)
        } else {
            FX_HALF_PI - atan_unit_spec((ax * FX_ONE) / ay)
        };
        let r0 = if x >= 0 {
            base
        } else {
            FX_PI - base
        };
        if y < 0 {
            -r0
        } else {
            r0
        }
    }
}

/// The angle of a displacement, in fixed-point angle steps.
pub fn atan2_fx(y: i64, x: i64) -> (r: i64)
    requires
        fx_ok(y),
        fx_ok(x),
    ensures
        r == atan2_spec(y as int, x as int),
        -FX_PI <= r <= FX_PI,
{
    let ax: u64 = (if x < 0 {
        -x
    } else {
        x
    }) as u64;
    let ay: u64 = (if y < 0 {
        -y
    } else {
        y
    }) as u64;
    if ax == 0 && ay == 0 {
        return 0;
    }
    let base: i64 = if ax >= ay {
        proof {
            assert(ay as int * FX_ONE <= ax as int * FX_ONE) by (nonlinear_arith)
                requires
                    0 <= ay as int <= ax as int,
                    0 < FX_ONE,
            ;
            vstd::arithmetic::div_mod::lemma_div_is_ordered(
                ay as int * FX_ONE,
                ax as int * FX_ONE,
                ax as int,
            );
            vstd::arithmetic::div_mod::lemma_div_by_multiple(FX_ONE as int, ax as int);
            vstd::arithmetic::div_mod::lemma_div_pos_is_pos(ay as int * FX_ONE, ax as int);
            assert(ay as int * FX_ONE >= 0) by (nonlinear_arith)
                requires
                    ay as int >= 0,
            ;
        }
        let z: u64 = ay * (FX_ONE as u64) / ax;
        atan_unit(z as i64)
    } else {
        proof {
            assert(ax as int * FX_ONE <= ay as int * FX_ONE) by (nonlinear_arith)
                requires
                    0 <= ax as int <= ay as int,
                    0 < FX_ONE,
            ;
            vstd::arithmetic::div_mod::lemma_div_is_ordered(
                ax as int * FX_ONE,
                ay as int * FX_ONE,
                ay as int,
            );
            vstd::arithmetic::div_mod::lemma_div_by_multiple(FX_ONE as int, ay as int);
            vstd::arithmetic::div_mod::lemma_div_pos_is_pos(ax as int * FX_ONE, ay as int);
            assert(ax as int * FX_ONE >= 0) by (nonlinear_arith)
                requires
                    ax as int >= 0,
            ;
        }
        let z: u64 = ax * (FX_ONE as u64) / ay;
        FX_HALF_PI - atan_unit(z as i64)
    };
    let r0: i64 = if x >= 0 {
        base
    } else {
        FX_PI - base
    };
    if y < 0 {
        -r0
    } else {
        r0
    }
}

/// The sine of an angle in `[0, FX_PI]`: the quadratic approximation
/// `4 t (pi - t) / pi^2`, capped at one.
pub open spec fn sin_half_spec(t: int) -> int {
    let v = (4 * t * (FX_PI - t)) / (SIN_DENOM as int);
    if v > FX_ONE {
        FX_ONE as int
    } else {
        v
    }
}

/// The sine of an angle in `[-FX_PI, FX_PI]`, odd around zero.
pub open spec fn sin_spec(t: int) -> int {
    if t >= 0 {
        sin_half_spec(t)
    } else {
        -sin_half_spec(-t)
    }
}

/// The cosine of an angle in `[-FX_PI, FX_PI]`: the sine a quarter turn
/// ahead.
pub open spec fn cos_spec(t: int) -> int {
    sin_spec(wrap_pi_spec(t + FX_HALF_PI))
}

fn sin_half(t: i64) -> (r: i64)
    requires
        0 <= t <= FX_PI,
    ensures
        r == sin_half_spec(t as int),
        0 <= r <= FX_ONE,
{
    proof {
        assert(0 <= (t as int) * (FX_PI - t) <= (FX_PI as int) * (FX_PI as int))
            by (nonlinear_arith)
            requires
                0 <= t as int <= FX_PI as int,
        ;
        vstd::arithmetic::div_mod::lemma_div_pos_is_pos(
            4 * (t as int) * (FX_PI - t),
            SIN_DENOM as int,
        );
        assert(4 * ((t as int) * (FX_PI - t)) == 4 * (t as int) * (FX_PI - t))
            by (nonlinear_arith);
    }
    let num: u64 = 4 * (t as u64) * ((FX_PI - t) as u64);
    let v: u64 = num / (SIN_DENOM as u64);
    if v > FX_ONE as u64 {
        FX_ONE
    } else {
        v as i64
    }
}

/// The sine of an angle in `[-FX_PI, FX_PI]`.
pub fn sin_fx(t: i64) -> (r: i64)
    requires
        -FX_PI <= t <= FX_PI,
    ensures
        r == sin_spec(t as int),
        -FX_ONE <= r <= FX_ONE,
{
    if t >= 0 {
        sin_half(t)
    } else {
        -sin_half(-t)
    }
}

/// The cosine of an angle in `[-FX_PI, FX_PI]`.
pub fn cos_fx(t: i64) -> (r: i64)
    requires
        -FX_PI <= t <= FX_PI,
    ensures
        r == cos_spec(t as int),
        -FX_ONE <= r <= FX_ONE,
{
    sin_fx(wrap_pi(t + FX_HALF_PI))
}

/// A product with a factor within one keeps the other factor's magnitude.
pub proof fn lemma_fx_mul_le_factor(a: int, b: int)
    requires
        -FX_ONE <= a <= FX_ONE,
        0 <= b,
    ensures
        abs_i(fx_mul_spec(a, b)) <= b,
{
    assert(abs_i(a) * abs_i(b) <= (FX_ONE as int) * b) by (nonlinear_arith)
        requires
            0 <= abs_i(a) <= FX_ONE as int,
            abs_i(b) == b,
            0 <= b,
    ;
    vstd::arithmetic::div_mod::lemma_div_is_ordered(
        abs_i(a) * abs_i(b),
        (FX_ONE as int) * b,
        FX_ONE as int,
    );
    vstd::arithmetic::div_mod::lemma_div_multiples_vanish(b, FX_ONE as int);
    vstd::arithmetic::div_mod::lemma_div_pos_is_pos(abs_i(a) * abs_i(b), FX_ONE as int);
    assert(abs_i(a) * abs_i(b) >= 0) by (nonlinear_arith)
        requires
            abs_i(a) >= 0,
            abs_i(b) >= 0,
    ;
}

/// Division truncated toward zero, by a positive divisor.
pub open spec fn div_trunc(a: int, d: int) -> int
    recommends
        d > 0,
{
    if a >= 0 {
        a / d
    } else {
        -((-a) / d)
    }
}

/// Division truncated toward zero, by a positive divisor.
pub fn div_trunc_i128(a: i128, d: u64) -> (r: i128)
    requires
        d > 0,
        -0x4000_0000_0000_0000_0000_0000_0000_0000 < a,
    ensures
        r == div_trunc(a as int, d as int),
{
    if a >= 0 {
        ((a as u128) / (d as u128)) as i128
    } else {
        proof {
            vstd::arithmetic::div_mod::lemma_div_is_ordered(0, -(a as int), d as int);
            vstd::arithmetic::div_mod::lemma_div_is_ordered(
                (-(a as int)) / (d as int),
                -(a as int),
                1,
            );
            vstd::arithmetic::div_mod::lemma_div_is_ordered((-(a as int)), -(a as int), d as int);
        }
        -((((-a) as u128) / (d as u128)) as i128)
    }
}

} // verus!
