//! Integer arithmetic primitives shared by the simulation: squares, absolute
//! value, halving, truncating division and an integer square root.

use vstd::prelude::*;
use vstd::arithmetic::div_mod::{
    lemma_div_is_ordered, lemma_div_multiples_vanish, lemma_div_pos_is_pos,
    lemma_fundamental_div_mod, lemma_mod_division_less_than_divisor,
};

verus! {

/// Largest magnitude allowed for a body coordinate or scale component.
pub const COORD_LIMIT: i64 = 1048576;

/// Largest magnitude allowed for a ball velocity component fed into a tick.
pub const VEL_LIMIT: i64 = 2097152;

/// Largest velocity-component magnitude a paddle bounce can produce; wall
/// bounces accept components up to this bound.
pub const BOUNCE_VEL_LIMIT: i64 = 8388608;

/// Largest allowed angle-aggressiveness tuning constant.
pub const AGGR_LIMIT: i64 = 1024;

/// Vertical distance the human paddle moves per held key per tick.
pub const PADDLE_STEP: i64 = 10;

/// Fixed z-order shared by every body, used only for draw layering.
pub const DRAW_LAYER: i64 = 1;

pub open spec fn sq(a: int) -> int {
    a * a
}

pub open spec fn iabs(a: int) -> int {
    if a < 0 {
        -a
    } else {
        a
    }
}

pub open spec fn half(a: int) -> int {
    a / 2
}

/// Division rounding toward zero, as the hardware division on signed
/// integers does; agrees with Euclidean division on non-negative dividends.
pub open spec fn trunc_div(a: int, b: int) -> int
    recommends
        b >= 1,
{
    if a >= 0 {
        a / b
    } else {
        -((-a) / b)
    }
}

pub open spec fn clamp_spec(x: int, lo: int, hi: int) -> int
    recommends
        lo <= hi,
{
    if x < lo {
        lo
    } else if x > hi {
        hi
    } else {
        x
    }
}

/// Floor of the square root, defined by counting up.
pub open spec fn isqrt_spec(n: int) -> int
    decreases n,
{
    if n <= 0 {
        0
    } else {
        let r = isqrt_spec(n - 1);
        if sq(r + 1) <= n {
            r + 1
        } else {
            r
        }
    }
}

/// `isqrt_spec(n)` is the floor of the square root of `n`.
pub proof fn lemma_isqrt_spec(n: int)
    requires
        n >= 0,
    ensures
        isqrt_spec(n) >= 0,
        sq(isqrt_spec(n)) <= n,
        n < sq(isqrt_spec(n) + 1),
    decreases n,
{
    if n == 0 {
        assert(sq(0int + 1) == 1);
    } else {
        lemma_isqrt_spec(n - 1);
        let r = isqrt_spec(n - 1);
        if sq(r + 1) <= n {
            assert(sq(r + 1) < sq(r + 2)) by (nonlinear_arith)
                requires
                    r >= 0,
            ;
        }
    }
}

/// Only one non-negative integer has its square at or below `n` and the next
/// square above `n`.
pub proof fn lemma_isqrt_unique(n: int, a: int, b: int)
    by (nonlinear_arith)
    requires
        a >= 0,
        b >= 0,
        a * a <= n,
        n < (a + 1) * (a + 1),
        b * b <= n,
        n < (b + 1) * (b + 1),
    ensures
        a == b,
{
}

/// A square at most `m`, with `m` below `sq(n + 1)`, bounds the magnitude of
/// the root by `n`.
pub proof fn lemma_abs_le_of_sq_le(a: int, m: int, n: int)
    by (nonlinear_arith)
    requires
        n >= 0,
        a * a <= m,
        m < (n + 1) * (n + 1),
    ensures
        iabs(a) <= n,
{
}

/// Truncating division shrinks the magnitude below any bound `c` whose
/// product with the divisor dominates the dividend.
pub proof fn lemma_trunc_div_abs_le(a: int, b: int, c: int)
    requires
        b >= 1,
        c >= 0,
        iabs(a) <= c * b,
    ensures
        iabs(trunc_div(a, b)) <= c,
{
    assert(c * b == b * c) by (nonlinear_arith);
    lemma_div_multiples_vanish(c, b);
    if a >= 0 {
        lemma_div_pos_is_pos(a, b);
        lemma_div_is_ordered(a, b * c, b);
    } else {
        lemma_div_pos_is_pos(-a, b);
        lemma_div_is_ordered(-a, b * c, b);
    }
}

proof fn lemma_div_sq_bounds_nonneg(a: int, b: int)
    requires
        a >= 0,
        b >= 1,
    ensures
        sq((a / b) * b) <= sq(a),
        sq(a) - 2 * a * b <= sq((a / b) * b),
{
    let q = a / b;
    let r = a % b;
    lemma_fundamental_div_mod(a, b);
    lemma_mod_division_less_than_divisor(a, b);
    lemma_div_pos_is_pos(a, b);
    assert(sq(q * b) <= sq(a) && sq(a) - 2 * a * b <= sq(q * b)) by (nonlinear_arith)
        requires
            a >= 0,
            b >= 1,
            q >= 0,
            a == b * q + r,
            0 <= r < b,
    ;
}

/// How far a truncating division can move a square: the quotient times the
/// divisor has its square within `2 * |a| * b` of the dividend's square.
pub proof fn lemma_trunc_div_sq_bounds(a: int, b: int)
    requires
        b >= 1,
    ensures
        sq(trunc_div(a, b)) * sq(b) <= sq(a),
        sq(a) - 2 * iabs(a) * b <= sq(trunc_div(a, b)) * sq(b),
{
    let q = trunc_div(a, b);
    if a >= 0 {
        lemma_div_sq_bounds_nonneg(a, b);
        assert((q * b) * (q * b) == (q * q) * (b * b)) by (nonlinear_arith);
        assert(sq(q * b) == sq(q) * sq(b));
    } else {
        let m = -a;
        let p = m / b;
        lemma_div_sq_bounds_nonneg(m, b);
        assert(q == -p);
        assert((p * b) * (p * b) == ((-p) * (-p)) * (b * b) && m * m == a * a) by (nonlinear_arith)
            requires
                m == -a,
        ;
        assert(sq(p * b) == sq(q) * sq(b));
        assert(sq(m) == sq(a));
        assert(iabs(a) == m);
    }
}

pub fn clamp(x: i64, lo: i64, hi: i64) -> (r: i64)
    requires
        lo <= hi,
    ensures
        r as int == clamp_spec(x as int, lo as int, hi as int),
{
    if x < lo {
        lo
    } else if x > hi {
        hi
    } else {
        x
    }
}

/// Multiplies a bounded value by a sign.
pub fn mul_sign(v: i64, s: i64) -> (r: i64)
    requires
        s == 1 || s == -1,
        iabs(v as int) <= BOUNCE_VEL_LIMIT as int,
    ensures
        r as int == (v as int) * (s as int),
        iabs(r as int) == iabs(v as int),
{
    if s == 1 {
        v
    } else {
        -v
    }
}

pub fn half_i64(a: i64) -> (r: i64)
    requires
        a >= 0,
    ensures
        r as int == half(a as int),
{
    ((a as u64) / 2u64) as i64
}

pub fn trunc_div_i128(a: i128, b: i128) -> (r: i128)
    requires
        b >= 1,
        a > i128::MIN,
    ensures
        r as int == trunc_div(a as int, b as int),
{
    if a >= 0 {
        let q: u128 = (a as u128) / (b as u128);
        proof {
            lemma_div_is_ordered(q as int, a as int, 1);
        }
        assert(q <= a as u128);
        q as i128
    } else {
        let m: u128 = (-a) as u128;
        let q: u128 = m / (b as u128);
        assert(q <= m);
        -(q as i128)
    }
}

/// Floor of the square root, by binary search.
pub fn isqrt(n: u128) -> (r: u64)
    requires
        n < 0x40000000000000000000000000000000u128,
    ensures
        r as int == isqrt_spec(n as int),
{
    let mut lo: u128 = 0;
    let mut hi: u128 = 0x8000000000000000u128;
    assert((hi as int) * (hi as int) == 0x40000000000000000000000000000000int) by (nonlinear_arith)
        requires
            hi == 0x8000000000000000u128,
    ;
    while lo + 1 < hi
        invariant
            lo < hi <= 0x8000000000000000u128,
            (lo as int) * (lo as int) <= n as int,
            (n as int) < (hi as int) * (hi as int),
        decreases hi - lo,
    {
        let mid = lo + (hi - lo) / 2;
        assert(lo < mid < hi);
        assert(mid * mid < 0x100000000000000000000000000000000int) by (nonlinear_arith)
            requires
                mid < 0x8000000000000001u128,
        ;
        if mid * mid <= n {
            lo = mid;
        } else {
            hi = mid;
        }
    }
    proof {
        lemma_isqrt_spec(n as int);
        lemma_isqrt_unique(n as int, lo as int, isqrt_spec(n as int));
        assert(sq(lo as int) == (lo as int) * (lo as int));
        assert(sq(lo as int + 1) == (lo as int + 1) * (lo as int + 1));
        assert(sq(isqrt_spec(n as int)) == isqrt_spec(n as int) * isqrt_spec(n as int));
    }
    lo as u64
}

} // verus!
