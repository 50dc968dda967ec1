//! Fixed-point plane geometry for the simulation core.
//!
//! A screen unit is split into `UNIT` milliunits; a direction is a unit
//! vector scaled by `UNIT`, so its components lie in `[-UNIT, UNIT]`.
//! Lengths come from an exact integer square root, so every operation
//! here has a precise mathematical contract.

use vstd::prelude::*;

verus! {

/// Milliunits per screen unit: the fixed-point scale of every coordinate.
pub const UNIT: i64 = 1000;

/// Positions are clamped to this many milliunits on each axis.
pub const POS_LIMIT: i64 = 1_000_000_000_000;

/// Speeds are clamped to this many milliunits per millisecond.
pub const SPEED_LIMIT: i64 = 1_000_000_000;

/// A single step advances time by at most this many milliseconds.
pub const DT_LIMIT: i64 = 3_600_000;

/// A two-dimensional point or vector, in milliunits.
#[derive(Clone, Copy, PartialEq, Eq, Structural, Debug)]
pub struct Vec2 {
    pub x: i64,
    pub y: i64,
}

/// `v` held to the closed interval `[lo, hi]`.
pub open spec fn clamp_spec(v: int, lo: int, hi: int) -> int {
    if v < lo {
        lo
    } else if v > hi {
        hi
    } else {
        v
    }
}

/// Quotient of `a` by a positive `d`, rounded toward zero, as Rust's
/// integer division rounds.
pub open spec fn tdiv(a: int, d: int) -> int
    recommends
        d > 0,
{
    if a >= 0 {
        a / d
    } else {
        -((-a) / d)
    }
}

/// `r` is the integer square root of `n`, rounded down.
pub open spec fn is_sqrt(n: nat, r: nat) -> bool {
    r * r <= n < (r + 1) * (r + 1)
}

/// The integer square root of `n`, rounded down.
pub open spec fn sqrt(n: nat) -> nat {
    choose|r: nat| #[trigger] is_sqrt(n, r)
}

/// Every natural number has an integer square root.
proof fn lemma_sqrt_exists(n: nat)
    ensures
        exists|r: nat| #[trigger] is_sqrt(n, r),
    decreases n,
{
    if n == 0 {
        assert(is_sqrt(0, 0)) by {
            assert((0 as nat) * (0 as nat) == 0 && ((0 + 1) as nat) * ((0 + 1) as nat) == 1)
                by (nonlinear_arith);
        }
    } else {
        lemma_sqrt_exists((n - 1) as nat);
        let r = choose|r: nat| #[trigger] is_sqrt((n - 1) as nat, r);
        if n < (r + 1) * (r + 1) {
            assert(is_sqrt(n, r));
        } else {
            assert(n == (r + 1) * (r + 1));
            assert((r + 1) * (r + 1) < (r + 2) * (r + 2)) by (nonlinear_arith);
            assert(is_sqrt(n, r + 1));
        }
    }
}

/// The integer square root is unique.
proof fn lemma_sqrt_unique(n: nat, r1: nat, r2: nat)
    requires
        is_sqrt(n, r1),
        is_sqrt(n, r2),
    ensures
        r1 == r2,
{
    if r1 < r2 {
        assert((r1 + 1) * (r1 + 1) <= r2 * r2) by (nonlinear_arith)
            requires
                r1 + 1 <= r2,
        ;
    }
    if r2 < r1 {
        assert((r2 + 1) * (r2 + 1) <= r1 * r1) by (nonlinear_arith)
            requires
                r2 + 1 <= r1,
        ;
    }
}

/// Any witness of `is_sqrt` is the value of `sqrt`.
pub proof fn lemma_sqrt_is(n: nat, r: nat)
    requires
        is_sqrt(n, r),
    ensures
        sqrt(n) == r,
{
    lemma_sqrt_exists(n);
    let c = choose|c: nat| #[trigger] is_sqrt(n, c);
    lemma_sqrt_unique(n, c, r);
}

/// The integer square root, computed by bisection.
pub fn isqrt(n: u128) -> (r: u64)
    ensures
        r as nat == sqrt(n as nat),
        is_sqrt(n as nat, r as nat),
{
    let mut lo: u128 = 0;
    let mut hi: u128 = 0x1_0000_0000_0000_0000;
    proof {
        assert((0x1_0000_0000_0000_0000 as int) * (0x1_0000_0000_0000_0000 as int) > u128::MAX as int)
            by (nonlinear_arith);
    }
    while lo + 1 < hi
        invariant
            lo < hi,
            hi <= 0x1_0000_0000_0000_0000,
            lo * lo <= n as int,
            (n as int) < hi * hi,
        decreases hi - lo,
    {
        let mid = lo + (hi - lo) / 2;
        proof {
            assert(mid * mid <= 0xffff_ffff_ffff_ffff * 0xffff_ffff_ffff_ffff) by (nonlinear_arith)
                requires
                    0 <= mid <= 0xffff_ffff_ffff_ffff,
            ;
            assert(0xffff_ffff_ffff_ffff * 0xffff_ffff_ffff_ffff <= u128::MAX as int)
                by (nonlinear_arith);
        }
        if mid * mid <= n {
            lo = mid;
        } else {
            hi = mid;
        }
    }
    proof {
        lemma_sqrt_is(n as nat, lo as nat);
    }
    lo as u64
}

/// The square of a 64-bit value fits comfortably below half of `u128::MAX`.
proof fn lemma_square_i64_bounds(a: int)
    requires
        i64::MIN <= a <= i64::MAX,
    ensures
        0 <= a * a,
        a * a <= 0x4000_0000_0000_0000_0000_0000_0000_0000,
{
    assert(0 <= a * a && a * a <= 0x4000_0000_0000_0000_0000_0000_0000_0000) by (nonlinear_arith)
        requires
            -0x8000_0000_0000_0000 <= a <= 0x7fff_ffff_ffff_ffff,
    ;
}

/// The squared Euclidean length of `v`; exact, it always fits in `u128`.
pub open spec fn norm_sq_spec(v: Vec2) -> int {
    v.x * v.x + v.y * v.y
}

/// The squared Euclidean length of `v`.
pub fn norm_sq(v: Vec2) -> (n: u128)
    ensures
        n as int == norm_sq_spec(v),
{
    proof {
        lemma_square_i64_bounds(v.x as int);
        lemma_square_i64_bounds(v.y as int);
    }
    let xx = (v.x as i128 * v.x as i128) as u128;
    let yy = (v.y as i128 * v.y as i128) as u128;
    xx + yy
}

/// Both coordinates of `v` lie within the clamped playing field.
pub open spec fn in_bounds(v: Vec2) -> bool {
    -POS_LIMIT <= v.x <= POS_LIMIT && -POS_LIMIT <= v.y <= POS_LIMIT
}

/// A direction vector: a unit vector scaled by `UNIT`, so each
/// component is at most `UNIT` in magnitude.
pub open spec fn is_direction(v: Vec2) -> bool {
    -UNIT <= v.x <= UNIT && -UNIT <= v.y <= UNIT
}

/// A product is bounded by the product of the bounds.
pub proof fn lemma_mul_bound(a: int, b: int, ca: int, cb: int)
    requires
        -ca <= a <= ca,
        -cb <= b <= cb,
    ensures
        -(ca * cb) <= a * b <= ca * cb,
{
    assert(-(ca * cb) <= a * b <= ca * cb) by (nonlinear_arith)
        requires
            -ca <= a <= ca,
            -cb <= b <= cb,
    ;
}

/// `v` held to `[lo, hi]`.
pub fn clamp_i64(v: i64, lo: i64, hi: i64) -> (r: i64)
    requires
        lo <= hi,
    ensures
        r as int == clamp_spec(v as int, lo as int, hi as int),
{
    if v < lo {
        lo
    } else if v > hi {
        hi
    } else {
        v
    }
}

/// Quotient of `a` by `UNIT`, rounded toward zero.
pub fn div_unit(a: i64) -> (r: i64)
    ensures
        r as int == tdiv(a as int, UNIT as int),
        if a >= 0 {
            0 <= r <= a
        } else {
            a <= r <= 0
        },
{
    if a >= 0 {
        let q = (a as u64) / 1000;
        proof {
            vstd::arithmetic::div_mod::lemma_div_nonincreasing(a as int, 1000);
            vstd::arithmetic::div_mod::lemma_div_pos_is_pos(a as int, 1000);
        }
        q as i64
    } else {
        let m = (-(a as i128)) as u128;
        let q = m / 1000;
        proof {
            vstd::arithmetic::div_mod::lemma_div_nonincreasing(m as int, 1000);
            vstd::arithmetic::div_mod::lemma_div_pos_is_pos(m as int, 1000);
        }
        -((q as u64) as i64)
    }
}

/// Quotient of `a * UNIT` by `d`, rounded toward zero, for `|a| <= d`:
/// one scaled component of a normalized vector.
fn unit_quotient(a: i64, d: u64) -> (r: i64)
    requires
        d >= 1,
        -(d as int) <= a as int <= d as int,
    ensures
        r as int == tdiv(a * UNIT, d as int),
        -UNIT <= r <= UNIT,
{
    if a >= 0 {
        let q = (a as u128 * 1000) / (d as u128);
        proof {
            vstd::arithmetic::div_mod::lemma_div_is_ordered(a * 1000, d as int * 1000, d as int);
            vstd::arithmetic::div_mod::lemma_div_multiples_vanish(1000, d as int);
            vstd::arithmetic::div_mod::lemma_div_pos_is_pos(a * 1000, d as int);
        }
        q as i64
    } else {
        let m = (-(a as i128)) as u128;
        let q = (m * 1000) / (d as u128);
        proof {
            vstd::arithmetic::div_mod::lemma_div_is_ordered(m as int * 1000, d as int * 1000, d as int);
            vstd::arithmetic::div_mod::lemma_div_multiples_vanish(1000, d as int);
            vstd::arithmetic::div_mod::lemma_div_pos_is_pos(m as int * 1000, d as int);
        }
        -((q as u64) as i64)
    }
}

/// No component of a vector exceeds the vector's length.
proof fn lemma_component_le_len(x: int, y: int, len: nat)
    requires
        is_sqrt((x * x + y * y) as nat, len),
    ensures
        -(len as int) <= x <= len as int,
        -(len as int) <= y <= len as int,
{
    assert(x * x >= 0 && y * y >= 0) by (nonlinear_arith);
    assert(-(len as int) <= x <= len as int && -(len as int) <= y <= len as int)
        by (nonlinear_arith)
        requires
            len * len <= x * x + y * y,
            x * x + y * y < (len + 1) * (len + 1),
            len >= 0,
    ;
}

/// `v` rescaled to a unit vector times `UNIT`, rounded toward zero on
/// each component; the zero vector has no direction and stays zero.
pub open spec fn normalize_spec(v: Vec2) -> Vec2 {
    let len = sqrt((v.x * v.x + v.y * v.y) as nat) as int;
    if len == 0 {
        Vec2 { x: 0, y: 0 }
    } else {
        Vec2 { x: tdiv(v.x * UNIT, len) as i64, y: tdiv(v.y * UNIT, len) as i64 }
    }
}

/// Rescale `v` to a unit vector times `UNIT`.
pub fn normalize(v: Vec2) -> (r: Vec2)
    ensures
        r == normalize_spec(v),
        is_direction(r),
{
    let n = norm_sq(v);
    let len = isqrt(n);
    if len == 0 {
        Vec2 { x: 0, y: 0 }
    } else {
        proof {
            lemma_component_le_len(v.x as int, v.y as int, len as nat);
        }
        let x = unit_quotient(v.x, len);
        let y = unit_quotient(v.y, len);
        Vec2 { x, y }
    }
}

/// The point `p` lies in the closed disc of radius `r` around `c`:
/// squared Euclidean distance at most `r * r`, the boundary included.
pub open spec fn collides_spec(p: Vec2, c: Vec2, r: int) -> bool {
    (p.x - c.x) * (p.x - c.x) + (p.y - c.y) * (p.y - c.y) <= r * r
}

/// Circle test by squared distance; exact, no square root is taken.
pub fn collides(p: Vec2, c: Vec2, r: i64) -> (hit: bool)
    requires
        in_bounds(p),
        in_bounds(c),
        0 <= r <= SPEED_LIMIT,
    ensures
        hit == collides_spec(p, c, r as int),
{
    let dx = p.x - c.x;
    let dy = p.y - c.y;
    proof {
        lemma_mul_bound(dx as int, dx as int, 2 * POS_LIMIT as int, 2 * POS_LIMIT as int);
        lemma_mul_bound(dy as int, dy as int, 2 * POS_LIMIT as int, 2 * POS_LIMIT as int);
        lemma_mul_bound(r as int, r as int, SPEED_LIMIT as int, SPEED_LIMIT as int);
    }
    let d2 = dx as i128 * dx as i128 + dy as i128 * dy as i128;
    let r2 = r as i128 * r as i128;
    d2 <= r2
}

} // verus!
