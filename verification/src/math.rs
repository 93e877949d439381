//! Fixed-point plane geometry: coordinates, squared distances, an integer
//! square root, and division rounded toward zero.

use vstd::arithmetic::div_mod::{
    lemma_div_pos_is_pos, lemma_fundamental_div_mod, lemma_mod_division_less_than_divisor,
    lemma_div_nonincreasing,
};
use vstd::arithmetic::mul::lemma_mul_nonnegative;
use vstd::prelude::*;

verus! {

/// Fixed-point scale of a unit direction vector: a direction of Euclidean
/// length one is stored with components in `-DIR_SCALE ..= DIR_SCALE`.
pub const DIR_SCALE: i64 = 65536;

/// Largest magnitude a world coordinate may take. The bound keeps every
/// product formed by the aim and probe stages comfortably inside `i64`.
pub const MAX_WORLD: i64 = 2097152;

/// Largest magnitude a raw screen coordinate or window dimension may take.
/// Mapped pointer positions then stay within `MAX_WORLD`.
pub const MAX_SCREEN: i64 = 1048576;

/// A point or translation of the 2D world, in fixed-point world units.
#[derive(Clone, Copy, PartialEq, Eq, Structural, Debug)]
pub struct Vec2 {
    pub x: i64,
    pub y: i64,
}

/// The square of an integer.
pub open spec fn sq(x: int) -> int {
    x * x
}

/// The absolute value of an integer.
pub open spec fn abs_val(x: int) -> int {
    if x >= 0 {
        x
    } else {
        -x
    }
}

/// Both coordinates within the world bound.
pub open spec fn in_world(v: Vec2) -> bool {
    &&& -MAX_WORLD <= v.x <= MAX_WORLD
    &&& -MAX_WORLD <= v.y <= MAX_WORLD
}

/// Squared Euclidean distance between two points.
pub open spec fn dist_sq(a: Vec2, b: Vec2) -> int {
    sq(b.x - a.x) + sq(b.y - a.y)
}

/// Euclidean distance between two points, rounded down to whole units.
pub open spec fn dist(a: Vec2, b: Vec2) -> int {
    int_sqrt(dist_sq(a, b))
}

/// Quotient of `n` by `d`, rounded toward zero, as Rust's `/` rounds.
pub open spec fn div_tz(n: int, d: int) -> int {
    if n >= 0 {
        n / d
    } else {
        -((-n) / d)
    }
}

/// Floor of the square root of `n` (0 for negative `n`).
pub open spec fn int_sqrt(n: int) -> int
    decreases n,
{
    if n <= 0 {
        0
    } else {
        let r = int_sqrt(n - 1);
        if sq(r + 1) <= n {
            r + 1
        } else {
            r
        }
    }
}

/// `int_sqrt(n)` really is the floor of the square root: its square is at
/// most `n`, and the next square is beyond `n`.
pub proof fn lemma_int_sqrt_bounds(n: int)
    requires
        n >= 0,
    ensures
        0 <= int_sqrt(n),
        sq(int_sqrt(n)) <= n,
        n < sq(int_sqrt(n) + 1),
    decreases n,
{
    if n == 0 {
    } else {
        lemma_int_sqrt_bounds(n - 1);
        let r = int_sqrt(n - 1);
        if sq(r + 1) <= n {
            assert(sq(r + 2) == sq(r + 1) + 2 * (r + 1) + 1) by (nonlinear_arith);
            assert(n - 1 < sq(r + 1));
        }
    }
}

/// There is only one floor square root.
pub proof fn lemma_int_sqrt_unique(n: int, r: int)
    requires
        0 <= r,
        sq(r) <= n,
        n < sq(r + 1),
    ensures
        r == int_sqrt(n),
{
    lemma_mul_nonnegative(r, r);
    lemma_int_sqrt_bounds(n);
    let s = int_sqrt(n);
    if r < s {
        assert(sq(r + 1) <= sq(s)) by (nonlinear_arith)
            requires
                0 <= r + 1 <= s,
        ;
    }
    if s < r {
        assert(sq(s + 1) <= sq(r)) by (nonlinear_arith)
            requires
                0 <= s + 1 <= r,
        ;
    }
}

/// Floor square root of a `u64`, by bisection.
pub fn isqrt_u64(n: u64) -> (r: u64)
    ensures
        r == int_sqrt(n as int),
        r < 4294967296,
{
    let mut lo: u64 = 0;
    let mut hi: u64 = 4294967296;
    while lo + 1 < hi
        invariant
            lo < hi <= 4294967296,
            sq(lo as int) <= n as int,
            (n as int) < sq(hi as int),
        decreases hi - lo,
    {
        let mid: u64 = lo + (hi - lo) / 2;
        proof {
            assert((mid as int) * (mid as int) <= 4294967296 * 4294967296) by (nonlinear_arith)
                requires
                    0 <= mid as int <= 4294967296,
            ;
        }
        if (mid as u128) * (mid as u128) <= (n as u128) {
            lo = mid;
        } else {
            hi = mid;
        }
    }
    proof {
        lemma_int_sqrt_unique(n as int, lo as int);
    }
    lo
}

/// Quotient of `n` by `d` rounded toward zero, matching `div_tz`.
pub fn div_trunc(n: i64, d: i64) -> (q: i64)
    requires
        1 <= d,
        -0x4000000000000000 <= n <= 0x4000000000000000,
    ensures
        q == div_tz(n as int, d as int),
{
    if n >= 0 {
        let q: u64 = (n as u64) / (d as u64);
        proof {
            lemma_div_nonincreasing(n as int, d as int);
            lemma_div_pos_is_pos(n as int, d as int);
        }
        q as i64
    } else {
        let m: u64 = (-n) as u64;
        let q: u64 = m / (d as u64);
        proof {
            lemma_div_nonincreasing(m as int, d as int);
            lemma_div_pos_is_pos(m as int, d as int);
        }
        -(q as i64)
    }
}

/// A squared distance is never negative, and vanishes exactly when the two
/// points coincide.
pub proof fn lemma_dist_sq_nonneg(a: Vec2, b: Vec2)
    ensures
        dist_sq(a, b) >= 0,
        dist_sq(a, b) == 0 <==> a == b,
{
    let dx = b.x - a.x;
    let dy = b.y - a.y;
    assert(dx * dx >= 0 && (dx != 0 ==> dx * dx > 0)) by (nonlinear_arith);
    assert(dy * dy >= 0 && (dy != 0 ==> dy * dy > 0)) by (nonlinear_arith);
}

/// A component of a vector is no longer than the floor square root of the
/// vector's squared length.
pub proof fn lemma_component_within_sqrt(delta: int, n: int, l: int)
    requires
        sq(delta) <= n,
        n < sq(l + 1),
        0 <= l,
    ensures
        -l <= delta <= l,
{
    assert(-l <= delta <= l) by (nonlinear_arith)
        requires
            delta * delta < (l + 1) * (l + 1),
            0 <= l,
    ;
}

/// Euclidean distance between two points, rounded down to whole units, by
/// way of the integer square root of the squared distance.
pub fn distance(a: Vec2, b: Vec2) -> (d: i64)
    requires
        in_world(a),
        in_world(b),
    ensures
        d == dist(a, b),
        0 <= d < 8388608,
{
    let dx: i64 = b.x - a.x;
    let dy: i64 = b.y - a.y;
    proof {
        assert(dx * dx <= 4194304 * 4194304 && dx * dx >= 0) by (nonlinear_arith)
            requires
                -4194304 <= dx <= 4194304,
        ;
        assert(dy * dy <= 4194304 * 4194304 && dy * dy >= 0) by (nonlinear_arith)
            requires
                -4194304 <= dy <= 4194304,
        ;
    }
    let nsq: i64 = dx * dx + dy * dy;
    let d: u64 = isqrt_u64(nsq as u64);
    proof {
        lemma_int_sqrt_bounds(nsq as int);
        assert(int_sqrt(nsq as int) < 8388608) by {
            let l = int_sqrt(nsq as int);
            assert(l >= 8388608 ==> sq(l) >= 8388608 * 8388608) by (nonlinear_arith);
        }
    }
    d as i64
}

/// How a quotient rounded toward zero relates to the dividend: `d * q`
/// never overshoots `n`, lands within `d - 1` of it, and keeps its sign.
pub proof fn lemma_div_tz_bounds(n: int, d: int)
    requires
        1 <= d,
    ensures
        n >= 0 ==> 0 <= d * div_tz(n, d) <= n < d * div_tz(n, d) + d,
        n < 0 ==> n <= d * div_tz(n, d) <= 0 && d * div_tz(n, d) - d < n,
{
    if n >= 0 {
        lemma_fundamental_div_mod(n, d);
        lemma_mod_division_less_than_divisor(n, d);
        lemma_div_pos_is_pos(n, d);
        lemma_mul_nonnegative(d, n / d);
    } else {
        lemma_fundamental_div_mod(-n, d);
        lemma_mod_division_less_than_divisor(-n, d);
        lemma_div_pos_is_pos(-n, d);
        lemma_mul_nonnegative(d, (-n) / d);
        assert(d * div_tz(n, d) == -(d * ((-n) / d))) by (nonlinear_arith)
            requires
                div_tz(n, d) == -((-n) / d),
        ;
    }
}

} // verus!
