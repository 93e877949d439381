//! The aim resolver: from the actor's position and the pointer's world
//! position it derives a fixed-point unit direction, the visual ray
//! segment's midpoint, length and rotation, and the actor's heading.

use crate::math::{
    DIR_SCALE, Vec2, dist, dist_sq, distance, div_trunc, div_tz, in_world, int_sqrt,
    lemma_component_within_sqrt, lemma_dist_sq_nonneg, lemma_div_tz_bounds,
    lemma_int_sqrt_bounds, sq,
};
use vstd::prelude::*;

verus! {

/// The one controllable entity: a position and a derived heading. The
/// heading is recomputed from position and pointer every tick, never
/// integrated, so it carries no drift.
#[derive(Clone, Copy, PartialEq, Eq, Structural, Debug)]
pub struct Actor {
    pub pos: Vec2,
    pub heading: Vec2,
}

/// The visual ray segment: fully derived each tick from the actor and the
/// pointer. Its rotation keeps its previous value on a degenerate tick.
#[derive(Clone, Copy, PartialEq, Eq, Structural, Debug)]
pub struct RaySegment {
    pub midpoint: Vec2,
    pub length: i64,
    pub rotation: Vec2,
}

/// Everything one aim resolution yields: heading direction, ray midpoint,
/// ray length and ray rotation.
#[derive(Clone, Copy, PartialEq, Eq, Structural, Debug)]
pub struct AimResult {
    pub direction: Vec2,
    pub midpoint: Vec2,
    pub length: i64,
    pub rotation: Vec2,
}

/// A direction vector scaled by `DIR_SCALE`: each component within one
/// scaled unit of zero.
pub open spec fn unit_scaled(v: Vec2) -> bool {
    &&& -DIR_SCALE <= v.x <= DIR_SCALE
    &&& -DIR_SCALE <= v.y <= DIR_SCALE
}

/// The x component of the normalized actor-to-pointer direction, scaled by
/// `DIR_SCALE`; zero when the two points coincide.
pub open spec fn dir_x(a: Vec2, p: Vec2) -> int {
    if dist_sq(a, p) == 0 {
        0
    } else {
        div_tz((p.x - a.x) * DIR_SCALE, int_sqrt(dist_sq(a, p)))
    }
}

/// The y component of the normalized actor-to-pointer direction, scaled by
/// `DIR_SCALE`; zero when the two points coincide.
pub open spec fn dir_y(a: Vec2, p: Vec2) -> int {
    if dist_sq(a, p) == 0 {
        0
    } else {
        div_tz((p.y - a.y) * DIR_SCALE, int_sqrt(dist_sq(a, p)))
    }
}

/// The scaled direction as a world vector.
pub open spec fn aim_dir(a: Vec2, p: Vec2) -> Vec2 {
    Vec2 { x: dir_x(a, p) as i64, y: dir_y(a, p) as i64 }
}

/// The x coordinate of the point halfway from `a` to `p` (the odd unit
/// rounds toward `a`).
pub open spec fn mid_x(a: Vec2, p: Vec2) -> int {
    a.x + div_tz(p.x - a.x, 2)
}

/// The y coordinate of the point halfway from `a` to `p`.
pub open spec fn mid_y(a: Vec2, p: Vec2) -> int {
    a.y + div_tz(p.y - a.y, 2)
}

/// What resolving the aim from `a` toward `p` yields: the scaled unit
/// direction (zero when `a == p`), the ray's midpoint, its length — exactly
/// the distance from `a` to `p` — and a rotation equal to the direction.
pub open spec fn resolves(a: Vec2, p: Vec2, r: AimResult) -> bool {
    &&& r.direction.x == dir_x(a, p)
    &&& r.direction.y == dir_y(a, p)
    &&& r.midpoint.x == mid_x(a, p)
    &&& r.midpoint.y == mid_y(a, p)
    &&& r.length == dist(a, p)
    &&& r.rotation == r.direction
}

/// One scaled direction component stays within `DIR_SCALE`, and its product
/// with the length is within one length-quantum of the exact value.
proof fn lemma_dir_component(delta: int, l: int)
    requires
        1 <= l,
        -l <= delta <= l,
    ensures
        -DIR_SCALE <= div_tz(delta * DIR_SCALE, l) <= DIR_SCALE,
        sq(l * div_tz(delta * DIR_SCALE, l)) <= sq(delta) * sq(DIR_SCALE as int),
        sq(delta) * sq(DIR_SCALE as int) <= sq(l * div_tz(delta * DIR_SCALE, l)) + 2 * sq(l)
            * DIR_SCALE + sq(l),
{
    let s = DIR_SCALE as int;
    let m = delta * s;
    let q = div_tz(m, l);
    let pl = l * q;
    lemma_div_tz_bounds(m, l);
    assert(sq(m) == sq(delta) * sq(s)) by (nonlinear_arith)
        requires
            m == delta * s,
    ;
    if m >= 0 {
        // 0 <= pl <= m <= pl + (l - 1) and m <= l * s bound the quotient.
        assert(m <= l * s) by (nonlinear_arith)
            requires
                m == delta * s,
                delta <= l,
                s >= 0,
        ;
        assert(q <= s) by (nonlinear_arith)
            requires
                l * q <= l * s,
                l >= 1,
        ;
        assert(q >= 0) by (nonlinear_arith)
            requires
                0 <= l * q,
                l >= 1,
        ;
        assert(sq(pl) <= sq(m)) by (nonlinear_arith)
            requires
                0 <= pl <= m,
        ;
        assert(sq(m) <= sq(pl) + 2 * pl * (l - 1) + sq(l - 1)) by (nonlinear_arith)
            requires
                0 <= pl <= m <= pl + (l - 1),
        ;
        assert(2 * pl * (l - 1) <= 2 * sq(l) * s) by (nonlinear_arith)
            requires
                pl == l * q,
                0 <= q <= s,
                l >= 1,
        ;
        assert(sq(l - 1) <= sq(l)) by (nonlinear_arith)
            requires
                l >= 1,
        ;
    } else {
        // pl - (l - 1) < m <= pl <= 0 and -(l * s) <= m bound the quotient.
        assert(-(l * s) <= m) by (nonlinear_arith)
            requires
                m == delta * s,
                -l <= delta,
                s >= 0,
        ;
        assert(q >= -s) by (nonlinear_arith)
            requires
                -(l * s) <= l * q,
                l >= 1,
        ;
        assert(q <= 0) by (nonlinear_arith)
            requires
                l * q <= 0,
                l >= 1,
        ;
        assert(sq(pl) <= sq(m)) by (nonlinear_arith)
            requires
                m <= pl <= 0,
        ;
        assert(sq(m) <= sq(pl) + 2 * (-pl) * (l - 1) + sq(l - 1)) by (nonlinear_arith)
            requires
                pl - (l - 1) <= m <= pl <= 0,
        ;
        assert(2 * (-pl) * (l - 1) <= 2 * sq(l) * s) by (nonlinear_arith)
            requires
                pl == l * q,
                -s <= q <= 0,
                l >= 1,
        ;
        assert(sq(l - 1) <= sq(l)) by (nonlinear_arith)
            requires
                l >= 1,
        ;
    }
}

/// Both components of the scaled direction stay within `DIR_SCALE`.
pub proof fn lemma_direction_bounds(a: Vec2, p: Vec2)
    ensures
        -DIR_SCALE <= dir_x(a, p) <= DIR_SCALE,
        -DIR_SCALE <= dir_y(a, p) <= DIR_SCALE,
{
    let n = dist_sq(a, p);
    lemma_dist_sq_nonneg(a, p);
    if n != 0 {
        lemma_int_sqrt_bounds(n);
        let l = int_sqrt(n);
        let dx = p.x - a.x;
        let dy = p.y - a.y;
        assert(sq(dx) >= 0 && sq(dy) >= 0) by (nonlinear_arith);
        lemma_component_within_sqrt(dx, n, l);
        lemma_component_within_sqrt(dy, n, l);
        lemma_dir_component(dx, l);
        lemma_dir_component(dy, l);
    }
}

/// As long as the actor and the pointer do not coincide, the scaled
/// direction is unit length up to quantization: its squared norm is at
/// least `DIR_SCALE^2 - 4 * DIR_SCALE - 2`, and at most `DIR_SCALE^2 *
/// (1 + 2 / dist)`. In particular it is never the zero vector.
pub proof fn lemma_direction_near_unit(a: Vec2, p: Vec2)
    requires
        a != p,
    ensures
        sq(DIR_SCALE as int) - 4 * DIR_SCALE - 2 <= sq(dir_x(a, p)) + sq(dir_y(a, p)),
        (sq(dir_x(a, p)) + sq(dir_y(a, p))) * sq(dist(a, p)) <= sq(DIR_SCALE as int) * (sq(
            dist(a, p),
        ) + 2 * dist(a, p)),
        !(dir_x(a, p) == 0 && dir_y(a, p) == 0),
{
    let dx = p.x - a.x;
    let dy = p.y - a.y;
    let n = dist_sq(a, p);
    let s = DIR_SCALE as int;
    lemma_dist_sq_nonneg(a, p);
    lemma_int_sqrt_bounds(n);
    let l = int_sqrt(n);
    assert(sq(1) == 1) by (nonlinear_arith);
    assert(l >= 1);
    assert(sq(dx) >= 0 && sq(dy) >= 0) by (nonlinear_arith);
    lemma_component_within_sqrt(dx, n, l);
    lemma_component_within_sqrt(dy, n, l);
    lemma_dir_component(dx, l);
    lemma_dir_component(dy, l);
    let qx = div_tz(dx * s, l);
    let qy = div_tz(dy * s, l);
    let u = sq(qx) + sq(qy);
    assert(sq(l * qx) == sq(l) * sq(qx)) by (nonlinear_arith);
    assert(sq(l * qy) == sq(l) * sq(qy)) by (nonlinear_arith);
    // Upper bound: the exact scaled norm is s^2 * n, and each rounded
    // component undershoots it, so u * l^2 <= s^2 * n <= s^2 * (l^2 + 2l).
    assert(sq(l) * u == sq(l) * sq(qx) + sq(l) * sq(qy)) by (nonlinear_arith)
        requires
            u == sq(qx) + sq(qy),
    ;
    assert(n * sq(s) == sq(dx) * sq(s) + sq(dy) * sq(s)) by (nonlinear_arith)
        requires
            n == sq(dx) + sq(dy),
    ;
    assert(sq(l) * u <= n * sq(s));
    assert(sq(l + 1) == sq(l) + 2 * l + 1) by (nonlinear_arith);
    assert(n * sq(s) <= (sq(l) + 2 * l) * sq(s)) by (nonlinear_arith)
        requires
            n <= sq(l) + 2 * l,
            sq(s) >= 0,
    ;
    assert(u * sq(l) <= sq(s) * (sq(l) + 2 * l)) by (nonlinear_arith)
        requires
            sq(l) * u <= (sq(l) + 2 * l) * sq(s),
    ;
    // Lower bound: each rounded component misses by less than one length
    // quantum, so s^2 * n <= l^2 * (u + 4s + 2); with l^2 <= n and l >= 1
    // the factor l^2 cancels.
    assert(n * sq(s) <= sq(l) * u + 4 * sq(l) * s + 2 * sq(l)) by (nonlinear_arith)
        requires
            n * sq(s) == sq(dx) * sq(s) + sq(dy) * sq(s),
            sq(dx) * sq(s) <= sq(l) * sq(qx) + 2 * sq(l) * s + sq(l),
            sq(dy) * sq(s) <= sq(l) * sq(qy) + 2 * sq(l) * s + sq(l),
            sq(l) * u == sq(l) * sq(qx) + sq(l) * sq(qy),
    ;
    assert(sq(l) >= 1) by (nonlinear_arith)
        requires
            l >= 1,
    ;
    assert(sq(l) * sq(s) <= n * sq(s)) by (nonlinear_arith)
        requires
            sq(l) <= n,
            sq(s) >= 0,
    ;
    assert(sq(s) <= u + 4 * s + 2) by (nonlinear_arith)
        requires
            sq(l) * sq(s) <= sq(l) * u + 4 * sq(l) * s + 2 * sq(l),
            sq(l) >= 1,
    ;
    assert(sq(s) == 4294967296) by (nonlinear_arith)
        requires
            s == 65536,
    ;
}

/// Resolving twice from identical inputs yields identical outputs: the
/// resolver is a pure function of the two positions, with no hidden state.
pub proof fn lemma_resolve_deterministic(a: Vec2, p: Vec2, r1: AimResult, r2: AimResult)
    requires
        resolves(a, p, r1),
        resolves(a, p, r2),
    ensures
        r1 == r2,
{
}

/// Resolves the aim: direction is the normalized actor-to-pointer vector in
/// `DIR_SCALE` fixed point — the zero vector when the two points coincide —
/// and the ray spans actor to pointer: midpoint halfway between them,
/// length exactly their distance, rotation facing the pointer.
pub fn resolve(actor_pos: Vec2, pointer_world: Vec2) -> (r: AimResult)
    requires
        in_world(actor_pos),
        in_world(pointer_world),
    ensures
        resolves(actor_pos, pointer_world, r),
        r.direction == aim_dir(actor_pos, pointer_world),
        unit_scaled(r.direction),
        0 <= r.length < 8388608,
{
    let dx: i64 = pointer_world.x - actor_pos.x;
    let dy: i64 = pointer_world.y - actor_pos.y;
    let len: i64 = distance(actor_pos, pointer_world);
    let midpoint = Vec2 {
        x: actor_pos.x + div_trunc(dx, 2),
        y: actor_pos.y + div_trunc(dy, 2),
    };
    proof {
        lemma_dist_sq_nonneg(actor_pos, pointer_world);
        lemma_div_tz_bounds(dx as int, 2);
        lemma_div_tz_bounds(dy as int, 2);
    }
    if dx == 0 && dy == 0 {
        let zero = Vec2 { x: 0, y: 0 };
        AimResult { direction: zero, midpoint, length: len, rotation: zero }
    } else {
        proof {
            let n = dist_sq(actor_pos, pointer_world);
            lemma_int_sqrt_bounds(n);
            assert(n >= 1);
            assert(sq(1) == 1) by (nonlinear_arith);
            assert(len as int >= 1);
            assert(sq(dx as int) >= 0 && sq(dy as int) >= 0) by (nonlinear_arith);
            lemma_component_within_sqrt(dx as int, n, len as int);
            lemma_dir_component(dx as int, len as int);
            lemma_component_within_sqrt(dy as int, n, len as int);
            lemma_dir_component(dy as int, len as int);
            assert(dx * DIR_SCALE <= 8388608 * 65536 && dx * DIR_SCALE >= -8388608 * 65536)
                by (nonlinear_arith)
                requires
                    -8388608 <= dx <= 8388608,
            ;
            assert(dy * DIR_SCALE <= 8388608 * 65536 && dy * DIR_SCALE >= -8388608 * 65536)
                by (nonlinear_arith)
                requires
                    -8388608 <= dy <= 8388608,
            ;
        }
        let ux = div_trunc(dx * DIR_SCALE, len);
        let uy = div_trunc(dy * DIR_SCALE, len);
        let direction = Vec2 { x: ux, y: uy };
        AimResult { direction, midpoint, length: len, rotation: direction }
    }
}

/// Turns the actor toward the pointer: the heading becomes the resolved
/// direction, except on a degenerate tick — actor exactly at the pointer —
/// when the heading (and the whole actor) is left untouched.
pub fn aim_at_mouse(actor: &mut Actor, pointer_world: Vec2)
    requires
        in_world(old(actor).pos),
        in_world(pointer_world),
    ensures
        final(actor).pos == old(actor).pos,
        dist_sq(old(actor).pos, pointer_world) == 0 ==> *final(actor) == *old(actor),
        dist_sq(old(actor).pos, pointer_world) != 0 ==> final(actor).heading.x == dir_x(
            old(actor).pos,
            pointer_world,
        ) && final(actor).heading.y == dir_y(old(actor).pos, pointer_world),
        unit_scaled(old(actor).heading) ==> unit_scaled(final(actor).heading),
{
    proof {
        lemma_dist_sq_nonneg(actor.pos, pointer_world);
    }
    let r = resolve(actor.pos, pointer_world);
    if !(actor.pos.x == pointer_world.x && actor.pos.y == pointer_world.y) {
        actor.heading = r.direction;
    }
}

/// Re-derives the visual ray segment: midpoint halfway between actor and
/// pointer, length exactly their distance, rotation facing the pointer.
/// On a degenerate tick the length is zero and the previous rotation is
/// kept.
pub fn draw_ray(ray: &mut RaySegment, actor_pos: Vec2, pointer_world: Vec2)
    requires
        in_world(actor_pos),
        in_world(pointer_world),
    ensures
        final(ray).midpoint.x == mid_x(actor_pos, pointer_world),
        final(ray).midpoint.y == mid_y(actor_pos, pointer_world),
        final(ray).length == dist(actor_pos, pointer_world),
        0 <= final(ray).length < 8388608,
        dist_sq(actor_pos, pointer_world) == 0 ==> final(ray).rotation == old(ray).rotation
            && final(ray).length == 0,
        dist_sq(actor_pos, pointer_world) != 0 ==> final(ray).rotation.x == dir_x(
            actor_pos,
            pointer_world,
        ) && final(ray).rotation.y == dir_y(actor_pos, pointer_world),
        unit_scaled(old(ray).rotation) ==> unit_scaled(final(ray).rotation),
{
    proof {
        lemma_dist_sq_nonneg(actor_pos, pointer_world);
    }
    let r = resolve(actor_pos, pointer_world);
    ray.midpoint = r.midpoint;
    ray.length = r.length;
    if !(actor_pos.x == pointer_world.x && actor_pos.y == pointer_world.y) {
        ray.rotation = r.rotation;
    }
}

} // verus!
