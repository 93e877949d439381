//! The collision prober: a point is projected along the aim direction at
//! each obstacle's own distance from the actor and tested against that
//! obstacle's axis-aligned bounding box; any overlap raises the hit flag.

use crate::aim::unit_scaled;
use crate::math::{
    DIR_SCALE, MAX_WORLD, Vec2, abs_val, dist, distance, div_trunc, div_tz, in_world,
    lemma_div_tz_bounds,
};
use vstd::prelude::*;

verus! {

/// A static obstacle: a centre position and, when its geometry yields
/// them, axis-aligned half-extents. An obstacle whose bounding box could
/// not be computed carries `None` and is skipped by the prober — never
/// fatal.
#[derive(Clone, Copy, PartialEq, Eq, Debug)]
pub struct Obstacle {
    pub pos: Vec2,
    pub half_extents: Option<Vec2>,
}

/// Obstacle centre within the world, half-extents non-negative and
/// bounded.
pub open spec fn obstacle_well_formed(o: Obstacle) -> bool {
    &&& in_world(o.pos)
    &&& match o.half_extents {
        Some(e) => 0 <= e.x <= MAX_WORLD && 0 <= e.y <= MAX_WORLD,
        None => true,
    }
}

/// The x coordinate of the probe point: on the aim ray, at the obstacle's
/// own distance from the actor. This deliberately tests "is the obstacle
/// directly where the ray currently reaches", not a full ray sweep.
pub open spec fn probe_pt_x(actor: Vec2, direction: Vec2, obstacle_pos: Vec2) -> int {
    actor.x + div_tz(direction.x * dist(actor, obstacle_pos), DIR_SCALE as int)
}

/// The y coordinate of the probe point.
pub open spec fn probe_pt_y(actor: Vec2, direction: Vec2, obstacle_pos: Vec2) -> int {
    actor.y + div_tz(direction.y * dist(actor, obstacle_pos), DIR_SCALE as int)
}

/// Whether the probe point for `o` lies strictly inside `o`'s box — a
/// zero-area probe against the box `o.pos ± o.half_extents`. An obstacle
/// without computable extents never hits.
pub open spec fn obstacle_hit(actor: Vec2, direction: Vec2, o: Obstacle) -> bool {
    match o.half_extents {
        Some(e) => abs_val(probe_pt_x(actor, direction, o.pos) - o.pos.x) < e.x && abs_val(
            probe_pt_y(actor, direction, o.pos) - o.pos.y,
        ) < e.y,
        None => false,
    }
}

/// Whether any obstacle of the sequence is hit.
pub open spec fn any_hit(actor: Vec2, direction: Vec2, obstacles: Seq<Obstacle>) -> bool {
    exists|i: int| 0 <= i < obstacles.len() && obstacle_hit(actor, direction, obstacles[i])
}

/// Probes a single obstacle: projects the point along `direction` at the
/// obstacle's distance from the actor and tests it against the obstacle's
/// box.
pub fn probe_obstacle(actor_pos: Vec2, direction: Vec2, obstacle: &Obstacle) -> (hit: bool)
    requires
        in_world(actor_pos),
        unit_scaled(direction),
        obstacle_well_formed(*obstacle),
    ensures
        hit == obstacle_hit(actor_pos, direction, *obstacle),
{
    match obstacle.half_extents {
        None => false,
        Some(e) => {
            let d = distance(actor_pos, obstacle.pos);
            proof {
                assert(-65536 * 8388608 <= direction.x * d <= 65536 * 8388608)
                    by (nonlinear_arith)
                    requires
                        -65536 <= direction.x <= 65536,
                        0 <= d <= 8388608,
                ;
                assert(-65536 * 8388608 <= direction.y * d <= 65536 * 8388608)
                    by (nonlinear_arith)
                    requires
                        -65536 <= direction.y <= 65536,
                        0 <= d <= 8388608,
                ;
                lemma_div_tz_bounds(direction.x * d, DIR_SCALE as int);
                lemma_div_tz_bounds(direction.y * d, DIR_SCALE as int);
                assert(-8388608 <= div_tz(direction.x * d, 65536) <= 8388608) by (nonlinear_arith)
                    requires
                        direction.x * d >= 0 ==> 0 <= 65536 * div_tz(direction.x * d, 65536)
                            <= direction.x * d,
                        direction.x * d < 0 ==> direction.x * d <= 65536 * div_tz(
                            direction.x * d,
                            65536,
                        ) <= 0,
                        -65536 * 8388608 <= direction.x * d <= 65536 * 8388608,
                ;
                assert(-8388608 <= div_tz(direction.y * d, 65536) <= 8388608) by (nonlinear_arith)
                    requires
                        direction.y * d >= 0 ==> 0 <= 65536 * div_tz(direction.y * d, 65536)
                            <= direction.y * d,
                        direction.y * d < 0 ==> direction.y * d <= 65536 * div_tz(
                            direction.y * d,
                            65536,
                        ) <= 0,
                        -65536 * 8388608 <= direction.y * d <= 65536 * 8388608,
                ;
            }
            let off_x = div_trunc(direction.x * d, DIR_SCALE);
            let off_y = div_trunc(direction.y * d, DIR_SCALE);
            let px = actor_pos.x + off_x;
            let py = actor_pos.y + off_y;
            let dx = px - obstacle.pos.x;
            let dy = py - obstacle.pos.y;
            let ax = if dx < 0 {
                -dx
            } else {
                dx
            };
            let ay = if dy < 0 {
                -dy
            } else {
                dy
            };
            ax < e.x && ay < e.y
        },
    }
}

/// Probes every obstacle and ORs the results: the hit flag is raised
/// exactly when at least one obstacle's box contains its probe point, and
/// zero obstacles always yield a clear result.
pub fn probe(actor_pos: Vec2, direction: Vec2, obstacles: &Vec<Obstacle>) -> (hit: bool)
    requires
        in_world(actor_pos),
        unit_scaled(direction),
        forall|i: int| 0 <= i < obstacles@.len() ==> obstacle_well_formed(obstacles@[i]),
    ensures
        hit == any_hit(actor_pos, direction, obstacles@),
        obstacles@.len() == 0 ==> !hit,
{
    let mut hit = false;
    let n = obstacles.len();
    let mut i: usize = 0;
    while i < n
        invariant
            n == obstacles@.len(),
            i <= n,
            in_world(actor_pos),
            unit_scaled(direction),
            forall|k: int| 0 <= k < obstacles@.len() ==> obstacle_well_formed(obstacles@[k]),
            hit == exists|k: int|
                0 <= k < i && obstacle_hit(actor_pos, direction, obstacles@[k]),
        decreases n - i,
    {
        let here = probe_obstacle(actor_pos, direction, &obstacles[i]);
        proof {
            if here {
                assert(obstacle_hit(actor_pos, direction, obstacles@[i as int]));
            }
        }
        hit = hit || here;
        i = i + 1;
    }
    hit
}

} // verus!
