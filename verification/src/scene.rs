//! The tick driver: direct ownership of the actor, pointer, window,
//! obstacle and ray records — cardinality is a type-level guarantee, with
//! no entity store to query — and one function that runs the three stages
//! of a simulation tick in their fixed order.

use crate::aim::{
    Actor, RaySegment, aim_at_mouse, aim_dir, draw_ray, mid_x, mid_y, resolve, unit_scaled,
};
use crate::math::{DIR_SCALE, MAX_SCREEN, MAX_WORLD, Vec2, dist, dist_sq, in_world};
use crate::pointer::{
    MousePosition, ScreenPoint, WindowSize, is_mapped, mouse_pos_updater, pointer_in_world,
    pointer_vec, sample_bounded, window_resize_handler, window_well_formed,
};
use crate::probe::{Obstacle, any_hit, obstacle_well_formed, probe};
use vstd::prelude::*;

verus! {

/// The tint the renderer applies to the ray's material: one fixed colour
/// when the aim ray is blocked, one when it is clear.
#[derive(Clone, Copy, PartialEq, Eq, Structural, Debug)]
pub enum RayTint {
    Blocked,
    Clear,
}

/// Picks the ray's tint from the tick's hit flag.
pub fn ray_tint(hit: bool) -> (t: RayTint)
    ensures
        t == (if hit {
            RayTint::Blocked
        } else {
            RayTint::Clear
        }),
{
    if hit {
        RayTint::Blocked
    } else {
        RayTint::Clear
    }
}

/// Everything the subsystem reads or writes across ticks. The window,
/// pointer and actor records persist; the ray and the hit flag are
/// re-derived every tick.
#[derive(PartialEq, Eq, Debug)]
pub struct Scene {
    pub window: WindowSize,
    pub pointer: MousePosition,
    pub actor: Actor,
    pub obstacles: Vec<Obstacle>,
    pub ray: RaySegment,
    pub hit: bool,
}

/// Every record within its bounds: window dimensions on the screen,
/// pointer and actor in the world, heading and ray rotation scaled unit
/// vectors, obstacles well formed.
pub open spec fn scene_well_formed(s: Scene) -> bool {
    &&& window_well_formed(s.window)
    &&& pointer_in_world(s.pointer)
    &&& in_world(s.actor.pos)
    &&& unit_scaled(s.actor.heading)
    &&& unit_scaled(s.ray.rotation)
    &&& forall|i: int| 0 <= i < s.obstacles@.len() ==> obstacle_well_formed(s.obstacles@[i])
}

impl Scene {
    /// Sets up the subsystem: actor at the given position with no heading
    /// yet, pointer at the origin, placeholder window dimensions until the
    /// first resize event arrives, a zero ray, and a clear hit flag.
    pub fn new(actor_pos: Vec2, obstacles: Vec<Obstacle>) -> (s: Scene)
        requires
            in_world(actor_pos),
            forall|i: int| 0 <= i < obstacles@.len() ==> obstacle_well_formed(obstacles@[i]),
        ensures
            scene_well_formed(s),
            s.actor.pos == actor_pos,
            s.actor.heading == (Vec2 { x: 0, y: 0 }),
            s.pointer == (MousePosition { x: 0, y: 0 }),
            s.window.width == 100 && s.window.height == 100,
            s.obstacles@ == obstacles@,
            s.ray == (RaySegment {
                midpoint: Vec2 { x: 0, y: 0 },
                length: 0,
                rotation: Vec2 { x: 0, y: 0 },
            }),
            !s.hit,
    {
        Scene {
            window: WindowSize::default(),
            pointer: MousePosition { x: 0, y: 0 },
            actor: Actor { pos: actor_pos, heading: Vec2 { x: 0, y: 0 } },
            obstacles,
            ray: RaySegment {
                midpoint: Vec2 { x: 0, y: 0 },
                length: 0,
                rotation: Vec2 { x: 0, y: 0 },
            },
            hit: false,
        }
    }

    /// Whether every record currently satisfies the subsystem's bounds —
    /// the runtime counterpart of `scene_well_formed`, for callers that
    /// assemble or mutate a scene from unchecked data.
    pub fn check_well_formed(&self) -> (ok: bool)
        ensures
            ok == scene_well_formed(*self),
    {
        let window_ok = 0 <= self.window.width && self.window.width <= MAX_SCREEN && 0
            <= self.window.height && self.window.height <= MAX_SCREEN;
        let pointer_ok = -MAX_WORLD <= self.pointer.x && self.pointer.x <= MAX_WORLD && -MAX_WORLD
            <= self.pointer.y && self.pointer.y <= MAX_WORLD;
        let actor_ok = -MAX_WORLD <= self.actor.pos.x && self.actor.pos.x <= MAX_WORLD
            && -MAX_WORLD <= self.actor.pos.y && self.actor.pos.y <= MAX_WORLD;
        let heading_ok = -DIR_SCALE <= self.actor.heading.x && self.actor.heading.x <= DIR_SCALE
            && -DIR_SCALE <= self.actor.heading.y && self.actor.heading.y <= DIR_SCALE;
        let rotation_ok = -DIR_SCALE <= self.ray.rotation.x && self.ray.rotation.x <= DIR_SCALE
            && -DIR_SCALE <= self.ray.rotation.y && self.ray.rotation.y <= DIR_SCALE;
        let mut obstacles_ok = true;
        let n = self.obstacles.len();
        let mut i: usize = 0;
        while i < n
            invariant
                n == self.obstacles@.len(),
                i <= n,
                obstacles_ok == forall|k: int|
                    0 <= k < i ==> obstacle_well_formed(self.obstacles@[k]),
            decreases n - i,
        {
            let o = self.obstacles[i];
            let o_ok = -MAX_WORLD <= o.pos.x && o.pos.x <= MAX_WORLD && -MAX_WORLD <= o.pos.y
                && o.pos.y <= MAX_WORLD && match o.half_extents {
                Some(e) => 0 <= e.x && e.x <= MAX_WORLD && 0 <= e.y && e.y <= MAX_WORLD,
                None => true,
            };
            proof {
                assert(o_ok == obstacle_well_formed(self.obstacles@[i as int]));
            }
            obstacles_ok = obstacles_ok && o_ok;
            i = i + 1;
        }
        window_ok && pointer_ok && actor_ok && heading_ok && rotation_ok && obstacles_ok
    }

    /// One simulation tick, the three stages in their fixed order: fold
    /// the resize events into the window, fold the cursor samples into the
    /// sticky pointer, turn the actor toward the pointer, re-derive the
    /// ray segment, and probe every obstacle along the fresh aim
    /// direction. Nothing else is touched: the actor's position and the
    /// obstacles pass through unchanged.
    pub fn tick(&mut self, resizes: &Vec<WindowSize>, samples: &Vec<ScreenPoint>)
        requires
            scene_well_formed(*old(self)),
            forall|i: int| 0 <= i < resizes@.len() ==> window_well_formed(resizes@[i]),
            forall|i: int| 0 <= i < samples@.len() ==> sample_bounded(samples@[i]),
        ensures
            scene_well_formed(*final(self)),
            final(self).actor.pos == old(self).actor.pos,
            final(self).obstacles@ == old(self).obstacles@,
            // Window: last resize event wins; none leaves it untouched.
            resizes@.len() == 0 ==> final(self).window == old(self).window,
            resizes@.len() > 0 ==> final(self).window == resizes@[resizes@.len() - 1],
            // Pointer: sticky fold of the tick's samples.
            samples@.len() == 0 ==> final(self).pointer == old(self).pointer,
            samples@.len() > 0 ==> is_mapped(
                samples@[samples@.len() - 1],
                final(self).window,
                final(self).pointer,
            ),
            // Heading: turned toward the pointer, kept on a degenerate tick.
            dist_sq(old(self).actor.pos, pointer_vec(final(self).pointer)) == 0
                ==> final(self).actor.heading == old(self).actor.heading,
            dist_sq(old(self).actor.pos, pointer_vec(final(self).pointer)) != 0
                ==> final(self).actor.heading
                == aim_dir(old(self).actor.pos, pointer_vec(final(self).pointer)),
            // Ray: midpoint, length and rotation re-derived from the two
            // positions alone.
            final(self).ray.midpoint.x
                == mid_x(old(self).actor.pos, pointer_vec(final(self).pointer)),
            final(self).ray.midpoint.y
                == mid_y(old(self).actor.pos, pointer_vec(final(self).pointer)),
            final(self).ray.length == dist(old(self).actor.pos, pointer_vec(final(self).pointer)),
            dist_sq(old(self).actor.pos, pointer_vec(final(self).pointer)) == 0
                ==> final(self).ray.rotation == old(self).ray.rotation,
            dist_sq(old(self).actor.pos, pointer_vec(final(self).pointer)) != 0
                ==> final(self).ray.rotation
                == aim_dir(old(self).actor.pos, pointer_vec(final(self).pointer)),
            // Hit flag: true exactly when some obstacle's box contains its
            // probe point along the fresh aim direction.
            final(self).hit == any_hit(
                old(self).actor.pos,
                aim_dir(old(self).actor.pos, pointer_vec(final(self).pointer)),
                old(self).obstacles@,
            ),
    {
        window_resize_handler(&mut self.window, resizes);
        mouse_pos_updater(&mut self.pointer, samples, &self.window);
        let pv = Vec2 { x: self.pointer.x, y: self.pointer.y };
        aim_at_mouse(&mut self.actor, pv);
        draw_ray(&mut self.ray, self.actor.pos, pv);
        proof {
            crate::aim::lemma_direction_bounds(self.actor.pos, pv);
        }
        let r = resolve(self.actor.pos, pv);
        self.hit = probe(self.actor.pos, r.direction, &self.obstacles);
    }
}

} // verus!
