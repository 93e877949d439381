//! The pointer mapper: raw window-relative cursor samples become
//! viewport-centred world coordinates, and the last sample of a tick wins.

use crate::math::{MAX_SCREEN, MAX_WORLD, Vec2};
use vstd::prelude::*;

verus! {

/// Current window dimensions, in world units. Doubles as a resize event.
#[derive(Clone, Copy, PartialEq, Eq, Structural, Debug)]
pub struct WindowSize {
    pub width: i64,
    pub height: i64,
}

/// The pointer's last-known world position. Sticky: it is only ever
/// overwritten by a new sample, never reset between ticks.
#[derive(Clone, Copy, PartialEq, Eq, Structural, Debug)]
pub struct MousePosition {
    pub x: i64,
    pub y: i64,
}

/// One raw cursor sample, in window-relative screen units.
#[derive(Clone, Copy, PartialEq, Eq, Structural, Debug)]
pub struct ScreenPoint {
    pub x: i64,
    pub y: i64,
}

/// Window dimensions are non-negative and within the screen bound.
pub open spec fn window_well_formed(w: WindowSize) -> bool {
    &&& 0 <= w.width <= MAX_SCREEN
    &&& 0 <= w.height <= MAX_SCREEN
}

/// A raw sample within the screen bound. Samples outside the window are
/// still accepted: mapping does not clamp.
pub open spec fn sample_bounded(s: ScreenPoint) -> bool {
    &&& -MAX_SCREEN <= s.x <= MAX_SCREEN
    &&& -MAX_SCREEN <= s.y <= MAX_SCREEN
}

/// A mapped pointer position within the world bound.
pub open spec fn pointer_in_world(m: MousePosition) -> bool {
    &&& -MAX_WORLD <= m.x <= MAX_WORLD
    &&& -MAX_WORLD <= m.y <= MAX_WORLD
}

/// The mapping formula: `m` is `s` shifted so the window's centre becomes
/// the origin, coordinate by coordinate.
pub open spec fn is_mapped(s: ScreenPoint, w: WindowSize, m: MousePosition) -> bool {
    &&& m.x == s.x - w.width / 2
    &&& m.y == s.y - w.height / 2
}

/// The pointer position as a world-space point.
pub open spec fn pointer_vec(m: MousePosition) -> Vec2 {
    Vec2 { x: m.x, y: m.y }
}

impl Default for WindowSize {
    /// The placeholder dimensions in force before the first resize event.
    fn default() -> (w: WindowSize)
        ensures
            w.width == 100,
            w.height == 100,
    {
        WindowSize { width: 100, height: 100 }
    }
}

/// Maps one raw cursor sample into the viewport-centred world space:
/// `(sx, sy)` becomes `(sx - width / 2, sy - height / 2)`, with no clamping.
pub fn map_to_world(sample: ScreenPoint, window: &WindowSize) -> (m: MousePosition)
    requires
        window_well_formed(*window),
        sample_bounded(sample),
    ensures
        is_mapped(sample, *window, m),
        pointer_in_world(m),
{
    let half_w: i64 = crate::math::div_trunc(window.width, 2);
    let half_h: i64 = crate::math::div_trunc(window.height, 2);
    MousePosition { x: sample.x - half_w, y: sample.y - half_h }
}

/// Folds a tick's cursor samples into the pointer position: each sample
/// overwrites the position, so the last one wins, and a tick without
/// samples leaves the position untouched.
pub fn mouse_pos_updater(pos: &mut MousePosition, samples: &Vec<ScreenPoint>, window: &WindowSize)
    requires
        window_well_formed(*window),
        forall|i: int| 0 <= i < samples@.len() ==> sample_bounded(samples@[i]),
    ensures
        samples@.len() == 0 ==> *final(pos) == *old(pos),
        samples@.len() > 0 ==> is_mapped(samples@[samples@.len() - 1], *window, *final(pos)),
        samples@.len() > 0 ==> pointer_in_world(*final(pos)),
        pointer_in_world(*old(pos)) ==> pointer_in_world(*final(pos)),
{
    let n = samples.len();
    let mut i: usize = 0;
    while i < n
        invariant
            n == samples@.len(),
            i <= n,
            window_well_formed(*window),
            forall|k: int| 0 <= k < samples@.len() ==> sample_bounded(samples@[k]),
            i == 0 ==> *pos == *old(pos),
            i > 0 ==> is_mapped(samples@[i - 1], *window, *pos) && pointer_in_world(*pos),
        decreases n - i,
    {
        *pos = map_to_world(samples[i], window);
        i = i + 1;
    }
}

/// Folds a tick's resize events into the window dimensions: the last event
/// wins, and a tick without events leaves the dimensions untouched.
pub fn window_resize_handler(win: &mut WindowSize, events: &Vec<WindowSize>)
    requires
        forall|i: int| 0 <= i < events@.len() ==> window_well_formed(events@[i]),
    ensures
        events@.len() == 0 ==> *final(win) == *old(win),
        events@.len() > 0 ==> *final(win) == events@[events@.len() - 1],
        window_well_formed(*old(win)) ==> window_well_formed(*final(win)),
{
    let n = events.len();
    let mut i: usize = 0;
    while i < n
        invariant
            n == events@.len(),
            i <= n,
            forall|k: int| 0 <= k < events@.len() ==> window_well_formed(events@[k]),
            i == 0 ==> *win == *old(win),
            i > 0 ==> *win == events@[i - 1],
        decreases n - i,
    {
        *win = events[i];
        i = i + 1;
    }
}

} // verus!
