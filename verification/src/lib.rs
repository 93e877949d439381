//! A real-time 2D aiming and line-of-sight core.
//!
//! Each simulation tick, three stages run in order: a pointer mapper turns
//! raw window-relative cursor samples into viewport-centred world
//! coordinates, an aim resolver derives a unit direction and a visual ray
//! segment from the actor toward the pointer, and a collision prober tests a
//! point on that ray against every obstacle's axis-aligned bounding box.
//!
//! All geometry is carried out over fixed-point integer coordinates: a world
//! coordinate is a plain `i64` in scale-agnostic world units, and a unit
//! direction is scaled by `math::DIR_SCALE`. The surrounding shell converts
//! between its own floating-point coordinates and these units at the
//! boundary.

pub mod aim;
pub mod math;
pub mod pointer;
pub mod probe;
pub mod scene;
