//! Meteor-dodging simulation engine: a character-grid playfield, moving
//! meteor entities with fixed direction vectors, a spawn/step/reap cycle,
//! and collision detection against the rendered surface.
use vstd::prelude::*;

pub mod engine;
pub mod factory;
pub mod game;
pub mod meteor;
pub mod surface;

verus! {

/// Rectangular playfield dimensions, supplied by the display surface.
#[derive(Clone, Copy, PartialEq, Eq, Structural)]
pub struct Bounds {
    pub height: i32,
    pub width: i32,
}

impl Bounds {
    /// A usable playfield has at least one row and one column. The cap
    /// leaves room in `i32` for an entity one cell past the far edge and
    /// for the glyphs painted one cell around it.
    pub open spec fn wf(self) -> bool {
        &&& 0 < self.height <= i32::MAX - 2
        &&& 0 < self.width <= i32::MAX - 2
    }
}

} // verus!
