//! The meteor entity: a position on the grid, a shape that decides which
//! cells around the position are painted, and a fixed movement vector.
use vstd::prelude::*;
use crate::Bounds;
use crate::surface::{Surface, BLANK_GLYPH, METEOR_GLYPH};

verus! {

/// Which cells around the entity's position are painted.
#[derive(Clone, Copy, PartialEq, Eq, Structural, Debug)]
pub enum Shape {
    Dot,
    Cross,
    X,
}

/// The entity's movement vector: one of the eight unit directions.
/// It never changes over the entity's lifetime.
#[derive(Clone, Copy, PartialEq, Eq, Structural, Debug)]
pub enum Path {
    Up,
    Down,
    Left,
    Right,
    UpLeft,
    UpRight,
    DownLeft,
    DownRight,
}

impl Path {
    /// Row component of the movement vector.
    pub open spec fn dy(self) -> int {
        match self {
            Path::Up | Path::UpLeft | Path::UpRight => -1,
            Path::Down | Path::DownLeft | Path::DownRight => 1,
            Path::Left | Path::Right => 0,
        }
    }

    /// Column component of the movement vector.
    pub open spec fn dx(self) -> int {
        match self {
            Path::Left | Path::UpLeft | Path::DownLeft => -1,
            Path::Right | Path::UpRight | Path::DownRight => 1,
            Path::Up | Path::Down => 0,
        }
    }
}

/// A moving obstacle: position, painted shape, and fixed direction.
#[derive(Clone, Copy, PartialEq, Eq, Structural, Debug)]
pub struct Meteor {
    pub y: i32,
    pub x: i32,
    pub shape: Shape,
    pub path: Path,
}

impl Meteor {
    /// The position lies strictly inside the playfield.
    pub open spec fn in_bounds(self, b: Bounds) -> bool {
        &&& 0 <= self.y < b.height
        &&& 0 <= self.x < b.width
    }

    /// The position has just left the playfield: one cell past an edge on
    /// some axis. Such an entity is removed by the next reaping pass.
    pub open spec fn at_sentinel(self, b: Bounds) -> bool {
        ||| self.y == -1
        ||| self.y == b.height
        ||| self.x == -1
        ||| self.x == b.width
    }

    /// The position is far enough from the `i32` limits that the cells one
    /// step around it can be addressed without overflow.
    pub open spec fn paintable(self) -> bool {
        &&& i32::MIN < self.y < i32::MAX
        &&& i32::MIN < self.x < i32::MAX
    }

    /// The position is far enough from the `i32` limits that one move and
    /// the painting of neighbouring cells before and after it stay free of
    /// overflow.
    pub open spec fn steppable(self) -> bool {
        &&& i32::MIN + 2 <= self.y <= i32::MAX - 2
        &&& i32::MIN + 2 <= self.x <= i32::MAX - 2
    }

    /// `self` is `from` advanced by exactly `from`'s movement vector, with
    /// shape and path untouched.
    pub open spec fn stepped_from(self, from: Meteor) -> bool {
        &&& self.y == from.y + from.path.dy()
        &&& self.x == from.x + from.path.dx()
        &&& self.shape == from.shape
        &&& self.path == from.path
    }

    /// The cells this entity paints: its position, plus the four orthogonal
    /// neighbours for a cross, or the four diagonal neighbours for an x.
    pub open spec fn covers(self, r: int, c: int) -> bool {
        match self.shape {
            Shape::Dot => r == self.y && c == self.x,
            Shape::Cross => {
                ||| (r == self.y && c == self.x)
                ||| (r == self.y - 1 && c == self.x)
                ||| (r == self.y + 1 && c == self.x)
                ||| (r == self.y && c == self.x - 1)
                ||| (r == self.y && c == self.x + 1)
            },
            Shape::X => {
                ||| (r == self.y && c == self.x)
                ||| (r == self.y - 1 && c == self.x - 1)
                ||| (r == self.y + 1 && c == self.x - 1)
                ||| (r == self.y - 1 && c == self.x + 1)
                ||| (r == self.y + 1 && c == self.x + 1)
            },
        }
    }

    /// Advance the position by the movement vector; shape and path are
    /// untouched. One call moves the entity exactly one cell per axis at
    /// most, so a position inside the playfield ends at worst one cell
    /// outside it.
    pub fn update(&mut self)
        requires
            old(self).paintable(),
        ensures
            final(self).stepped_from(*old(self)),
    {
        match self.path {
            Path::Up => {
                self.y = self.y - 1;
            },
            Path::Down => {
                self.y = self.y + 1;
            },
            Path::Left => {
                self.x = self.x - 1;
            },
            Path::Right => {
                self.x = self.x + 1;
            },
            Path::UpLeft => {
                self.y = self.y - 1;
                self.x = self.x - 1;
            },
            Path::UpRight => {
                self.y = self.y - 1;
                self.x = self.x + 1;
            },
            Path::DownLeft => {
                self.y = self.y + 1;
                self.x = self.x - 1;
            },
            Path::DownRight => {
                self.y = self.y + 1;
                self.x = self.x + 1;
            },
        }
    }

    /// True exactly when the entity's position lies strictly inside the
    /// playfield.
    pub fn inside(&self, bounds: Bounds) -> (r: bool)
        ensures
            r == self.in_bounds(bounds),
    {
        0 <= self.y && self.y < bounds.height && 0 <= self.x && self.x < bounds.width
    }

    /// True exactly when the entity stands at a sentinel position and is
    /// due for removal.
    pub fn out_of_bounds(&self, bounds: Bounds) -> (out: bool)
        ensures
            out == self.at_sentinel(bounds),
    {
        self.x == -1 || self.x == bounds.width || self.y == -1 || self.y == bounds.height
    }

    /// Paint `glyph` on every cell the entity covers; cells outside the
    /// grid are ignored. Every other cell keeps its glyph.
    pub fn paint(&self, surface: &mut Surface, glyph: char)
        requires
            old(surface).wf(),
            self.paintable(),
        ensures
            final(surface).wf(),
            final(surface).height == old(surface).height,
            final(surface).width == old(surface).width,
            forall|r: int, c: int|
                old(surface).contains(r, c) ==> final(surface).at(r, c) == (
                if self.covers(r, c) {
                    glyph
                } else {
                    old(surface).at(r, c)
                }),
    {
        match self.shape {
            Shape::Dot => {
                surface.draw_at(self.y, self.x, glyph);
            },
            Shape::Cross => {
                surface.draw_at(self.y, self.x, glyph);
                surface.draw_at(self.y - 1, self.x, glyph);
                surface.draw_at(self.y + 1, self.x, glyph);
                surface.draw_at(self.y, self.x - 1, glyph);
                surface.draw_at(self.y, self.x + 1, glyph);
            },
            Shape::X => {
                surface.draw_at(self.y, self.x, glyph);
                surface.draw_at(self.y - 1, self.x - 1, glyph);
                surface.draw_at(self.y + 1, self.x - 1, glyph);
                surface.draw_at(self.y - 1, self.x + 1, glyph);
                surface.draw_at(self.y + 1, self.x + 1, glyph);
            },
        }
    }

    /// Clear every cell the entity covers back to blank.
    pub fn erase(&self, surface: &mut Surface)
        requires
            old(surface).wf(),
            self.paintable(),
        ensures
            final(surface).wf(),
            final(surface).height == old(surface).height,
            final(surface).width == old(surface).width,
            forall|r: int, c: int|
                old(surface).contains(r, c) ==> final(surface).at(r, c) == (
                if self.covers(r, c) {
                    BLANK_GLYPH
                } else {
                    old(surface).at(r, c)
                }),
    {
        self.paint(surface, BLANK_GLYPH);
    }

    /// Draw the meteor glyph on every cell the entity covers.
    pub fn draw(&self, surface: &mut Surface)
        requires
            old(surface).wf(),
            self.paintable(),
        ensures
            final(surface).wf(),
            final(surface).height == old(surface).height,
            final(surface).width == old(surface).width,
            forall|r: int, c: int|
                old(surface).contains(r, c) ==> final(surface).at(r, c) == (
                if self.covers(r, c) {
                    METEOR_GLYPH
                } else {
                    old(surface).at(r, c)
                }),
    {
        self.paint(surface, METEOR_GLYPH);
    }
}

} // verus!
