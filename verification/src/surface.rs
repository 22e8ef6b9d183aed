//! The rendered character grid: the shared surface that the simulation
//! paints meteors onto and that collision checks read back from.
use vstd::prelude::*;
use crate::Bounds;

verus! {

/// The glyph that marks a cell occupied by a meteor.
pub const METEOR_GLYPH: char = '*';

/// The glyph of an empty cell.
pub const BLANK_GLYPH: char = ' ';

/// A rectangular grid of glyphs, one `char` per cell, addressed by
/// `(row, column)` with the origin in the top-left corner.
pub struct Surface {
    pub height: i32,
    pub width: i32,
    pub cells: Vec<Vec<char>>,
}

impl Surface {
    /// The grid really is `height` rows of `width` glyphs each.
    pub open spec fn wf(self) -> bool {
        &&& 0 < self.height
        &&& 0 < self.width
        &&& self.cells@.len() == self.height
        &&& forall|r: int|
            0 <= r < self.height ==> (#[trigger] self.cells@[r])@.len() == self.width
    }

    /// The playfield dimensions this surface reports to the simulation.
    pub open spec fn bounds(self) -> Bounds {
        Bounds { height: self.height, width: self.width }
    }

    /// Whether `(r, c)` addresses a cell of the grid.
    pub open spec fn contains(self, r: int, c: int) -> bool {
        0 <= r < self.height && 0 <= c < self.width
    }

    /// The glyph currently rendered at `(r, c)`.
    pub open spec fn at(self, r: int, c: int) -> char {
        self.cells@[r]@[c]
    }

    /// Every cell inside the grid holds `glyph`.
    pub open spec fn all_blank(self, glyph: char) -> bool {
        forall|r: int, c: int| self.contains(r, c) ==> self.at(r, c) == glyph
    }

    /// A fresh surface of the given dimensions, every cell blank.
    pub fn new(height: i32, width: i32) -> (s: Surface)
        requires
            0 < height,
            0 < width,
        ensures
            s.wf(),
            s.height == height,
            s.width == width,
            s.all_blank(BLANK_GLYPH),
    {
        let mut cells: Vec<Vec<char>> = Vec::new();
        let mut r: i32 = 0;
        while r < height
            invariant
                0 < height,
                0 < width,
                0 <= r <= height,
                cells@.len() == r,
                forall|i: int|
                    0 <= i < r ==> (#[trigger] cells@[i])@.len() == width,
                forall|i: int, j: int|
                    0 <= i < r && 0 <= j < width ==> cells@[i]@[j] == BLANK_GLYPH,
            decreases height - r,
        {
            let mut row: Vec<char> = Vec::new();
            let mut c: i32 = 0;
            while c < width
                invariant
                    0 < width,
                    0 <= c <= width,
                    row@.len() == c,
                    forall|j: int| 0 <= j < c ==> row@[j] == BLANK_GLYPH,
                decreases width - c,
            {
                row.push(BLANK_GLYPH);
                c = c + 1;
            }
            cells.push(row);
            r = r + 1;
        }
        Surface { height, width, cells }
    }

    /// Render `glyph` at `(r, c)`. A cell outside the grid is left alone,
    /// the way a terminal ignores writes past its edge.
    pub fn draw_at(&mut self, r: i32, c: i32, glyph: char)
        requires
            old(self).wf(),
        ensures
            final(self).wf(),
            final(self).height == old(self).height,
            final(self).width == old(self).width,
            forall|i: int, j: int|
                old(self).contains(i, j) ==> final(self).at(i, j) == (if i == r && j == c {
                    glyph
                } else {
                    old(self).at(i, j)
                }),
    {
        if 0 <= r && r < self.height && 0 <= c && c < self.width {
            let row: &mut Vec<char> = &mut self.cells[r as usize];
            row[c as usize] = glyph;
        }
    }

    /// Clear the cell at `(r, c)` back to blank; out-of-grid cells are ignored.
    pub fn erase_at(&mut self, r: i32, c: i32)
        requires
            old(self).wf(),
        ensures
            final(self).wf(),
            final(self).height == old(self).height,
            final(self).width == old(self).width,
            forall|i: int, j: int|
                old(self).contains(i, j) ==> final(self).at(i, j) == (if i == r && j == c {
                    BLANK_GLYPH
                } else {
                    old(self).at(i, j)
                }),
    {
        self.draw_at(r, c, BLANK_GLYPH);
    }

    /// The glyph rendered at `(r, c)`.
    pub fn read_glyph_at(&self, r: i32, c: i32) -> (glyph: char)
        requires
            self.wf(),
            self.contains(r as int, c as int),
        ensures
            glyph == self.at(r as int, c as int),
    {
        self.cells[r as usize][c as usize]
    }
}

/// The collision oracle: true exactly when the glyph rendered at the
/// cursor's cell is the meteor glyph.
pub fn cursor_is_hit(cursor_y: i32, cursor_x: i32, surface: &Surface) -> (hit: bool)
    requires
        surface.wf(),
        surface.contains(cursor_y as int, cursor_x as int),
    ensures
        hit == (surface.at(cursor_y as int, cursor_x as int) == METEOR_GLYPH),
{
    surface.read_glyph_at(cursor_y, cursor_x) == METEOR_GLYPH
}

} // verus!
