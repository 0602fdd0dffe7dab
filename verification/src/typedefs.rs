//! Shared type names and world constants.
use crate::color::RatColor;
use vstd::prelude::*;

verus! {

/// A coordinate on the world grid.
pub type CoordinateUnit = i32;

/// A point `(x, y)` on the world grid.
pub type MyPoint = (CoordinateUnit, CoordinateUnit);

/// A glyph with its foreground and background colors.
pub type GraphicTriple = (String, RatColor, RatColor);

/// A grid of glyphs, row by row, for display.
pub type RenderPacket = Vec<Vec<GraphicTriple>>;

/// Where the player starts, horizontally.
pub const SPAWN_X: CoordinateUnit = 40;

/// Where the player starts, vertically.
pub const SPAWN_Y: CoordinateUnit = 25;

/// A glyph as plain values: its characters and its two colors.
pub open spec fn triple_view(t: GraphicTriple) -> (Seq<char>, RatColor, RatColor) {
    (t.0@, t.1, t.2)
}

/// The glyph of a cell with nothing to show: a blank on black.
pub open spec fn blank_view() -> (Seq<char>, RatColor, RatColor) {
    (" "@, RatColor::Black, RatColor::Black)
}

/// A blank glyph.
pub fn blank_triple() -> (t: GraphicTriple)
    ensures
        triple_view(t) == blank_view(),
{
    (" ".to_owned(), RatColor::Black, RatColor::Black)
}

/// A `width` by `height` grid of blank glyphs.
pub fn create_2d_array(width: usize, height: usize) -> (grid: RenderPacket)
    ensures
        grid@.len() == height,
        forall|y: int| 0 <= y < height ==> #[trigger] grid@[y]@.len() == width,
        forall|y: int, x: int|
            0 <= y < height && 0 <= x < width ==> triple_view(#[trigger] grid@[y]@[x])
                == blank_view(),
{
    let mut grid: RenderPacket = Vec::new();
    let mut y: usize = 0;
    while y < height
        invariant
            y <= height,
            grid@.len() == y,
            forall|j: int| 0 <= j < y ==> #[trigger] grid@[j]@.len() == width,
            forall|j: int, x: int|
                0 <= j < y && 0 <= x < width ==> triple_view(#[trigger] grid@[j]@[x])
                    == blank_view(),
        decreases height - y,
    {
        let mut row: Vec<GraphicTriple> = Vec::new();
        let mut x: usize = 0;
        while x < width
            invariant
                x <= width,
                row@.len() == x,
                forall|i: int| 0 <= i < x ==> triple_view(#[trigger] row@[i]) == blank_view(),
            decreases width - x,
        {
            row.push(blank_triple());
            x += 1;
        }
        grid.push(row);
        y += 1;
    }
    grid
}

} // verus!
