//! The procedurally generated forest map.
use crate::typedefs::{
    blank_triple, blank_view, triple_view, CoordinateUnit, GraphicTriple, MyPoint, RenderPacket,
    SPAWN_X, SPAWN_Y,
};
use crate::typeenums::{
    floor_of_noise, BlockingFurniture, Floor, Furniture, WalkableFurniture,
};
use crate::voxel::{voxel_glyph, Voxel};
use crate::color::RatColor;
use crate::point_set::PointSet;
use vstd::prelude::*;

verus! {

/// The noise values are reduced to this many buckets when placing furniture.
pub const NOISE_RANGE: u32 = 100;

/// Noise buckets below this hold a tree.
pub const BLOCKING_FURNITURE_THRESHOLD: u32 = 8;

/// Noise buckets below this (and not below the tree threshold) hold a walkable plant.
pub const WALKABLE_FURNITURE_THRESHOLD: u32 = 19;

/// Tiles within this Chebyshev distance of the spawn point are left clear.
pub const SPAWN_CLEAR_RADIUS: CoordinateUnit = 2;

/// Hash multiplier for the x coordinate.
pub const NOISE_X_PRIME: u64 = 73_856_093;

/// Hash multiplier for the y coordinate.
pub const NOISE_Y_PRIME: u64 = 19_349_663;

/// Hash mixing multiplier.
pub const NOISE_MIXER: u64 = 1_274_126_177;

/// Final 32-bit multiplier.
pub const NOISE_FINALIZER: u32 = 2_654_435_761;

/// The deterministic pseudo-noise of tile `(x, y)`: the coordinates, sign-extended to 64 bits,
/// are multiplied by two primes and xored, mixed with a shift and a multiply, truncated to
/// 32 bits and multiplied once more, all with wrapping arithmetic.
pub open spec fn noise_spec(x: i32, y: i32) -> u32 {
    let n = (x as u64).wrapping_mul(NOISE_X_PRIME) ^ (y as u64).wrapping_mul(NOISE_Y_PRIME);
    let m = (n ^ (n >> 13u64)).wrapping_mul(NOISE_MIXER);
    (m as u32).wrapping_mul(NOISE_FINALIZER)
}

/// Hash-based deterministic pseudo-noise used for procedural tile variation.
pub fn procedural_noise(x: CoordinateUnit, y: CoordinateUnit) -> (n: u32)
    ensures
        n == noise_spec(x, y),
{
    let mut n = (x as u64).wrapping_mul(NOISE_X_PRIME) ^ (y as u64).wrapping_mul(NOISE_Y_PRIME);
    n = (n ^ (n >> 13u64)).wrapping_mul(NOISE_MIXER);
    (n as u32).wrapping_mul(NOISE_FINALIZER)
}

/// Absolute value of an integer.
pub open spec fn abs_spec(a: int) -> int {
    if a >= 0 {
        a
    } else {
        -a
    }
}

/// The furniture of tile `(x, y)` on a `width` by `height` map: walls on the border,
/// nothing near the spawn point, otherwise a tree, a walkable plant or nothing by noise.
pub open spec fn furniture_at(x: i32, y: i32, width: i32, height: i32) -> Option<Furniture> {
    let noise = noise_spec(x, y);
    if x == 0 || y == 0 || x == width - 1 || y == height - 1 {
        Some(Furniture::Blocking(BlockingFurniture::Wall))
    } else if abs_spec(x - SPAWN_X) <= SPAWN_CLEAR_RADIUS && abs_spec(y - SPAWN_Y)
        <= SPAWN_CLEAR_RADIUS {
        None
    } else if noise % NOISE_RANGE < BLOCKING_FURNITURE_THRESHOLD {
        Some(
            Furniture::Blocking(
                if noise % 3 == 0 {
                    BlockingFurniture::OakTree
                } else if noise % 3 == 1 {
                    BlockingFurniture::PineTree
                } else {
                    BlockingFurniture::BirchTree
                },
            ),
        )
    } else if noise % NOISE_RANGE < WALKABLE_FURNITURE_THRESHOLD {
        Some(
            Furniture::Walkable(
                if noise % 4 == 0 {
                    WalkableFurniture::Shrub
                } else if noise % 4 == 1 {
                    WalkableFurniture::Fern
                } else if noise % 4 == 2 {
                    WalkableFurniture::TallGrass
                } else {
                    WalkableFurniture::Wildflower
                },
            ),
        )
    } else {
        None
    }
}

/// The voxel that map generation places at `(x, y)`.
pub open spec fn voxel_at(x: i32, y: i32, width: i32, height: i32) -> Voxel {
    Voxel {
        floor: Some(floor_of_noise(noise_spec(x, y))),
        furniture: furniture_at(x, y, width, height),
        voxel_pos: (x, y),
    }
}

/// The game map: a simple 2D grid of voxels, `voxels[y][x]`.
pub struct GameMap {
    pub width: CoordinateUnit,
    pub height: CoordinateUnit,
    pub voxels: Vec<Vec<Voxel>>,
}

impl GameMap {
    /// The grid has `height` rows of `width` voxels each.
    pub open spec fn wf(&self) -> bool {
        &&& self.width >= 0
        &&& self.height >= 0
        &&& self.voxels@.len() == self.height
        &&& forall|y: int| 0 <= y < self.height ==> #[trigger] self.voxels@[y]@.len() == self.width
    }

    /// Whether `p` lies on the map.
    pub open spec fn in_bounds(&self, p: (int, int)) -> bool {
        0 <= p.0 < self.width && 0 <= p.1 < self.height
    }

    /// The voxel at an in-bounds point.
    pub open spec fn cell(&self, p: (int, int)) -> Voxel {
        self.voxels@[p.1]@[p.0]
    }

    /// Whether a point is on the map and free of blocking furniture.
    pub open spec fn passable(&self, p: (int, int)) -> bool {
        self.in_bounds(p) && !(self.cell(p).furniture matches Some(f) && f is Blocking)
    }

    /// The map generated for `width` and `height`.
    pub open spec fn generated(&self, width: i32, height: i32) -> bool {
        &&& self.width == width
        &&& self.height == height
        &&& self.wf()
        &&& forall|y: int, x: int|
            0 <= y < height && 0 <= x < width ==> #[trigger] self.voxels@[y]@[x] == voxel_at(
                x as i32,
                y as i32,
                width,
                height,
            )
    }

    /// Creates a new forest map: a floor chosen by noise on every tile, walls along the
    /// border, a clear area around the spawn point, and trees and plants placed by noise.
    pub fn new(width: CoordinateUnit, height: CoordinateUnit) -> (map: Self)
        requires
            width >= 0,
            height >= 0,
        ensures
            map.generated(width, height),
    {
        let mut voxels: Vec<Vec<Voxel>> = Vec::new();
        let mut y: i32 = 0;
        while y < height
            invariant
                0 <= y <= height,
                width >= 0,
                voxels@.len() == y,
                forall|j: int| 0 <= j < y ==> #[trigger] voxels@[j]@.len() == width,
                forall|j: int, x: int|
                    0 <= j < y && 0 <= x < width ==> #[trigger] voxels@[j]@[x] == voxel_at(
                        x as i32,
                        j as i32,
                        width,
                        height,
                    ),
            decreases height - y,
        {
            let mut row: Vec<Voxel> = Vec::new();
            let mut x: i32 = 0;
            while x < width
                invariant
                    0 <= x <= width,
                    0 <= y < height,
                    row@.len() == x,
                    forall|i: int|
                        0 <= i < x ==> #[trigger] row@[i] == voxel_at(i as i32, y, width, height),
                decreases width - x,
            {
                let noise = procedural_noise(x, y);
                let floor = Floor::from_noise(noise);
                let dx = if x >= SPAWN_X {
                    x - SPAWN_X
                } else {
                    SPAWN_X - x
                };
                let dy = if y >= SPAWN_Y {
                    y - SPAWN_Y
                } else {
                    SPAWN_Y - y
                };
                let is_spawn_clear = dx <= SPAWN_CLEAR_RADIUS && dy <= SPAWN_CLEAR_RADIUS;
                let furniture = if x == 0 || y == 0 || x == width - 1 || y == height - 1 {
                    Some(Furniture::Blocking(BlockingFurniture::Wall))
                } else if is_spawn_clear {
                    None
                } else if noise % NOISE_RANGE < BLOCKING_FURNITURE_THRESHOLD {
                    Some(
                        Furniture::Blocking(
                            match noise % 3 {
                                0 => BlockingFurniture::OakTree,
                                1 => BlockingFurniture::PineTree,
                                _ => BlockingFurniture::BirchTree,
                            },
                        ),
                    )
                } else if noise % NOISE_RANGE < WALKABLE_FURNITURE_THRESHOLD {
                    Some(
                        Furniture::Walkable(
                            match noise % 4 {
                                0 => WalkableFurniture::Shrub,
                                1 => WalkableFurniture::Fern,
                                2 => WalkableFurniture::TallGrass,
                                _ => WalkableFurniture::Wildflower,
                            },
                        ),
                    )
                } else {
                    None
                };
                row.push(Voxel { floor: Some(floor), furniture, voxel_pos: (x, y) });
                x += 1;
            }
            voxels.push(row);
            y += 1;
        }
        GameMap { width, height, voxels }
    }

    /// Get a reference to the voxel at the given map coordinate.
    pub fn get_voxel_at(&self, point: &MyPoint) -> (v: Option<&Voxel>)
        requires
            self.wf(),
        ensures
            v is Some <==> self.in_bounds((point.0 as int, point.1 as int)),
            v matches Some(vox) ==> *vox == self.cell((point.0 as int, point.1 as int)),
    {
        let (x, y) = *point;
        if x >= 0 && x < self.width && y >= 0 && y < self.height {
            Some(&self.voxels[y as usize][x as usize])
        } else {
            None
        }
    }

    /// Returns true when a map coordinate is in bounds and not blocked by impassable furniture.
    pub fn can_move_to(&self, point: &MyPoint) -> (b: bool)
        requires
            self.wf(),
        ensures
            b == self.passable((point.0 as int, point.1 as int)),
    {
        match self.get_voxel_at(point) {
            Some(voxel) => match &voxel.furniture {
                Some(furniture) => !furniture.blocks_movement(),
                None => true,
            },
            None => false,
        }
    }

    /// The glyph shown at screen cell `(rx, ry)` of a view of the map whose lower-left
    /// corner is `corner`: the voxel there drawn as visible, or a blank off the map.
    pub open spec fn screen_glyph(&self, corner: (int, int), rx: int, ry: int) -> (
        Seq<char>,
        RatColor,
        RatColor,
    ) {
        let p = (corner.0 + rx, corner.1 + ry);
        if self.in_bounds(p) {
            voxel_glyph(self.cell(p), true)
        } else {
            blank_view()
        }
    }

    /// Creates a grid of `render_height` rows of `render_width` glyphs for display,
    /// centered on the given position.
    pub fn create_render_packet(&self, center: &MyPoint, render_width: u16, render_height: u16) -> (grid:
        RenderPacket)
        requires
            self.wf(),
            i32::MIN + 0x8000 <= center.0 <= i32::MAX - 0x8000,
            i32::MIN + 0x8000 <= center.1 <= i32::MAX - 0x8000,
        ensures
            grid@.len() == render_height,
            forall|ry: int| 0 <= ry < render_height ==> #[trigger] grid@[ry]@.len() == render_width,
            forall|ry: int, rx: int|
                0 <= ry < render_height && 0 <= rx < render_width ==> triple_view(
                    #[trigger] grid@[ry]@[rx],
                ) == self.screen_glyph(
                    (center.0 - render_width / 2, center.1 - render_height / 2),
                    rx,
                    ry,
                ),
    {
        let w_radius = render_width as CoordinateUnit / 2;
        let h_radius = render_height as CoordinateUnit / 2;
        let bottom_left = (center.0 - w_radius, center.1 - h_radius);
        let ghost corner = (bottom_left.0 as int, bottom_left.1 as int);
        let mut grid: RenderPacket = Vec::new();
        let mut ry: i32 = 0;
        while ry < render_height as CoordinateUnit
            invariant
                self.wf(),
                0 <= ry <= render_height,
                corner == (center.0 - render_width / 2, center.1 - render_height / 2),
                bottom_left == (corner.0 as i32, corner.1 as i32),
                i32::MIN <= corner.0 && corner.0 + render_width <= i32::MAX + 1,
                i32::MIN <= corner.1 && corner.1 + render_height <= i32::MAX + 1,
                grid@.len() == ry,
                forall|j: int| 0 <= j < ry ==> #[trigger] grid@[j]@.len() == render_width,
                forall|j: int, i: int|
                    0 <= j < ry && 0 <= i < render_width ==> triple_view(#[trigger] grid@[j]@[i])
                        == self.screen_glyph(corner, i, j),
            decreases render_height - ry,
        {
            let mut row: Vec<GraphicTriple> = Vec::new();
            let mut rx: i32 = 0;
            while rx < render_width as CoordinateUnit
                invariant
                    self.wf(),
                    0 <= rx <= render_width,
                    0 <= ry < render_height,
                    bottom_left == (corner.0 as i32, corner.1 as i32),
                    i32::MIN <= corner.0 && corner.0 + render_width <= i32::MAX + 1,
                    i32::MIN <= corner.1 && corner.1 + render_height <= i32::MAX + 1,
                    row@.len() == rx,
                    forall|i: int|
                        0 <= i < rx ==> triple_view(#[trigger] row@[i]) == self.screen_glyph(
                            corner,
                            i,
                            ry as int,
                        ),
                decreases render_width - rx,
            {
                let world_x = bottom_left.0 + rx;
                let world_y = bottom_left.1 + ry;
                let glyph = match self.get_voxel_at(&(world_x, world_y)) {
                    Some(voxel) => voxel.to_graphic(true),
                    None => blank_triple(),
                };
                row.push(glyph);
                rx += 1;
            }
            grid.push(row);
            ry += 1;
        }
        grid
    }
}

impl GameMap {
    /// The glyph shown at screen cell `(rx, ry)` of a fogged view whose lower-left corner is
    /// `corner`: a tile in sight (or every tile, when there is no set of tiles in sight) is
    /// drawn as visible, a tile only remembered is drawn dimmed, and any other tile, or a
    /// cell off the map, is blank.
    pub open spec fn fog_glyph(
        &self,
        corner: (int, int),
        rx: int,
        ry: int,
        visible: Option<&PointSet>,
        revealed: Option<&PointSet>,
    ) -> (Seq<char>, RatColor, RatColor) {
        let p = (corner.0 + rx, corner.1 + ry);
        if !self.in_bounds(p) {
            blank_view()
        } else if match visible {
            Some(v) => v@.contains(p),
            None => true,
        } {
            voxel_glyph(self.cell(p), true)
        } else if match revealed {
            Some(r) => r@.contains(p),
            None => false,
        } {
            voxel_glyph(self.cell(p), false)
        } else {
            blank_view()
        }
    }

    /// Creates a grid of `render_height` rows of `render_width` glyphs centered on
    /// `center`, with fog of war: tiles in `visible` are drawn lit, tiles in `revealed`
    /// but out of sight are drawn dimmed, and the rest are blank. Without a set of visible
    /// tiles every tile on the map is drawn lit.
    pub fn create_render_packet_with_fog(
        &self,
        center: &MyPoint,
        render_width: u16,
        render_height: u16,
        visible: Option<&PointSet>,
        revealed: Option<&PointSet>,
    ) -> (grid: RenderPacket)
        requires
            self.wf(),
            i32::MIN + 0x8000 <= center.0 <= i32::MAX - 0x8000,
            i32::MIN + 0x8000 <= center.1 <= i32::MAX - 0x8000,
        ensures
            grid@.len() == render_height,
            forall|ry: int| 0 <= ry < render_height ==> #[trigger] grid@[ry]@.len() == render_width,
            forall|ry: int, rx: int|
                0 <= ry < render_height && 0 <= rx < render_width ==> triple_view(
                    #[trigger] grid@[ry]@[rx],
                ) == self.fog_glyph(
                    (center.0 - render_width / 2, center.1 - render_height / 2),
                    rx,
                    ry,
                    visible,
                    revealed,
                ),
    {
        let w_radius = render_width as CoordinateUnit / 2;
        let h_radius = render_height as CoordinateUnit / 2;
        let bottom_left = (center.0 - w_radius, center.1 - h_radius);
        let ghost corner = (bottom_left.0 as int, bottom_left.1 as int);
        let mut grid: RenderPacket = Vec::new();
        let mut ry: i32 = 0;
        while ry < render_height as CoordinateUnit
            invariant
                self.wf(),
                0 <= ry <= render_height,
                corner == (center.0 - render_width / 2, center.1 - render_height / 2),
                bottom_left == (corner.0 as i32, corner.1 as i32),
                i32::MIN <= corner.0 && corner.0 + render_width <= i32::MAX + 1,
                i32::MIN <= corner.1 && corner.1 + render_height <= i32::MAX + 1,
                grid@.len() == ry,
                forall|j: int| 0 <= j < ry ==> #[trigger] grid@[j]@.len() == render_width,
                forall|j: int, i: int|
                    0 <= j < ry && 0 <= i < render_width ==> triple_view(#[trigger] grid@[j]@[i])
                        == self.fog_glyph(corner, i, j, visible, revealed),
            decreases render_height - ry,
        {
            let mut row: Vec<GraphicTriple> = Vec::new();
            let mut rx: i32 = 0;
            while rx < render_width as CoordinateUnit
                invariant
                    self.wf(),
                    0 <= rx <= render_width,
                    0 <= ry < render_height,
                    bottom_left == (corner.0 as i32, corner.1 as i32),
                    i32::MIN <= corner.0 && corner.0 + render_width <= i32::MAX + 1,
                    i32::MIN <= corner.1 && corner.1 + render_height <= i32::MAX + 1,
                    row@.len() == rx,
                    forall|i: int|
                        0 <= i < rx ==> triple_view(#[trigger] row@[i]) == self.fog_glyph(
                            corner,
                            i,
                            ry as int,
                            visible,
                            revealed,
                        ),
                decreases render_width - rx,
            {
                let world = (bottom_left.0 + rx, bottom_left.1 + ry);
                let in_sight = match visible {
                    Some(v) => v.contains(&world),
                    None => true,
                };
                let remembered = match revealed {
                    Some(r) => r.contains(&world),
                    None => false,
                };
                let glyph = match self.get_voxel_at(&world) {
                    Some(voxel) => if in_sight {
                        voxel.to_graphic(true)
                    } else if remembered {
                        voxel.to_graphic(false)
                    } else {
                        blank_triple()
                    },
                    None => blank_triple(),
                };
                row.push(glyph);
                rx += 1;
            }
            grid.push(row);
            ry += 1;
        }
        grid
    }
}

impl Default for GameMap {
    /// The default 80 by 50 map.
    fn default() -> (map: Self)
        ensures
            map.generated(80, 50),
    {
        GameMap::new(80, 50)
    }
}

} // verus!
