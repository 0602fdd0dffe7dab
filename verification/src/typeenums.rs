//! Floor and furniture kinds of map tiles.
use vstd::prelude::*;

verus! {

/// Floor tile types for the game map.
#[derive(Clone, Copy, Debug, PartialEq, Eq, Structural)]
pub enum Floor {
    GrassDeep,
    Grass,
    GrassLight,
    Moss,
    LeafLitter,
}

/// How many buckets the noise is reduced to when picking a floor.
pub const FLOOR_NOISE_BUCKETS: u32 = 10;

/// The floor that a noise value selects.
pub open spec fn floor_of_noise(noise: u32) -> Floor {
    let bucket = noise % 10;
    if bucket == 0 {
        Floor::Moss
    } else if bucket <= 2 {
        Floor::GrassDeep
    } else if bucket <= 7 {
        Floor::Grass
    } else if bucket == 8 {
        Floor::GrassLight
    } else {
        Floor::LeafLitter
    }
}

impl Floor {
    /// Picks a floor from a noise value: bucket 0 is moss, 1-2 deep grass, 3-7 grass,
    /// 8 light grass and 9 leaf litter.
    pub fn from_noise(noise: u32) -> (f: Self)
        ensures
            f == floor_of_noise(noise),
    {
        match noise % FLOOR_NOISE_BUCKETS {
            0 => Floor::Moss,
            1 | 2 => Floor::GrassDeep,
            3..=7 => Floor::Grass,
            8 => Floor::GrassLight,
            _ => Floor::LeafLitter,
        }
    }
}

/// Furniture that blocks movement.
#[derive(Clone, Copy, Debug, PartialEq, Eq, Structural)]
pub enum BlockingFurniture {
    Wall,
    OakTree,
    PineTree,
    BirchTree,
}

/// Furniture that can be walked through.
#[derive(Clone, Copy, Debug, PartialEq, Eq, Structural)]
pub enum WalkableFurniture {
    Shrub,
    Fern,
    TallGrass,
    Wildflower,
}

/// Furniture (obstacles/structures) placed on tiles.
#[derive(Clone, Copy, Debug, PartialEq, Eq, Structural)]
pub enum Furniture {
    Blocking(BlockingFurniture),
    Walkable(WalkableFurniture),
}

impl Furniture {
    /// Whether the furniture blocks movement: exactly the blocking kind does.
    pub fn blocks_movement(&self) -> (b: bool)
        ensures
            b == (*self is Blocking),
    {
        matches!(self, Furniture::Blocking(_))
    }
}

} // verus!
