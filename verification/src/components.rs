//! Data attached to game entities.
use crate::color::RatColor;
use crate::point_set::PointSet;
use crate::typedefs::CoordinateUnit;
use vstd::prelude::*;

verus! {

/// World-grid position for any entity.
#[derive(Clone, Copy, Debug, PartialEq, Eq, Structural)]
pub struct Position {
    pub x: CoordinateUnit,
    pub y: CoordinateUnit,
}

/// Marker: tags the player-controlled entity.
#[derive(Debug)]
pub struct Player;

/// Visual representation used when rendering an entity on the grid.
#[derive(Clone, Debug)]
pub struct Renderable {
    pub symbol: String,
    pub fg: RatColor,
    pub bg: RatColor,
}

/// Marker: the camera follows entities that have this.
#[derive(Debug)]
pub struct CameraFollow;

/// Marker: the entity occupies its tile and blocks movement.
#[derive(Debug)]
pub struct BlocksMovement;

/// Field of view of an entity that sees the world. `visible_tiles` is recomputed when
/// `dirty`; `revealed_tiles` accumulates every tile ever seen.
#[derive(Debug)]
pub struct Viewshed {
    /// Maximum sight range, in tiles.
    pub range: CoordinateUnit,
    /// The tiles currently visible.
    pub visible_tiles: PointSet,
    /// The tiles seen at least once.
    pub revealed_tiles: PointSet,
    /// Whether the viewshed needs recalculation.
    pub dirty: bool,
}

/// Stamina that a thrown grenade or molotov costs.
pub const SPELL_STAMINA_COST: i32 = 12;

/// Health pool for any entity that can take damage or be healed.
#[derive(Clone, Copy, Debug, PartialEq, Eq, Structural)]
pub struct Health {
    pub current: CoordinateUnit,
    pub max: CoordinateUnit,
}

/// Combat statistics: damage dealt is `max(0, attacker.attack - defender.defense)`.
#[derive(Clone, Copy, Debug, PartialEq, Eq, Structural)]
pub struct CombatStats {
    pub attack: CoordinateUnit,
    pub defense: CoordinateUnit,
}

impl Viewshed {
    /// A viewshed with the given range that sees nothing yet and needs computing.
    pub fn new(range: CoordinateUnit) -> (v: Self)
        ensures
            v.range == range,
            v.visible_tiles@ == Set::<(int, int)>::empty(),
            v.revealed_tiles@ == Set::<(int, int)>::empty(),
            v.dirty,
    {
        Viewshed {
            range,
            visible_tiles: PointSet::new(),
            revealed_tiles: PointSet::new(),
            dirty: true,
        }
    }
}

} // verus!
