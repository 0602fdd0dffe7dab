//! Moving, and bumping into enemies to attack them.
use crate::components::Position;
use crate::gamemap::GameMap;
use vstd::prelude::*;

verus! {

/// An entity standing on a tile, as the movement rules see it.
#[derive(Clone, Copy, Debug, PartialEq, Eq, Structural)]
pub struct Occupant {
    /// The entity's identity.
    pub entity: u64,
    /// Whether the entity is hostile.
    pub hostile: bool,
    /// Whether the entity is the player.
    pub player: bool,
    /// Whether the entity blocks movement.
    pub blocks: bool,
}

/// What a move intent resolves to.
#[derive(Clone, Copy, Debug, PartialEq, Eq, Structural)]
pub enum MoveOutcome {
    /// The mover attacks this entity instead of moving.
    Attack(u64),
    /// The mover steps onto this tile.
    Move(i32, i32),
    /// The move is refused.
    Blocked,
}

/// The first occupant other than `mover` that is hostile, from index `k` on.
pub open spec fn first_hostile(occupants: Seq<Occupant>, mover: u64, k: int) -> Option<u64>
    decreases occupants.len() - k,
{
    if k < 0 || k >= occupants.len() {
        None
    } else if occupants[k].entity != mover && occupants[k].hostile {
        Some(occupants[k].entity)
    } else {
        first_hostile(occupants, mover, k + 1)
    }
}

/// The first occupant other than `mover` that is the player, from index `k` on.
pub open spec fn first_player(occupants: Seq<Occupant>, mover: u64, k: int) -> Option<u64>
    decreases occupants.len() - k,
{
    if k < 0 || k >= occupants.len() {
        None
    } else if occupants[k].entity != mover && occupants[k].player {
        Some(occupants[k].entity)
    } else {
        first_player(occupants, mover, k + 1)
    }
}

/// Some occupant other than `mover` blocks movement.
pub open spec fn blocked_by(occupants: Seq<Occupant>, mover: u64) -> bool {
    exists|i: int| 0 <= i < occupants.len() && occupants[i].entity != mover && #[trigger] occupants[i].blocks
}

/// The outcome of a move by `(dx, dy)` from `from` onto a tile with `occupants`: attack the
/// first hostile there; else, for a hostile mover, attack the player there; else step onto
/// the tile when the map lets one walk there and nothing else blocks it; else nothing.
pub open spec fn move_outcome(
    map: &GameMap,
    mover: u64,
    mover_hostile: bool,
    from: Position,
    dx: i32,
    dy: i32,
    occupants: Seq<Occupant>,
) -> MoveOutcome {
    let target = (from.x + dx, from.y + dy);
    if first_hostile(occupants, mover, 0) is Some {
        MoveOutcome::Attack(first_hostile(occupants, mover, 0)->0)
    } else if mover_hostile && first_player(occupants, mover, 0) is Some {
        MoveOutcome::Attack(first_player(occupants, mover, 0)->0)
    } else if map.passable(target) && !blocked_by(occupants, mover) {
        MoveOutcome::Move(target.0 as i32, target.1 as i32)
    } else {
        MoveOutcome::Blocked
    }
}

/// Resolves a move intent of `mover` by `(dx, dy)` from `from`, where `occupants` are the
/// entities on the target tile in index order (bump-to-attack).
pub fn resolve_move(
    map: &GameMap,
    mover: u64,
    mover_hostile: bool,
    from: &Position,
    dx: i32,
    dy: i32,
    occupants: &Vec<Occupant>,
) -> (outcome: MoveOutcome)
    requires
        map.wf(),
        i32::MIN <= from.x + dx <= i32::MAX,
        i32::MIN <= from.y + dy <= i32::MAX,
    ensures
        outcome == move_outcome(map, mover, mover_hostile, *from, dx, dy, occupants@),
{
    let target = (from.x + dx, from.y + dy);
    let mut hostile_at_target: Option<u64> = None;
    let mut player_at_target: Option<u64> = None;
    let mut entity_blocked = false;
    let mut i: usize = occupants.len();
    while i > 0
        invariant
            i <= occupants@.len(),
            hostile_at_target == first_hostile(occupants@, mover, i as int),
            player_at_target == first_player(occupants@, mover, i as int),
            entity_blocked == exists|k: int|
                i <= k < occupants@.len() && occupants@[k].entity != mover
                    && #[trigger] occupants@[k].blocks,
        decreases i,
    {
        i -= 1;
        let o = occupants[i];
        if o.entity != mover && o.hostile {
            hostile_at_target = Some(o.entity);
        }
        if o.entity != mover && o.player {
            player_at_target = Some(o.entity);
        }
        if o.entity != mover && o.blocks {
            entity_blocked = true;
        }
        proof {
            assert(occupants@[i as int] == o);
        }
    }
    if let Some(target_entity) = hostile_at_target {
        return MoveOutcome::Attack(target_entity);
    }
    if let Some(target_entity) = player_at_target {
        if mover_hostile {
            return MoveOutcome::Attack(target_entity);
        }
    }
    if map.can_move_to(&target) && !entity_blocked {
        MoveOutcome::Move(target.0, target.1)
    } else {
        MoveOutcome::Blocked
    }
}

} // verus!
