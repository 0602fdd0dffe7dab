//! Crimes, witnesses and the wanted level.
use crate::components::{Position, Viewshed};
use crate::systems::ai::Faction;
use vstd::prelude::*;

verus! {

/// Distance within which an NPC must be to witness a crime.
pub const WITNESS_RANGE: i32 = 10;

/// The highest wanted level.
pub const MAX_WANTED_LEVEL: i32 = 5;

/// Chebyshev distance between two points.
pub open spec fn chebyshev(a: (int, int), b: (int, int)) -> int {
    let dx = if a.0 >= b.0 {
        a.0 - b.0
    } else {
        b.0 - a.0
    };
    let dy = if a.1 >= b.1 {
        a.1 - b.1
    } else {
        b.1 - a.1
    };
    if dx >= dy {
        dx
    } else {
        dy
    }
}

/// An NPC witnesses a crime when it is within the witness range and its viewshed holds the
/// crime's position.
pub open spec fn witnesses(npc: (Position, &Viewshed, Option<Faction>), crime: (i32, i32)) -> bool {
    &&& chebyshev((npc.0.x as int, npc.0.y as int), (crime.0 as int, crime.1 as int))
        <= WITNESS_RANGE
    &&& npc.1.visible_tiles@.contains((crime.0 as int, crime.1 as int))
}

/// Whether some NPC witnesses the crime, and whether a sheriff does.
pub open spec fn witnessed_spec(npcs: Seq<(Position, &Viewshed, Option<Faction>)>, crime: (i32, i32)) -> (
    bool,
    bool,
) {
    (
        exists|i: int| 0 <= i < npcs.len() && witnesses(#[trigger] npcs[i], crime),
        exists|i: int|
            0 <= i < npcs.len() && witnesses(#[trigger] npcs[i], crime) && npcs[i].2 == Some(
                Faction::Sheriff,
            ),
    )
}

/// Determines who saw a crime at `crime`: whether any NPC did, and whether a sheriff did.
pub fn crime_witnessed(npcs: &Vec<(Position, &Viewshed, Option<Faction>)>, crime: (i32, i32)) -> (r: (
    bool,
    bool,
))
    ensures
        r == witnessed_spec(npcs@, crime),
{
    let mut witnessed = false;
    let mut law_witnessed = false;
    let mut i: usize = 0;
    while i < npcs.len()
        invariant
            i <= npcs@.len(),
            witnessed == exists|k: int| 0 <= k < i && witnesses(#[trigger] npcs@[k], crime),
            law_witnessed == exists|k: int|
                0 <= k < i && witnesses(#[trigger] npcs@[k], crime) && npcs@[k].2 == Some(
                    Faction::Sheriff,
                ),
        decreases npcs@.len() - i,
    {
        let (npc_pos, viewshed, faction) = npcs[i];
        let dx: i64 = if npc_pos.x >= crime.0 {
            npc_pos.x as i64 - crime.0 as i64
        } else {
            crime.0 as i64 - npc_pos.x as i64
        };
        let dy: i64 = if npc_pos.y >= crime.1 {
            npc_pos.y as i64 - crime.1 as i64
        } else {
            crime.1 as i64 - npc_pos.y as i64
        };
        let dist = if dx >= dy {
            dx
        } else {
            dy
        };
        if dist <= WITNESS_RANGE as i64 && viewshed.visible_tiles.contains(&crime) {
            witnessed = true;
            if faction == Some(Faction::Sheriff) {
                law_witnessed = true;
            }
        }
        proof {
            assert(npcs@[i as int] == (npc_pos, viewshed, faction));
        }
        i += 1;
    }
    (witnessed, law_witnessed)
}

/// The wanted level after a witnessed crime: it rises by `increase`, and by one more when a
/// sheriff saw it, capped at the highest level.
pub fn escalate_wanted(level: i32, increase: i32, law_witnessed: bool) -> (r: i32)
    requires
        i32::MIN <= level + increase + (if law_witnessed {
            1int
        } else {
            0
        }) <= i32::MAX,
        i32::MIN <= level + increase <= i32::MAX,
        law_witnessed ==> increase < i32::MAX,
    ensures
        r == (if level + increase + (if law_witnessed {
            1int
        } else {
            0
        }) < MAX_WANTED_LEVEL {
            level + increase + (if law_witnessed {
                1int
            } else {
                0
            })
        } else {
            MAX_WANTED_LEVEL as int
        }),
{
    let actual_increase = if law_witnessed {
        increase + 1
    } else {
        increase
    };
    let raised = level + actual_increase;
    if raised < MAX_WANTED_LEVEL {
        raised
    } else {
        MAX_WANTED_LEVEL
    }
}

/// How wanted the player is: the star level, and the turns since a lawman last saw them.
#[derive(Clone, Copy, Debug, PartialEq, Eq, Structural)]
pub struct StarLevel {
    pub level: i32,
    pub unseen_turns: u32,
}

/// The wanted level after a witnessed crime of weight `increase`, when `law` saw it.
pub open spec fn escalated(level: int, increase: int, law: bool) -> int {
    let raised = level + increase + if law {
        1int
    } else {
        0
    };
    if raised < MAX_WANTED_LEVEL {
        raised
    } else {
        MAX_WANTED_LEVEL as int
    }
}

/// Handles a crime of weight `increase` at `crime`: an unwitnessed crime changes nothing; a
/// witnessed one raises the wanted level (one more when a sheriff saw it, capped at the
/// highest level) and resets the turns unseen. Returns whether it was witnessed.
pub fn resolve_crime(
    star: &mut StarLevel,
    npcs: &Vec<(Position, &Viewshed, Option<Faction>)>,
    crime: (i32, i32),
    increase: i32,
) -> (witnessed: bool)
    requires
        i32::MIN <= old(star).level + increase <= i32::MAX,
        i32::MIN <= old(star).level + increase + 1 <= i32::MAX,
        increase < i32::MAX,
    ensures
        witnessed == witnessed_spec(npcs@, crime).0,
        !witnessed ==> *final(star) == *old(star),
        witnessed ==> final(star).level == escalated(
            old(star).level as int,
            increase as int,
            witnessed_spec(npcs@, crime).1,
        ) && final(star).unseen_turns == 0,
{
    let (witnessed, law_witnessed) = crime_witnessed(npcs, crime);
    if witnessed {
        star.level = escalate_wanted(star.level, increase, law_witnessed);
        star.unseen_turns = 0;
    }
    witnessed
}

} // verus!
