//! The bookkeeping of an NPC's turn: whom it pursues, what it remembers, and what it does
//! when nothing is chased.
use crate::grid_vec::{chebyshev_spec, GridVec};
use crate::systems::ai::{
    live_target_position, live_target_spec, memory_goal, nearest_spec, nearest_within,
    roomy, AiMemory, AiPursuitBoost, NpcInfo, Threat, ALLY_SHARE_RANGE,
    LOOK_AROUND_BASE_INTERVAL, LOOK_AROUND_DICE_RANGE, MEMORY_DURATION,
};
use crate::systems::chase::TrackedTarget;
use crate::systems::tactics::HealChoice;
use crate::systems::ai::look_interval;
use vstd::prelude::*;

verus! {

/// How long a locked target stays pursued unseen, in turns.
pub const TARGET_LOCK_TIMEOUT: u32 = 18;

/// The awareness bonus an NPC gets on spotting a target, in tiles.
pub const PURSUIT_AWARENESS_BOOST: i32 = 8;

/// How many look-around sweeps an NPC makes at a lost target's last position.
pub const MAX_SEARCH_SWEEPS: u8 = 2;

/// How far an NPC goes for an item it sees.
pub const ITEM_INTEREST_RANGE: i32 = 8;

/// How many items an NPC carries at most.
pub const NPC_INVENTORY_CAPACITY: usize = 9;

/// What an NPC is doing.
#[derive(Clone, Copy, Debug, PartialEq, Eq, Structural)]
pub enum AiState {
    Idle,
    Patrolling,
    Chasing,
    Fleeing,
}

/// The target an NPC has engaged.
#[derive(Clone, Copy, Debug, PartialEq, Eq, Structural)]
pub struct AiTarget {
    pub entity: u64,
    pub last_pos: GridVec,
    pub last_seen: u32,
    pub locked: bool,
}

/// `a - b`, or zero when `b` is larger.
pub open spec fn turns_since(a: u32, b: u32) -> int {
    if a >= b {
        a - b
    } else {
        0
    }
}

/// The target an NPC pursues this turn: the best hostile it notices (locked when it is the
/// locked current target); else the current target, unseen, while it still lives, was seen
/// within 18 turns (locked) or 28 (not), and is locked or was last seen within `awareness`.
pub open spec fn track_spec(
    best: Option<Threat>,
    current: Option<AiTarget>,
    alive: bool,
    my_pos: GridVec,
    turn: u32,
    awareness: int,
) -> Option<TrackedTarget> {
    match best {
        Some(t) => Some(TrackedTarget {
            entity: t.entity,
            pos: t.pos,
            visible: true,
            locked: current matches Some(c) && c.entity == t.entity && c.locked,
        }),
        None => match current {
            Some(c) => if alive && turns_since(turn, c.last_seen) <= (if c.locked {
                TARGET_LOCK_TIMEOUT
            } else {
                MEMORY_DURATION
            }) && (c.locked || chebyshev_spec(my_pos, c.last_pos) <= awareness) {
                Some(TrackedTarget { entity: c.entity, pos: c.last_pos, visible: false, locked: c.locked })
            } else {
                None
            },
            None => None,
        },
    }
}

/// Picks the target to pursue. Returns it, and whether the current target is to be dropped
/// (no hostile noticed and the current target no longer worth pursuing).
pub fn track_target(
    best: Option<Threat>,
    current: Option<AiTarget>,
    my_pos: GridVec,
    turn: u32,
    awareness: i32,
    player_entity: Option<u64>,
    player: Option<(u64, GridVec)>,
    npcs: &Vec<NpcInfo>,
) -> (r: (Option<TrackedTarget>, bool))
    requires
        roomy(my_pos),
        current matches Some(c) ==> roomy(c.last_pos),
    ensures
        r.0 == track_spec(
            best,
            current,
            current matches Some(c) && live_target_spec(c.entity, player_entity, player, npcs@) is Some,
            my_pos,
            turn,
            awareness as int,
        ),
        r.1 == (best is None && current is Some && r.0 is None),
{
    if let Some(t) = best {
        let locked = match current {
            Some(c) => c.entity == t.entity && c.locked,
            None => false,
        };
        return (Some(TrackedTarget { entity: t.entity, pos: t.pos, visible: true, locked }), false);
    }
    let c = match current {
        Some(c) => c,
        None => return (None, false),
    };
    let timeout = if c.locked {
        TARGET_LOCK_TIMEOUT
    } else {
        MEMORY_DURATION
    };
    let alive = live_target_position(c.entity, player_entity, player, npcs).is_some();
    let still_valid = alive && turn.saturating_sub(c.last_seen) <= timeout && (c.locked
        || my_pos.chebyshev_distance(c.last_pos) <= awareness);
    if still_valid {
        (Some(TrackedTarget { entity: c.entity, pos: c.last_pos, visible: false, locked: c.locked }), false)
    } else {
        (None, true)
    }
}

/// The engagement record after pursuing `target` this turn: its tile, seen now when visible
/// (else when the current record last saw it, or now without one), and its lock.
pub open spec fn engagement_spec(target: TrackedTarget, current: Option<AiTarget>, turn: u32) -> AiTarget {
    AiTarget {
        entity: target.entity,
        last_pos: target.pos,
        last_seen: if target.visible {
            turn
        } else {
            match current {
                Some(c) => c.last_seen,
                None => turn,
            }
        },
        locked: target.locked,
    }
}

/// Records the pursuit of `target`. Returns the new engagement record, and the pursuit bonus
/// to grant when the target is seen.
pub fn engage_target(target: TrackedTarget, current: Option<AiTarget>, turn: u32) -> (r: (
    AiTarget,
    Option<AiPursuitBoost>,
))
    ensures
        r.0 == engagement_spec(target, current, turn),
        r.1 == (if target.visible {
            Some(AiPursuitBoost { extra_range: PURSUIT_AWARENESS_BOOST, last_spotted_turn: turn })
        } else {
            None
        }),
{
    let last_seen = if target.visible {
        turn
    } else {
        match current {
            Some(c) => c.last_seen,
            None => turn,
        }
    };
    let record = AiTarget { entity: target.entity, last_pos: target.pos, last_seen, locked: target.locked };
    let boost = if target.visible {
        Some(AiPursuitBoost { extra_range: PURSUIT_AWARENESS_BOOST, last_spotted_turn: turn })
    } else {
        None
    };
    (record, boost)
}

/// The memory after pursuing a target: its tile, the turn when seen, and a fresh search.
pub open spec fn remembered(m: AiMemory, target: TrackedTarget, turn: u32) -> AiMemory {
    AiMemory {
        last_known_pos: Some(target.pos),
        last_seen_turn: if target.visible { turn } else { m.last_seen_turn },
        search_attempts: 0,
        ..m
    }
}

/// Remembers where the pursued target is: its tile, the turn when seen, and a fresh search.
pub fn remember_target(memory: &mut AiMemory, target: TrackedTarget, turn: u32)
    ensures
        *final(memory) == remembered(*old(memory), target, turn),
        final(memory).last_known_pos == Some(target.pos),
        final(memory).last_seen_turn == (if target.visible {
            turn
        } else {
            old(memory).last_seen_turn
        }),
        final(memory).search_attempts == 0,
        final(memory).prev_pos == old(memory).prev_pos,
        final(memory).stationary_turns == old(memory).stationary_turns,
{
    memory.last_known_pos = Some(target.pos);
    if target.visible {
        memory.last_seen_turn = turn;
    }
    memory.search_attempts = 0;
}

/// The memory after noting the NPC's tile: the standing-still count grows by one (up to 255)
/// when the NPC is where it was last turn, else restarts at zero.
pub open spec fn noted(m: AiMemory, my_pos: GridVec) -> AiMemory {
    AiMemory {
        stationary_turns: if m.prev_pos == Some(my_pos) {
            if m.stationary_turns < 255 {
                (m.stationary_turns + 1) as u8
            } else {
                255u8
            }
        } else {
            0u8
        },
        prev_pos: Some(my_pos),
        ..m
    }
}

/// Counts the turns an NPC has stood on the same tile: one more when it is where it was last
/// turn (saturating), else zero; and it is now at `my_pos`.
pub fn note_position(memory: &mut AiMemory, my_pos: GridVec)
    ensures
        *final(memory) == noted(*old(memory), my_pos),
        final(memory).stationary_turns == (if old(memory).prev_pos == Some(my_pos) {
            if old(memory).stationary_turns < 255 {
                (old(memory).stationary_turns + 1) as u8
            } else {
                255u8
            }
        } else {
            0u8
        }),
        final(memory).prev_pos == Some(my_pos),
        final(memory).last_known_pos == old(memory).last_known_pos,
        final(memory).last_seen_turn == old(memory).last_seen_turn,
        final(memory).search_attempts == old(memory).search_attempts,
{
    let same = match memory.prev_pos {
        Some(p) => p == my_pos,
        None => false,
    };
    if same {
        memory.stationary_turns = memory.stationary_turns.saturating_add(1);
    } else {
        memory.stationary_turns = 0;
    }
    memory.prev_pos = Some(my_pos);
}

/// The spot an NPC that is chasing or fleeing reports to its faction: its target's last
/// tile (unless the target is the dead player), else the remembered goal, else its own tile.
pub open spec fn alert_spec(
    current: Option<AiTarget>,
    player_entity: Option<u64>,
    player_alive: bool,
    remembered: Option<GridVec>,
    my_pos: GridVec,
) -> GridVec {
    match current {
        Some(c) if !(player_entity == Some(c.entity) && !player_alive) => c.last_pos,
        _ => match remembered {
            Some(g) => g,
            None => my_pos,
        },
    }
}

/// Where an NPC in pursuit or flight calls its allies to.
pub fn alert_position(
    current: Option<AiTarget>,
    player_entity: Option<u64>,
    player_alive: bool,
    memory: Option<&AiMemory>,
    turn: u32,
    my_pos: GridVec,
) -> (p: GridVec)
    ensures
        p == alert_spec(current, player_entity, player_alive, memory_goal_spec(memory, turn), my_pos),
{
    if let Some(c) = current {
        if !(player_entity == Some(c.entity) && !player_alive) {
            return c.last_pos;
        }
    }
    match memory_goal(memory, turn) {
        Some(g) => g,
        None => my_pos,
    }
}

/// The remembered goal: the last known tile, if seen at most `MEMORY_DURATION` turns ago.
pub open spec fn memory_goal_spec(memory: Option<&AiMemory>, turn: u32) -> Option<GridVec> {
    match memory {
        Some(m) => if m.last_known_pos is Some && turns_since(turn, m.last_seen_turn) <= MEMORY_DURATION {
            m.last_known_pos
        } else {
            None
        },
        None => None,
    }
}

/// The objective of an NPC and whether it came from an allied alert.
pub open spec fn objective_spec(
    target: Option<TrackedTarget>,
    remembered_goal: Option<GridVec>,
    my_pos: GridVec,
    alerts: Seq<GridVec>,
) -> (Option<GridVec>, bool) {
    match target {
        Some(t) => (Some(t.pos), false),
        None => match remembered_goal {
            Some(g) => (Some(g), false),
            None => match nearest_spec(my_pos, alerts, ALLY_SHARE_RANGE as int) {
                Some(a) => (Some(a), true),
                None => (None, false),
            },
        },
    }
}

/// The tile an NPC heads for: its target's; else the remembered goal; else the nearest
/// alert of its faction within `ALLY_SHARE_RANGE` (the first of the nearest). Returns it and
/// whether it came from an alert, which the NPC then remembers as its goal.
pub fn choose_objective(
    target: Option<TrackedTarget>,
    memory: Option<&AiMemory>,
    turn: u32,
    my_pos: GridVec,
    alerts: &Vec<GridVec>,
) -> (r: (Option<GridVec>, bool))
    requires
        roomy(my_pos),
        forall|i: int| 0 <= i < alerts@.len() ==> roomy(#[trigger] alerts@[i]),
    ensures
        r == objective_spec(target, memory_goal_spec(memory, turn), my_pos, alerts@),
        target matches Some(t) ==> r == (Some(t.pos), false),
        target is None && memory_goal_spec(memory, turn) is Some ==> r == (memory_goal_spec(memory, turn), false),
        target is None && memory_goal_spec(memory, turn) is None ==> r.1 == r.0 is Some && (r.0 is None <==> forall|j: int|
            0 <= j < alerts@.len() ==> chebyshev_spec(my_pos, #[trigger] alerts@[j]) > ALLY_SHARE_RANGE),
        target is None && memory_goal_spec(memory, turn) is None && r.0 is Some ==> exists|i: int|
            crate::systems::ai::is_nearest_at(my_pos, alerts@, ALLY_SHARE_RANGE as int, i) && alerts@[i] == r.0->0,
{
    if let Some(t) = target {
        return (Some(t.pos), false);
    }
    if let Some(g) = memory_goal(memory, turn) {
        return (Some(g), false);
    }
    match nearest_within(my_pos, alerts, ALLY_SHARE_RANGE) {
        Some(a) => (Some(a), true),
        None => (None, false),
    }
}

/// An NPC flees when it should and has somewhere to flee from, chases when it has an
/// objective, and patrols otherwise.
pub fn next_state(should_retreat: bool, has_objective: bool) -> (s: AiState)
    ensures
        s == (if should_retreat && has_objective {
            AiState::Fleeing
        } else if has_objective {
            AiState::Chasing
        } else {
            AiState::Patrolling
        }),
{
    if should_retreat && has_objective {
        AiState::Fleeing
    } else if has_objective {
        AiState::Chasing
    } else {
        AiState::Patrolling
    }
}

/// What a chasing NPC without a target does on reaching its goal.
#[derive(Clone, Copy, Debug, PartialEq, Eq, Structural)]
pub enum SearchStep {
    /// Go on with the look-around under way.
    KeepTurning,
    /// Start another full look-around.
    Sweep,
    /// Forget the goal and go back to patrolling.
    GiveUp,
}

/// The search at a lost target's last tile by an NPC that remembers it: finish a look-around
/// under way; else sweep again while fewer than two sweeps were made; else give up, forgetting
/// the goal. (An NPC without a memory gives up at once unless it is turning.)
pub fn search_at_goal(rotating: bool, memory: &mut AiMemory) -> (step: SearchStep)
    ensures
        rotating ==> step == SearchStep::KeepTurning && *final(memory) == *old(memory),
        !rotating && old(memory).search_attempts < MAX_SEARCH_SWEEPS ==> step == SearchStep::Sweep
            && *final(memory) == (AiMemory { search_attempts: (old(memory).search_attempts + 1) as u8, ..*old(memory) }),
        !rotating && old(memory).search_attempts >= MAX_SEARCH_SWEEPS ==> step == SearchStep::GiveUp
            && *final(memory) == (AiMemory { last_known_pos: None, search_attempts: 0, ..*old(memory) }),
{
    if rotating {
        return SearchStep::KeepTurning;
    }
    if memory.search_attempts < MAX_SEARCH_SWEEPS {
        memory.search_attempts = memory.search_attempts + 1;
        SearchStep::Sweep
    } else {
        memory.last_known_pos = None;
        memory.search_attempts = 0;
        SearchStep::GiveUp
    }
}

/// How an NPC's turn opens, before the rules of its state.
#[derive(Clone, Copy, Debug, PartialEq, Eq, Structural)]
pub enum Opening {
    /// Step out of the fire by this king move.
    EscapeFire(GridVec),
    /// Drink the healing item in this inventory slot.
    Heal(usize),
    /// Switch to this state and pick up the item underfoot.
    PickUp(AiState),
    /// Switch to this state and act by its rules.
    Proceed(AiState),
}

/// The opening of an NPC's turn: escape fire when a way out exists; else drink when hurt
/// enough (`wants_heal`: the health fraction is at most the NPC's heal threshold) and a drink
/// is at hand; else take the state that `next_state` gives and, with no objective, room in
/// the inventory and an item underfoot, pick it up.
pub open spec fn opening_spec(
    fire_escape: Option<GridVec>,
    heal: Option<HealChoice>,
    wants_heal: bool,
    should_retreat: bool,
    has_objective: bool,
    has_room: bool,
    item_underfoot: bool,
) -> Opening {
    let state = if should_retreat && has_objective {
        AiState::Fleeing
    } else if has_objective {
        AiState::Chasing
    } else {
        AiState::Patrolling
    };
    match fire_escape {
        Some(d) => Opening::EscapeFire(d),
        None => match heal {
            Some(h) if wants_heal => Opening::Heal(h.index),
            _ => if has_room && !has_objective && item_underfoot {
                Opening::PickUp(state)
            } else {
                Opening::Proceed(state)
            },
        },
    }
}

/// Decides how an NPC's turn opens.
pub fn opening(
    fire_escape: Option<GridVec>,
    heal: Option<HealChoice>,
    wants_heal: bool,
    should_retreat: bool,
    has_objective: bool,
    has_room: bool,
    item_underfoot: bool,
) -> (o: Opening)
    ensures
        o == opening_spec(fire_escape, heal, wants_heal, should_retreat, has_objective, has_room, item_underfoot),
{
    if let Some(d) = fire_escape {
        return Opening::EscapeFire(d);
    }
    if let Some(h) = heal {
        if wants_heal {
            return Opening::Heal(h.index);
        }
    }
    let state = next_state(should_retreat, has_objective);
    if has_room && !has_objective && item_underfoot {
        Opening::PickUp(state)
    } else {
        Opening::Proceed(state)
    }
}

/// What an NPC does when it neither chases nor flees.
#[derive(Clone, Copy, Debug, PartialEq, Eq, Structural)]
pub enum IdlePlan {
    /// Load a round into a gun that has room.
    Reload,
    /// Pick up the item underfoot.
    PickUp,
    /// Walk toward the item on this tile.
    FetchItem(GridVec),
    /// Turn the facing one step clockwise.
    LookAround,
    /// Patrol around this post.
    Patrol(GridVec),
    /// Do nothing.
    Rest,
}

/// The idle rules, in order: reload a gun with room when there is no objective; with no
/// objective and room in the inventory, go for the nearest item in sight within
/// `ITEM_INTEREST_RANGE` (picking it up when standing on it); go on with a look-around under
/// way; look around every `look_interval` turns; patrol around the post, if any; else rest.
pub open spec fn idle_plan_spec(
    has_objective: bool,
    reloadable: bool,
    has_room: bool,
    item: Option<GridVec>,
    my_pos: GridVec,
    rotating: bool,
    turn: u32,
    entity_bits: u64,
    post: Option<GridVec>,
) -> IdlePlan {
    if reloadable && !has_objective {
        IdlePlan::Reload
    } else if !has_objective && has_room && item is Some {
        if item->0 == my_pos {
            IdlePlan::PickUp
        } else {
            IdlePlan::FetchItem(item->0)
        }
    } else if rotating {
        IdlePlan::LookAround
    } else if (turn as int) % (LOOK_AROUND_BASE_INTERVAL + (entity_bits as u32) % LOOK_AROUND_DICE_RANGE) == 0 {
        IdlePlan::LookAround
    } else if post is Some {
        IdlePlan::Patrol(post->0)
    } else {
        IdlePlan::Rest
    }
}

/// Decides what an idle NPC does; `item` is the nearest item it sees within reach.
pub fn idle_plan(
    has_objective: bool,
    reloadable: bool,
    has_room: bool,
    item: Option<GridVec>,
    my_pos: GridVec,
    rotating: bool,
    turn: u32,
    entity_bits: u64,
    post: Option<GridVec>,
) -> (p: IdlePlan)
    ensures
        p == idle_plan_spec(has_objective, reloadable, has_room, item, my_pos, rotating, turn, entity_bits, post),
{
    if reloadable && !has_objective {
        return IdlePlan::Reload;
    }
    if !has_objective && has_room {
        if let Some(i) = item {
            if i == my_pos {
                return IdlePlan::PickUp;
            }
            return IdlePlan::FetchItem(i);
        }
    }
    if rotating {
        return IdlePlan::LookAround;
    }
    if turn % look_interval(entity_bits) == 0 {
        return IdlePlan::LookAround;
    }
    match post {
        Some(p) => IdlePlan::Patrol(p),
        None => IdlePlan::Rest,
    }
}

} // verus!
