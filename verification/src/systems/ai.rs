//! Rules the NPCs decide by.
use crate::components::Viewshed;
use crate::fov::{answers_along, bresenham_line, is_tile_predicate, line_clear_by, line_is_clear, los_fits, opacity};
use crate::point_set::PointSet;
use crate::grid_vec::{chebyshev_spec, direction_index_spec, direction_spec, king_step_spec, GridVec};
use vstd::prelude::*;

verus! {

/// The groups that NPCs belong to.
#[derive(Clone, Copy, Debug, PartialEq, Eq, Hash, Structural)]
pub enum Faction {
    Outlaws,
    Lawmen,
    Vaqueros,
    Wildlife,
    Police,
    Sheriff,
}

/// Two factions are hostile exactly when they differ.
pub fn factions_are_hostile(a: Faction, b: Faction) -> (hostile: bool)
    ensures
        hostile == (a != b),
{
    a != b
}

/// How long a remembered position stays worth pursuing, in turns.
pub const MEMORY_DURATION: u32 = 28;

/// How many turns without a sighting make the pursuit bonus drop by one tile.
pub const PURSUIT_BOOST_DECAY_TURNS: u32 = 3;

/// The base of the look-around interval, in turns.
pub const LOOK_AROUND_BASE_INTERVAL: u32 = 10;

/// The spread of the look-around interval, in turns.
pub const LOOK_AROUND_DICE_RANGE: u32 = 5;

/// The first 64-bit mixing multiplier.
pub const HASH_MIX_A: u64 = 0xff51afd7ed558ccd;

/// The second 64-bit mixing multiplier.
pub const HASH_MIX_B: u64 = 0xc4ceb9fe1a85ec53;

/// Extra awareness range after spotting a target.
#[derive(Clone, Copy, Debug, PartialEq, Eq, Structural)]
pub struct AiPursuitBoost {
    pub extra_range: i32,
    pub last_spotted_turn: u32,
}

/// What an NPC remembers of its target.
#[derive(Clone, Copy, Debug, PartialEq, Eq)]
pub struct AiMemory {
    pub prev_pos: Option<GridVec>,
    pub stationary_turns: u8,
    pub last_known_pos: Option<GridVec>,
    pub last_seen_turn: u32,
    pub search_attempts: u8,
}

/// The 64-bit finalizer: xor-shift by 33, multiply, xor-shift, multiply, xor-shift,
/// with wrapping multiplication.
pub open spec fn hash64_spec(x: u64) -> u64 {
    let a = x ^ (x >> 33u64);
    let b = a.wrapping_mul(HASH_MIX_A);
    let c = b ^ (b >> 33u64);
    let d = c.wrapping_mul(HASH_MIX_B);
    d ^ (d >> 33u64)
}

/// Mixes the bits of `x` into a well-spread 64-bit value.
pub fn hash64(x: u64) -> (h: u64)
    ensures
        h == hash64_spec(x),
{
    let mut x = x;
    x ^= x >> 33u64;
    x = x.wrapping_mul(HASH_MIX_A);
    x ^= x >> 33u64;
    x = x.wrapping_mul(HASH_MIX_B);
    x ^= x >> 33u64;
    x
}

/// The per-entity, per-turn hash: the entity's bits xored with the turn shifted into the high
/// word and with `salt`, then mixed.
pub open spec fn turn_hash_spec(entity_bits: u64, turn: u32, salt: u64) -> u64 {
    hash64_spec(entity_bits ^ ((turn as u64) << 32u64) ^ salt)
}

/// A deterministic pseudo-random value for an entity on a turn.
pub fn turn_hash(entity_bits: u64, turn: u32, salt: u64) -> (h: u64)
    ensures
        h == turn_hash_spec(entity_bits, turn, salt),
{
    hash64(entity_bits ^ ((turn as u64) << 32u64) ^ salt)
}

/// How often, in turns, an idle NPC looks around: 10 plus the low 32 bits of its entity
/// bits modulo 5.
pub fn look_interval(entity_bits: u64) -> (n: u32)
    ensures
        n == LOOK_AROUND_BASE_INTERVAL + (entity_bits as u32) % LOOK_AROUND_DICE_RANGE,
        LOOK_AROUND_BASE_INTERVAL <= n < LOOK_AROUND_BASE_INTERVAL + LOOK_AROUND_DICE_RANGE,
{
    LOOK_AROUND_BASE_INTERVAL + (entity_bits as u32) % LOOK_AROUND_DICE_RANGE
}

/// The pursuit bonus left `turns` turns after spotting: one tile less per three unseen turns,
/// never below zero.
pub open spec fn pursuit_bonus(boost: AiPursuitBoost, current_turn: u32) -> int {
    let unseen = if current_turn >= boost.last_spotted_turn {
        current_turn - boost.last_spotted_turn
    } else {
        0
    };
    let remaining = boost.extra_range - unseen / (PURSUIT_BOOST_DECAY_TURNS as int);
    if remaining > 0 {
        remaining
    } else {
        0
    }
}

/// The awareness range of an NPC: its base range plus what is left of a pursuit bonus.
pub fn effective_awareness_range(
    base_range: i32,
    pursuit_boost: Option<&AiPursuitBoost>,
    current_turn: u32,
) -> (r: i32)
    requires
        pursuit_boost matches Some(b) ==> b.extra_range - (if current_turn >= b.last_spotted_turn {
            current_turn - b.last_spotted_turn
        } else {
            0
        }) / (PURSUIT_BOOST_DECAY_TURNS as int) >= i32::MIN,
        base_range + (match pursuit_boost {
            Some(b) => pursuit_bonus(*b, current_turn),
            None => 0,
        }) <= i32::MAX,
    ensures
        r == base_range + (match pursuit_boost {
            Some(b) => pursuit_bonus(*b, current_turn),
            None => 0,
        }),
{
    let bonus: i64 = match pursuit_boost {
        Some(boost) => {
            let unseen_turns = current_turn.saturating_sub(boost.last_spotted_turn);
            let decay = unseen_turns / PURSUIT_BOOST_DECAY_TURNS;
            let remaining = boost.extra_range as i64 - decay as i64;
            if remaining > 0 {
                remaining
            } else {
                0
            }
        },
        None => 0,
    };
    (base_range as i64 + bonus) as i32
}

/// How threatening a target at `distance` is: `6 * max(30 - distance, 0)`.
pub fn threat_score(distance: i32) -> (s: i32)
    requires
        distance >= -0x1000_0000,
    ensures
        s == 6 * (if 30 - distance > 0 {
            30 - distance
        } else {
            0
        }),
{
    let closeness = if 30 - distance > 0 {
        30 - distance
    } else {
        0
    };
    closeness * 6
}

/// The position an NPC still pursues from memory: the last known position, if it was seen
/// at most `MEMORY_DURATION` turns ago.
pub fn memory_goal(memory: Option<&AiMemory>, current_turn: u32) -> (goal: Option<GridVec>)
    ensures
        goal == (match memory {
            Some(m) => if m.last_known_pos is Some && (if current_turn >= m.last_seen_turn {
                current_turn - m.last_seen_turn
            } else {
                0
            }) <= MEMORY_DURATION {
                m.last_known_pos
            } else {
                None
            },
            None => None,
        }),
{
    let memory = match memory {
        Some(m) => m,
        None => return None,
    };
    let goal = match memory.last_known_pos {
        Some(g) => g,
        None => return None,
    };
    if current_turn.saturating_sub(memory.last_seen_turn) <= MEMORY_DURATION {
        Some(goal)
    } else {
        None
    }
}

/// How many single-step turns a full look-around sweep takes.
pub const FULL_ROTATION_STEPS: u8 = 8;

/// The salt of the coin that picks the side of a flanking move.
pub const FLANK_SALT: u64 = 0xF1A4_9A73;

/// Where an NPC looks, and how many sweep steps of a look-around are left.
#[derive(Clone, Copy, Debug, PartialEq, Eq, Structural)]
pub struct AiLookDir(pub GridVec, pub u8);

/// The grid vector of an integer pair in range.
pub open spec fn to_grid(d: (int, int)) -> GridVec {
    GridVec { x: d.0 as i32, y: d.1 as i32 }
}

/// The look direction one step further clockwise: the king move after the current facing
/// among the eight directions (north when the facing is zero), with one sweep step used up.
pub open spec fn rotated_look(look: AiLookDir) -> AiLookDir {
    let next = match direction_index_spec(king_step_spec(look.0)) {
        Some(i) => (i + 1) % 8,
        None => 0,
    };
    AiLookDir(to_grid(direction_spec(next)), if look.1 > 0 { (look.1 - 1) as u8 } else { 0 })
}

/// Turns the facing one king move clockwise and uses up one sweep step. The caller marks the
/// viewshed for recomputation.
pub fn rotate_look_dir(look: &mut AiLookDir)
    ensures
        *final(look) == rotated_look(*old(look)),
{
    let current = look.0.king_step();
    let index = match current.direction_index() {
        Some(i) => (i + 1) % 8,
        None => 0,
    };
    look.0 = GridVec::direction(index);
    look.1 = look.1.saturating_sub(1);
}

/// Faces the way of `dir` and ends any sweep; a zero `dir` changes nothing. Returns whether
/// the facing changed, so that the viewshed needs recomputing.
pub fn update_look_dir(dir: GridVec, look: &mut AiLookDir) -> (changed: bool)
    ensures
        changed == !(dir.x == 0 && dir.y == 0),
        changed ==> (final(look).0.x as int, final(look).0.y as int) == king_step_spec(dir)
            && final(look).1 == 0,
        !changed ==> *final(look) == *old(look),
{
    if dir.is_zero() {
        return false;
    }
    look.0 = dir.king_step();
    look.1 = 0;
    true
}

/// Starts a full look-around: eight sweep steps, the first of them taken at once.
pub fn begin_circular_rotation(look: &mut AiLookDir)
    ensures
        *final(look) == rotated_look(AiLookDir(old(look).0, FULL_ROTATION_STEPS)),
{
    look.1 = FULL_ROTATION_STEPS;
    rotate_look_dir(look);
}

/// Whether a look-around sweep is under way.
pub fn is_rotating(look: Option<&AiLookDir>) -> (b: bool)
    ensures
        b == (match look {
            Some(l) => l.1 > 0,
            None => false,
        }),
{
    match look {
        Some(l) => l.1 > 0,
        None => false,
    }
}

/// A coordinate far enough from the edge of `i32` for the grid arithmetic of the NPC rules.
pub open spec fn roomy(v: GridVec) -> bool {
    -0x1000_0000 <= v.x <= 0x1000_0000 && -0x1000_0000 <= v.y <= 0x1000_0000
}

/// The tile an NPC flanks to: two tiles to the side of the target, across the bearing from
/// `my_pos`; left (counterclockwise) or right by a per-turn coin. With no bearing, the target.
pub open spec fn flank_goal_spec(entity_bits: u64, turn: u32, my_pos: GridVec, target_pos: GridVec) -> (int, int) {
    let b = king_step_spec(GridVec { x: (target_pos.x - my_pos.x) as i32, y: (target_pos.y - my_pos.y) as i32 });
    if b.0 == 0 && b.1 == 0 {
        (target_pos.x as int, target_pos.y as int)
    } else if turn_hash_spec(entity_bits, turn, FLANK_SALT) & 1 == 0 {
        (target_pos.x - 2 * b.1, target_pos.y + 2 * b.0)
    } else {
        (target_pos.x + 2 * b.1, target_pos.y - 2 * b.0)
    }
}

/// Picks a flanking tile beside the target.
pub fn flank_goal(entity_bits: u64, turn: u32, my_pos: GridVec, target_pos: GridVec) -> (g: GridVec)
    requires
        roomy(my_pos),
        roomy(target_pos),
    ensures
        (g.x as int, g.y as int) == flank_goal_spec(entity_bits, turn, my_pos, target_pos),
{
    let bearing = target_pos.minus(my_pos).king_step();
    if bearing.is_zero() {
        return target_pos;
    }
    let left = bearing.rotate_90_ccw();
    let right = bearing.rotate_90_cw();
    if turn_hash(entity_bits, turn, FLANK_SALT) & 1 == 0 {
        GridVec::new(target_pos.x + 2 * left.x, target_pos.y + 2 * left.y)
    } else {
        GridVec::new(target_pos.x + 2 * right.x, target_pos.y + 2 * right.y)
    }
}

/// How close a hostile is noticed even when it is not in view.
pub const PROXIMITY_OVERRIDE_RANGE: i32 = 4;

/// How far an alert shared by allies of the same faction carries.
pub const ALLY_SHARE_RANGE: i32 = 24;

/// What the NPC rules see of another NPC: its identity, tile, faction and current target.
#[derive(Clone, Copy, Debug, PartialEq, Eq)]
pub struct NpcInfo {
    pub entity: u64,
    pub pos: GridVec,
    pub faction: Option<Faction>,
    pub target: Option<u64>,
}

/// A hostile that an NPC has noticed, with how much it matters.
#[derive(Clone, Copy, Debug, PartialEq, Eq)]
pub struct Threat {
    pub entity: u64,
    pub pos: GridVec,
    pub score: i32,
}

/// An NPC of faction `other` is hostile to faction `mine`.
pub open spec fn hostile_to(mine: Faction, other: Option<Faction>) -> bool {
    other matches Some(f) && mine != f
}

/// An NPC of faction `other` is an ally of faction `mine`.
pub open spec fn friendly_to(mine: Faction, other: Option<Faction>) -> bool {
    other matches Some(f) && mine == f
}

/// Every NPC of the list lies well inside the grid's arithmetic range.
pub open spec fn npcs_roomy(npcs: Seq<NpcInfo>) -> bool {
    forall|i: int| 0 <= i < npcs.len() ==> roomy(#[trigger] npcs[i].pos)
}

/// How many NPCs of the list are hostile to `mine` and within `radius` of `center`.
pub open spec fn count_hostile_npcs(npcs: Seq<NpcInfo>, mine: Faction, center: GridVec, radius: int) -> nat
    decreases npcs.len(),
{
    if npcs.len() == 0 {
        0
    } else {
        let last = npcs.last();
        count_hostile_npcs(npcs.drop_last(), mine, center, radius) + if hostile_to(mine, last.faction)
            && chebyshev_spec(center, last.pos) <= radius {
            1nat
        } else {
            0nat
        }
    }
}

/// How many hostiles stand within `radius` of `center`: the living player, and, for an NPC
/// with a faction, the NPCs of other factions.
pub open spec fn hostiles_near_spec(
    center: GridVec,
    radius: int,
    my_faction: Option<Faction>,
    player: Option<(u64, GridVec)>,
    npcs: Seq<NpcInfo>,
) -> nat {
    (if player matches Some(p) && chebyshev_spec(center, p.1) <= radius {
        1nat
    } else {
        0nat
    }) + match my_faction {
        Some(f) => count_hostile_npcs(npcs, f, center, radius),
        None => 0nat,
    }
}

/// Counts the hostiles within `radius` of `center`.
pub fn count_hostiles_near(
    center: GridVec,
    radius: i32,
    my_faction: Option<Faction>,
    player: Option<(u64, GridVec)>,
    npcs: &Vec<NpcInfo>,
) -> (count: usize)
    requires
        roomy(center),
        player matches Some(p) ==> roomy(p.1),
        npcs_roomy(npcs@),
        npcs@.len() < usize::MAX,
    ensures
        count == hostiles_near_spec(center, radius as int, my_faction, player, npcs@),
{
    let mut count: usize = 0;
    if let Some((_, player_pos)) = player {
        if center.chebyshev_distance(player_pos) <= radius {
            count = 1;
        }
    }
    if let Some(mine) = my_faction {
        let ghost base = count;
        let mut i: usize = 0;
        while i < npcs.len()
            invariant
                i <= npcs@.len(),
                npcs_roomy(npcs@),
                roomy(center),
                npcs@.len() < usize::MAX,
                base <= 1,
                count == base + count_hostile_npcs(npcs@.subrange(0, i as int), mine, center, radius as int),
                count <= base + i,
            decreases npcs@.len() - i,
        {
            let npc = npcs[i];
            proof {
                assert(npcs@.subrange(0, i + 1).drop_last() == npcs@.subrange(0, i as int));
                assert(roomy(npcs@[i as int].pos));
            }
            let hostile = match npc.faction {
                Some(other) => mine != other,
                None => false,
            };
            if hostile && center.chebyshev_distance(npc.pos) <= radius {
                count += 1;
            }
            i += 1;
        }
        proof {
            assert(npcs@.subrange(0, npcs@.len() as int) == npcs@);
        }
    }
    count
}

/// A blast of `radius` at `center` would catch the thrower (within one tile more than the
/// radius) or an ally of its faction other than itself.
pub open spec fn blast_hits_friendlies_spec(
    center: GridVec,
    radius: int,
    my_pos: GridVec,
    my_faction: Option<Faction>,
    self_entity: u64,
    npcs: Seq<NpcInfo>,
) -> bool {
    ||| chebyshev_spec(my_pos, center) <= radius + 1
    ||| my_faction matches Some(f) && exists|i: int|
        0 <= i < npcs.len() && npcs[i].entity != self_entity && friendly_to(f, #[trigger] npcs[i].faction)
            && chebyshev_spec(center, npcs[i].pos) <= radius
}

/// Whether a blast at `center` would hurt the thrower or its allies.
pub fn blast_hits_friendlies(
    center: GridVec,
    radius: i32,
    my_pos: GridVec,
    my_faction: Option<Faction>,
    self_entity: u64,
    npcs: &Vec<NpcInfo>,
) -> (hits: bool)
    requires
        roomy(center),
        roomy(my_pos),
        radius < i32::MAX,
        npcs_roomy(npcs@),
    ensures
        hits == blast_hits_friendlies_spec(center, radius as int, my_pos, my_faction, self_entity, npcs@),
{
    if my_pos.chebyshev_distance(center) <= radius + 1 {
        return true;
    }
    let mine = match my_faction {
        Some(f) => f,
        None => return false,
    };
    let mut i: usize = 0;
    while i < npcs.len()
        invariant
            i <= npcs@.len(),
            npcs_roomy(npcs@),
            roomy(center),
            my_faction == Some(mine),
            forall|j: int|
                0 <= j < i ==> !(npcs@[j].entity != self_entity && friendly_to(mine, #[trigger] npcs@[j].faction)
                    && chebyshev_spec(center, npcs@[j].pos) <= radius),
        decreases npcs@.len() - i,
    {
        let npc = npcs[i];
        proof {
            assert(roomy(npcs@[i as int].pos));
        }
        let friendly = match npc.faction {
            Some(other) => mine == other,
            None => false,
        };
        if npc.entity != self_entity && friendly && center.chebyshev_distance(npc.pos) <= radius {
            proof {
                assert(friendly_to(mine, npcs@[i as int].faction));
            }
            return true;
        }
        i += 1;
    }
    false
}

/// Whether the viewshed, if any, sees tile `p`.
pub open spec fn sees(viewshed: Option<&Viewshed>, p: GridVec) -> bool {
    match viewshed {
        Some(v) => v.visible_tiles@.contains((p.x as int, p.y as int)),
        None => false,
    }
}

/// `6 * max(30 - distance, 0)`.
pub open spec fn threat_score_spec(distance: int) -> int {
    6 * (if 30 - distance > 0 {
        30 - distance
    } else {
        0
    })
}

/// The player as a noticed threat: when it is alive and seen, or within the proximity range;
/// worth 18 more when it is the current target.
pub open spec fn player_threat(
    my_pos: GridVec,
    current_target: Option<u64>,
    viewshed: Option<&Viewshed>,
    player: Option<(u64, GridVec)>,
) -> Seq<Threat> {
    match player {
        Some((e, p)) => {
            let d = chebyshev_spec(my_pos, p);
            if sees(viewshed, p) || d <= PROXIMITY_OVERRIDE_RANGE {
                seq![Threat {
                    entity: e,
                    pos: p,
                    score: (threat_score_spec(d) + if current_target == Some(e) { 18int } else { 0int }) as i32,
                }]
            } else {
                Seq::empty()
            }
        },
        None => Seq::empty(),
    }
}

/// Whether NPC `n` is a threat that `entity` notices: another NPC of a hostile faction, seen
/// or within the proximity range.
pub open spec fn noticed(
    n: NpcInfo,
    entity: u64,
    my_pos: GridVec,
    mine: Faction,
    viewshed: Option<&Viewshed>,
) -> bool {
    &&& n.entity != entity
    &&& hostile_to(mine, n.faction)
    &&& sees(viewshed, n.pos) || chebyshev_spec(my_pos, n.pos) <= PROXIMITY_OVERRIDE_RANGE
}

/// The threat an NPC poses: by distance, worth 18 more as the current target and 24 more
/// when it targets `entity` itself.
pub open spec fn npc_threat(n: NpcInfo, entity: u64, my_pos: GridVec, current_target: Option<u64>) -> Threat {
    Threat {
        entity: n.entity,
        pos: n.pos,
        score: (threat_score_spec(chebyshev_spec(my_pos, n.pos)) + (if current_target == Some(n.entity) {
            18int
        } else {
            0int
        }) + (if n.target == Some(entity) {
            24int
        } else {
            0int
        })) as i32,
    }
}

/// The noticed NPC threats, in list order.
pub open spec fn npc_threats(
    npcs: Seq<NpcInfo>,
    entity: u64,
    my_pos: GridVec,
    mine: Faction,
    current_target: Option<u64>,
    viewshed: Option<&Viewshed>,
) -> Seq<Threat>
    decreases npcs.len(),
{
    if npcs.len() == 0 {
        Seq::empty()
    } else {
        let rest = npc_threats(npcs.drop_last(), entity, my_pos, mine, current_target, viewshed);
        if noticed(npcs.last(), entity, my_pos, mine, viewshed) {
            rest.push(npc_threat(npcs.last(), entity, my_pos, current_target))
        } else {
            rest
        }
    }
}

/// All hostiles that `entity` notices: the player first, then the NPCs in list order.
pub open spec fn visible_hostiles_spec(
    entity: u64,
    my_pos: GridVec,
    my_faction: Option<Faction>,
    current_target: Option<u64>,
    viewshed: Option<&Viewshed>,
    player: Option<(u64, GridVec)>,
    npcs: Seq<NpcInfo>,
) -> Seq<Threat> {
    player_threat(my_pos, current_target, viewshed, player) + match my_faction {
        Some(f) => npc_threats(npcs, entity, my_pos, f, current_target, viewshed),
        None => Seq::empty(),
    }
}

/// Lists the hostiles that NPC `entity` at `my_pos` notices, with their threat scores.
pub fn collect_visible_hostiles(
    entity: u64,
    my_pos: GridVec,
    my_faction: Option<Faction>,
    current_target: Option<u64>,
    viewshed: Option<&Viewshed>,
    player: Option<(u64, GridVec)>,
    npcs: &Vec<NpcInfo>,
) -> (hostiles: Vec<Threat>)
    requires
        roomy(my_pos),
        player matches Some(p) ==> roomy(p.1),
        npcs_roomy(npcs@),
    ensures
        hostiles@ == visible_hostiles_spec(entity, my_pos, my_faction, current_target, viewshed, player, npcs@),
{
    let mut hostiles: Vec<Threat> = Vec::new();
    if let Some((player_entity, player_pos)) = player {
        let distance = my_pos.chebyshev_distance(player_pos);
        let seen = match viewshed {
            Some(v) => v.visible_tiles.contains(&(player_pos.x, player_pos.y)),
            None => false,
        };
        if seen || distance <= PROXIMITY_OVERRIDE_RANGE {
            let mut score = threat_score(distance);
            if current_target == Some(player_entity) {
                score += 18;
            }
            hostiles.push(Threat { entity: player_entity, pos: player_pos, score });
        }
    }
    assert(hostiles@ == player_threat(my_pos, current_target, viewshed, player));
    if let Some(mine) = my_faction {
        let ghost head = hostiles@;
        let mut i: usize = 0;
        while i < npcs.len()
            invariant
                i <= npcs@.len(),
                npcs_roomy(npcs@),
                roomy(my_pos),
                hostiles@ == head + npc_threats(npcs@.subrange(0, i as int), entity, my_pos, mine, current_target, viewshed),
            decreases npcs@.len() - i,
        {
            let npc = npcs[i];
            proof {
                assert(npcs@.subrange(0, i + 1).drop_last() == npcs@.subrange(0, i as int));
                assert(npcs@.subrange(0, i + 1).last() == npc);
                assert(roomy(npcs@[i as int].pos));
            }
            let hostile = match npc.faction {
                Some(other) => mine != other,
                None => false,
            };
            if npc.entity != entity && hostile {
                let distance = my_pos.chebyshev_distance(npc.pos);
                let seen = match viewshed {
                    Some(v) => v.visible_tiles.contains(&(npc.pos.x, npc.pos.y)),
                    None => false,
                };
                if seen || distance <= PROXIMITY_OVERRIDE_RANGE {
                    let mut score = threat_score(distance);
                    if current_target == Some(npc.entity) {
                        score += 18;
                    }
                    if npc.target == Some(entity) {
                        score += 24;
                    }
                    hostiles.push(Threat { entity: npc.entity, pos: npc.pos, score });
                }
            }
            i += 1;
        }
        proof {
            assert(npcs@.subrange(0, npcs@.len() as int) == npcs@);
        }
    }
    hostiles
}

/// The threat with the highest score, and among equal scores the one listed last.
pub open spec fn best_threat_spec(threats: Seq<Threat>) -> Option<Threat>
    decreases threats.len(),
{
    if threats.len() == 0 {
        None
    } else {
        match best_threat_spec(threats.drop_last()) {
            Some(b) => if threats.last().score >= b.score {
                Some(threats.last())
            } else {
                Some(b)
            },
            None => Some(threats.last()),
        }
    }
}

/// The threat an NPC engages: the highest score, and among equal scores the one listed last.
pub fn best_threat(threats: &Vec<Threat>) -> (best: Option<Threat>)
    ensures
        best == best_threat_spec(threats@),
        best is None <==> threats@.len() == 0,
        best matches Some(t) ==> exists|i: int|
            0 <= i < threats@.len() && threats@[i] == t
                && (forall|j: int| 0 <= j < threats@.len() ==> threats@[j].score <= t.score)
                && (forall|j: int| i < j < threats@.len() ==> threats@[j].score < t.score),
{
    if threats.len() == 0 {
        return None;
    }
    let mut best_index: usize = 0;
    let mut i: usize = 1;
    proof {
        assert(threats@.subrange(0, 1).drop_last() == Seq::<Threat>::empty());
        assert(threats@.subrange(0, 1).last() == threats@[0]);
        assert(best_threat_spec(Seq::<Threat>::empty()) is None);
        assert(best_threat_spec(threats@.subrange(0, 1)) == Some(threats@[0]));
    }
    while i < threats.len()
        invariant
            1 <= i <= threats@.len(),
            best_index < i,
            best_threat_spec(threats@.subrange(0, i as int)) == Some(threats@[best_index as int]),
            forall|j: int| 0 <= j < i ==> threats@[j].score <= threats@[best_index as int].score,
            forall|j: int| best_index < j < i ==> threats@[j].score < threats@[best_index as int].score,
        decreases threats@.len() - i,
    {
        proof {
            assert(threats@.subrange(0, i + 1).drop_last() == threats@.subrange(0, i as int));
            assert(threats@.subrange(0, i + 1).last() == threats@[i as int]);
        }
        if threats[i].score >= threats[best_index].score {
            best_index = i;
        }
        i += 1;
    }
    proof {
        assert(threats@.subrange(0, threats@.len() as int) == threats@);
    }
    Some(threats[best_index])
}

/// The tile of the first NPC of the list with identity `target`, from index `k` on.
pub open spec fn npc_pos_of(npcs: Seq<NpcInfo>, target: u64, k: int) -> Option<GridVec>
    decreases npcs.len() - k,
{
    if k < 0 || k >= npcs.len() {
        None
    } else if npcs[k].entity == target {
        Some(npcs[k].pos)
    } else {
        npc_pos_of(npcs, target, k + 1)
    }
}

/// Where a target is now: the living player's tile; nothing for a dead player; else the
/// target NPC's tile, if it is still listed.
pub open spec fn live_target_spec(
    target: u64,
    player_entity: Option<u64>,
    player: Option<(u64, GridVec)>,
    npcs: Seq<NpcInfo>,
) -> Option<GridVec> {
    match player {
        Some((e, p)) if e == target => Some(p),
        _ => if player_entity == Some(target) {
            None
        } else {
            npc_pos_of(npcs, target, 0)
        },
    }
}

/// Finds where the target entity is now.
pub fn live_target_position(
    target: u64,
    player_entity: Option<u64>,
    player: Option<(u64, GridVec)>,
    npcs: &Vec<NpcInfo>,
) -> (pos: Option<GridVec>)
    ensures
        pos == live_target_spec(target, player_entity, player, npcs@),
{
    if let Some((entity, player_pos)) = player {
        if entity == target {
            return Some(player_pos);
        }
    }
    if player_entity == Some(target) {
        return None;
    }
    let mut i: usize = npcs.len();
    let mut found: Option<GridVec> = None;
    while i > 0
        invariant
            i <= npcs@.len(),
            found == npc_pos_of(npcs@, target, i as int),
        decreases i,
    {
        i -= 1;
        if npcs[i].entity == target {
            found = Some(npcs[i].pos);
        }
    }
    found
}

/// `p` is among the points within `range` of `origin` that are nearest to it, and no such
/// point listed before index `i` is as near.
pub open spec fn is_nearest_at(origin: GridVec, points: Seq<GridVec>, range: int, i: int) -> bool {
    let d = chebyshev_spec(origin, points[i]);
    &&& 0 <= i < points.len()
    &&& d <= range
    &&& forall|j: int| 0 <= j < points.len() && chebyshev_spec(origin, #[trigger] points[j]) <= range ==> d <= chebyshev_spec(origin, points[j])
    &&& forall|j: int| 0 <= j < i && chebyshev_spec(origin, #[trigger] points[j]) <= range ==> d < chebyshev_spec(origin, points[j])
}

/// The first of the nearest points within `range` of `origin`, scanning the list in order.
pub open spec fn nearest_spec(origin: GridVec, points: Seq<GridVec>, range: int) -> Option<GridVec>
    decreases points.len(),
{
    if points.len() == 0 {
        None
    } else {
        let x = points.last();
        let r = nearest_spec(origin, points.drop_last(), range);
        if chebyshev_spec(origin, x) > range {
            r
        } else {
            match r {
                Some(b) => if chebyshev_spec(origin, x) < chebyshev_spec(origin, b) {
                    Some(x)
                } else {
                    Some(b)
                },
                None => Some(x),
            }
        }
    }
}

/// The first of the nearest points within `range` of `origin`, if any point is that close.
pub fn nearest_within(origin: GridVec, points: &Vec<GridVec>, range: i32) -> (best: Option<GridVec>)
    requires
        roomy(origin),
        forall|i: int| 0 <= i < points@.len() ==> roomy(#[trigger] points@[i]),
    ensures
        best == nearest_spec(origin, points@, range as int),
        best is None <==> forall|j: int| 0 <= j < points@.len() ==> chebyshev_spec(origin, #[trigger] points@[j]) > range,
        best matches Some(p) ==> exists|i: int| is_nearest_at(origin, points@, range as int, i) && points@[i] == p,
{
    let mut best_index: Option<usize> = None;
    let mut best_dist: i32 = 0;
    let mut i: usize = 0;
    while i < points.len()
        invariant
            i <= points@.len(),
            roomy(origin),
            forall|k: int| 0 <= k < points@.len() ==> roomy(#[trigger] points@[k]),
            best_index is None <==> forall|j: int| 0 <= j < i ==> chebyshev_spec(origin, #[trigger] points@[j]) > range,
            nearest_spec(origin, points@.subrange(0, i as int), range as int) == (match best_index {
                Some(b) => Some(points@[b as int]),
                None => None,
            }),
            best_index matches Some(b) ==> b < i && best_dist == chebyshev_spec(origin, points@[b as int])
                && best_dist <= range
                && (forall|j: int| 0 <= j < i && chebyshev_spec(origin, #[trigger] points@[j]) <= range ==> best_dist <= chebyshev_spec(origin, points@[j]))
                && (forall|j: int| 0 <= j < b && chebyshev_spec(origin, #[trigger] points@[j]) <= range ==> best_dist < chebyshev_spec(origin, points@[j])),
        decreases points@.len() - i,
    {
        proof {
            assert(roomy(points@[i as int]));
            assert(points@.subrange(0, i + 1).drop_last() == points@.subrange(0, i as int));
            assert(points@.subrange(0, i + 1).last() == points@[i as int]);
        }
        let d = origin.chebyshev_distance(points[i]);
        if d <= range {
            match best_index {
                Some(_) => {
                    if d < best_dist {
                        best_index = Some(i);
                        best_dist = d;
                    }
                },
                None => {
                    best_index = Some(i);
                    best_dist = d;
                },
            }
        }
        i += 1;
    }
    proof {
        assert(points@.subrange(0, points@.len() as int) == points@);
    }
    match best_index {
        Some(b) => {
            proof {
                assert(is_nearest_at(origin, points@, range as int, b as int));
            }
            Some(points[b])
        },
        None => None,
    }
}

/// The points that the viewshed, if any, sees, in list order.
pub open spec fn seen_points(viewshed: Option<&Viewshed>, points: Seq<GridVec>) -> Seq<GridVec> {
    points.filter(|p: GridVec| sees(viewshed, p))
}

/// Keeps the points that the viewshed sees.
pub fn visible_points(viewshed: Option<&Viewshed>, points: &Vec<GridVec>) -> (seen: Vec<GridVec>)
    ensures
        seen@ == seen_points(viewshed, points@),
{
    let mut seen: Vec<GridVec> = Vec::new();
    let mut i: usize = 0;
    while i < points.len()
        invariant
            i <= points@.len(),
            seen@ == seen_points(viewshed, points@.subrange(0, i as int)),
        decreases points@.len() - i,
    {
        let p = points[i];
        proof {
            assert(points@.subrange(0, i + 1).drop_last() == points@.subrange(0, i as int));
            reveal(Seq::filter);
        }
        let visible = match viewshed {
            Some(v) => v.visible_tiles.contains(&(p.x, p.y)),
            None => false,
        };
        if visible {
            seen.push(p);
        }
        i += 1;
    }
    proof {
        assert(points@.subrange(0, points@.len() as int) == points@);
    }
    seen
}

/// Some NPC other than `self_entity`, of faction `mine`, stands on tile `(x, y)`.
pub open spec fn ally_at(npcs: Seq<NpcInfo>, mine: Faction, self_entity: u64, x: i32, y: i32) -> bool {
    exists|i: int|
        0 <= i < npcs.len() && npcs[i].entity != self_entity && friendly_to(mine, #[trigger] npcs[i].faction)
            && npcs[i].pos.x == x && npcs[i].pos.y == y
}

/// Whether an ally of `mine` other than `self_entity` stands on tile `(x, y)`.
pub fn ally_stands_at(npcs: &Vec<NpcInfo>, mine: Faction, self_entity: u64, x: i32, y: i32) -> (b: bool)
    ensures
        b == ally_at(npcs@, mine, self_entity, x, y),
{
    let mut i: usize = 0;
    while i < npcs.len()
        invariant
            i <= npcs@.len(),
            forall|j: int|
                0 <= j < i ==> !(npcs@[j].entity != self_entity && friendly_to(mine, #[trigger] npcs@[j].faction)
                    && npcs@[j].pos.x == x && npcs@[j].pos.y == y),
        decreases npcs@.len() - i,
    {
        let npc = npcs[i];
        let friendly = match npc.faction {
            Some(other) => mine == other,
            None => false,
        };
        if npc.entity != self_entity && friendly && npc.pos.x == x && npc.pos.y == y {
            proof {
                assert(friendly_to(mine, npcs@[i as int].faction));
            }
            return true;
        }
        i += 1;
    }
    false
}

/// A shot from `origin` to `target` is close enough for the line walk.
pub open spec fn shot_fits(origin: GridVec, target: GridVec) -> bool {
    los_fits((origin.x, origin.y), (target.x, target.y))
}

/// The line of a shot between two tiles.
pub open spec fn shot_line(origin: GridVec, target: GridVec) -> Seq<(int, int)> {
    bresenham_line((origin.x as int, origin.y as int), (target.x as int, target.y as int))
}

/// Whether an ally of the shooter's faction stands on the line of fire between `origin` and
/// `target` (the end tiles excluded). An NPC with no faction has no allies.
pub fn has_friendly_in_path(
    origin: GridVec,
    target: GridVec,
    my_faction: Option<Faction>,
    self_entity: u64,
    npcs: &Vec<NpcInfo>,
) -> (b: bool)
    requires
        shot_fits(origin, target),
    ensures
        b == (match my_faction {
            Some(f) => !line_is_clear(shot_line(origin, target), |x: int, y: int| ally_at(npcs@, f, self_entity, x as i32, y as i32)),
            None => false,
        }),
{
    let mine = match my_faction {
        Some(f) => f,
        None => return false,
    };
    let occupied = |x: i32, y: i32| -> (r: bool)
        ensures
            r == ally_at(npcs@, mine, self_entity, x, y),
        { ally_stands_at(npcs, mine, self_entity, x, y) };
    let ghost ally = |x: int, y: int| ally_at(npcs@, mine, self_entity, x as i32, y as i32);
    proof {
        assert forall|x: i32, y: i32, r: bool| #[trigger] call_ensures(occupied, (x, y), r) implies r == ally(x as int, y as int) by {
            assert((x as int) as i32 == x && (y as int) as i32 == y);
        }
        let line = bresenham_line((origin.x as int, origin.y as int), (target.x as int, target.y as int));
        assert(answers_along(occupied, ally, line));
    }
    !line_clear_by((origin.x, origin.y), (target.x, target.y), &occupied, Ghost(ally))
}

/// Whether the shot from `origin` to `target` is unobstructed: no tile strictly between them
/// on the line lies in a sand cloud or is one that `tile_blocks` reports as blocking sight
/// (a sand-cloud floor, a prop that blocks vision, or a tile off the map).
pub fn has_clear_line_of_sight(
    origin: GridVec,
    target: GridVec,
    sand_clouds: &PointSet,
    tile_blocks: impl Fn(i32, i32) -> bool,
) -> (clear: bool)
    requires
        shot_fits(origin, target),
        is_tile_predicate(tile_blocks),
    ensures
        clear == line_is_clear(
            shot_line(origin, target),
            |x: int, y: int| sand_clouds@.contains((x, y)) || opacity(tile_blocks)(x, y),
        ),
{
    let tb = &tile_blocks;
    let blocked = |x: i32, y: i32| -> (r: bool)
        requires
            call_requires(tb, (x, y)),
        ensures
            r == (sand_clouds@.contains((x as int, y as int)) || call_ensures(tb, (x, y), true)),
        {
            if sand_clouds.contains(&(x, y)) {
                true
            } else {
                let r = tb(x, y);
                proof {
                    if !r {
                        assert(!call_ensures(tb, (x, y), true));
                    }
                }
                r
            }
        };
    let ghost op = |x: int, y: int| sand_clouds@.contains((x, y)) || opacity(tile_blocks)(x, y);
    proof {
        assert forall|x: i32, y: i32, r: bool| #[trigger] call_ensures(blocked, (x, y), r) implies r == op(x as int, y as int) by {
            assert((x as int) as i32 == x && (y as int) as i32 == y);
        }
        let line = bresenham_line((origin.x as int, origin.y as int), (target.x as int, target.y as int));
        assert(answers_along(blocked, op, line));
    }
    line_clear_by((origin.x, origin.y), (target.x, target.y), &blocked, Ghost(op))
}

} // verus!
