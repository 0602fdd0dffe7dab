//! A whole NPC turn: the bookkeeping, the choice of target and objective, and the action,
//! in the order the rules apply. Directions come from the steering functions, which the
//! caller wires to the map as the oracles below.
use crate::components::{Health, Viewshed, SPELL_STAMINA_COST};
use crate::fov::line_is_clear;
use crate::grid_vec::{is_king_step, king_step_spec, GridVec};
use crate::systems::ai::{
    ally_at, begin_circular_rotation, best_threat, best_threat_spec, collect_visible_hostiles,
    effective_awareness_range, flank_goal, flank_goal_spec, has_friendly_in_path, is_rotating,
    live_target_spec, nearest_spec, nearest_within, npc_threats, player_threat, pursuit_bonus, rotate_look_dir,
    rotated_look, seen_points, shot_line, update_look_dir, visible_hostiles_spec,
    visible_points, AiLookDir, AiMemory, AiPursuitBoost, Faction, NpcInfo, FULL_ROTATION_STEPS,
};
use crate::systems::chase::{
    chase_action, chase_action_spec, tactics_ok, ChaseAction, ChaseView, TrackedTarget,
};
use crate::systems::npc_turn::{
    choose_objective, engage_target, engagement_spec, idle_plan, idle_plan_spec,
    memory_goal_spec, noted, note_position, objective_spec, opening, opening_spec,
    remember_target, remembered, search_at_goal, track_spec, track_target, turns_since, AiState,
    AiTarget, IdlePlan, Opening, SearchStep, ITEM_INTEREST_RANGE, MAX_SEARCH_SWEEPS,
    NPC_INVENTORY_CAPACITY, PURSUIT_AWARENESS_BOOST,
};
use crate::systems::pathfinding::near_origin;
use crate::systems::tactics::{
    aiming_style_spec, analyze_inventory, maybe_reload_gun, no_tactics, reloaded, should_flee,
    should_flee_spec, tactics_of, AimingStyle,
    ExplosiveChoice, GunChoice, InventoryTactics, ItemKind,
};
use vstd::prelude::*;

verus! {

/// What an NPC's turn reads of the NPC and the world, besides its records.
#[derive(Clone, Copy, Debug, PartialEq, Eq)]
pub struct NpcTurnInput {
    pub entity: u64,
    pub pos: GridVec,
    pub faction: Option<Faction>,
    /// The range of its viewshed, if it has one.
    pub sight_range: Option<i32>,
    /// Its patrol post, if it has one.
    pub post: Option<GridVec>,
    pub health: Option<Health>,
    pub stamina: Option<i32>,
    /// Its health fraction is at most its heal threshold.
    pub wants_heal: bool,
    /// Its courage times 8, rounded.
    pub courage_modifier: i32,
    /// Its aggression is at least 0.9.
    pub reckless: bool,
    /// Its aggression is at least 0.85.
    pub bold: bool,
    /// It carries an inventory.
    pub has_inventory: bool,
    pub turn: u32,
    /// The player's identity, alive or dead.
    pub player_entity: Option<u64>,
    /// The living player.
    pub player: Option<(u64, GridVec)>,
}

/// The records that an NPC's turn reads and rewrites.
#[derive(Clone, Copy, Debug, PartialEq, Eq)]
pub struct NpcRecord {
    pub mood: AiState,
    pub memory: Option<AiMemory>,
    pub look: Option<AiLookDir>,
    pub target: Option<AiTarget>,
    pub aiming: Option<AimingStyle>,
    pub boost: Option<AiPursuitBoost>,
    /// The facing changed, so the viewshed needs recomputing.
    pub viewshed_dirty: bool,
}

/// What an NPC does with its turn.
#[derive(Clone, Copy, Debug, PartialEq, Eq)]
pub enum NpcAction {
    /// Step by this king move.
    Step(GridVec),
    /// Strike this entity.
    Attack(u64),
    /// Throw the grenade at this tile.
    ThrowGrenade(ExplosiveChoice, GridVec),
    /// Throw the molotov at this tile.
    ThrowMolotov(ExplosiveChoice, GridVec),
    /// Fire the gun toward `(dx, dy)`, the shot carrying `range` tiles.
    Shoot { gun: GunChoice, range: i32, dx: i32, dy: i32 },
    /// Loose an arrow of `attack` toward `endpoint`.
    LooseArrow { attack: i32, endpoint: GridVec },
    /// Use the inventory item in this slot.
    UseItem(usize),
    /// Pick up what lies underfoot.
    PickUp,
    /// Spend the turn otherwise (reloading, turning, or nothing).
    Pass,
}

/// A direction oracle of one tile: callable everywhere, one answer per tile, and every
/// answer a king step.
pub open spec fn oracle1<F: Fn(GridVec) -> Option<GridVec>>(f: F) -> bool {
    &&& forall|a: GridVec| call_requires(f, (a,))
    &&& forall|a: GridVec, r: Option<GridVec>| #[trigger] call_ensures(f, (a,), r) ==> (r matches Some(d) ==> is_king_step(d))
    &&& forall|a: GridVec, r: Option<GridVec>, q: Option<GridVec>|
        #[trigger] call_ensures(f, (a,), r) && #[trigger] call_ensures(f, (a,), q) ==> r == q
}

/// The answer of a one-tile oracle.
pub open spec fn ans1<F: Fn(GridVec) -> Option<GridVec>>(f: F, a: GridVec) -> Option<GridVec> {
    choose|r: Option<GridVec>| call_ensures(f, (a,), r)
}

/// A direction oracle of two tiles, whose answers are king steps.
pub open spec fn oracle2<F: Fn(GridVec, GridVec) -> Option<GridVec>>(f: F) -> bool {
    &&& forall|a: GridVec, b: GridVec| call_requires(f, (a, b))
    &&& forall|a: GridVec, b: GridVec, r: Option<GridVec>| #[trigger] call_ensures(f, (a, b), r) ==> (r matches Some(d) ==> is_king_step(d))
    &&& forall|a: GridVec, b: GridVec, r: Option<GridVec>, q: Option<GridVec>|
        #[trigger] call_ensures(f, (a, b), r) && #[trigger] call_ensures(f, (a, b), q) ==> r == q
}

/// The answer of a two-tile oracle.
pub open spec fn ans2<F: Fn(GridVec, GridVec) -> Option<GridVec>>(f: F, a: GridVec, b: GridVec) -> Option<GridVec> {
    choose|r: Option<GridVec>| call_ensures(f, (a, b), r)
}

/// A direction oracle of two tiles and a flag, whose answers are king steps.
pub open spec fn oracle3<F: Fn(GridVec, GridVec, bool) -> Option<GridVec>>(f: F) -> bool {
    &&& forall|a: GridVec, b: GridVec, c: bool| call_requires(f, (a, b, c))
    &&& forall|a: GridVec, b: GridVec, c: bool, r: Option<GridVec>| #[trigger] call_ensures(f, (a, b, c), r) ==> (r matches Some(d) ==> is_king_step(d))
    &&& forall|a: GridVec, b: GridVec, c: bool, r: Option<GridVec>, q: Option<GridVec>|
        #[trigger] call_ensures(f, (a, b, c), r) && #[trigger] call_ensures(f, (a, b, c), q) ==> r == q
}

/// The answer of a two-tile-and-flag oracle.
pub open spec fn ans3<F: Fn(GridVec, GridVec, bool) -> Option<GridVec>>(f: F, a: GridVec, b: GridVec, c: bool) -> Option<GridVec> {
    choose|r: Option<GridVec>| call_ensures(f, (a, b, c), r)
}

/// A patrol oracle: entity, turn, tile and post; its answers are king steps.
pub open spec fn oracle_patrol<F: Fn(u64, u32, GridVec, GridVec) -> Option<GridVec>>(f: F) -> bool {
    &&& forall|e: u64, t: u32, a: GridVec, b: GridVec| call_requires(f, (e, t, a, b))
    &&& forall|e: u64, t: u32, a: GridVec, b: GridVec, r: Option<GridVec>| #[trigger] call_ensures(f, (e, t, a, b), r) ==> (r matches Some(d) ==> is_king_step(d))
    &&& forall|e: u64, t: u32, a: GridVec, b: GridVec, r: Option<GridVec>, q: Option<GridVec>|
        #[trigger] call_ensures(f, (e, t, a, b), r) && #[trigger] call_ensures(f, (e, t, a, b), q) ==> r == q
}

/// The answer of a patrol oracle.
pub open spec fn ans_patrol<F: Fn(u64, u32, GridVec, GridVec) -> Option<GridVec>>(f: F, e: u64, t: u32, a: GridVec, b: GridVec) -> Option<GridVec> {
    choose|r: Option<GridVec>| call_ensures(f, (e, t, a, b), r)
}

/// A yes-or-no oracle of two tiles.
pub open spec fn oracle_line<F: Fn(GridVec, GridVec) -> bool>(f: F) -> bool {
    &&& forall|a: GridVec, b: GridVec| call_requires(f, (a, b))
    &&& forall|a: GridVec, b: GridVec| !(#[trigger] call_ensures(f, (a, b), true) && call_ensures(f, (a, b), false))
}

/// The answer of a yes-or-no oracle.
pub open spec fn ans_line<F: Fn(GridVec, GridVec) -> bool>(f: F, a: GridVec, b: GridVec) -> bool {
    call_ensures(f, (a, b), true)
}

fn ask1<F: Fn(GridVec) -> Option<GridVec>>(f: &F, a: GridVec) -> (r: Option<GridVec>)
    requires
        oracle1(*f),
    ensures
        r matches Some(d) ==> is_king_step(d),
        r == ans1(*f, a),
{
    let r = f(a);
    proof {
        let q = ans1(*f, a);
        assert(call_ensures(*f, (a,), q));
    }
    r
}

fn ask2<F: Fn(GridVec, GridVec) -> Option<GridVec>>(f: &F, a: GridVec, b: GridVec) -> (r: Option<GridVec>)
    requires
        oracle2(*f),
    ensures
        r matches Some(d) ==> is_king_step(d),
        r == ans2(*f, a, b),
{
    let r = f(a, b);
    proof {
        let q = ans2(*f, a, b);
        assert(call_ensures(*f, (a, b), q));
    }
    r
}

fn ask3<F: Fn(GridVec, GridVec, bool) -> Option<GridVec>>(f: &F, a: GridVec, b: GridVec, c: bool) -> (r: Option<GridVec>)
    requires
        oracle3(*f),
    ensures
        r matches Some(d) ==> is_king_step(d),
        r == ans3(*f, a, b, c),
{
    let r = f(a, b, c);
    proof {
        let q = ans3(*f, a, b, c);
        assert(call_ensures(*f, (a, b, c), q));
    }
    r
}

fn ask_patrol<F: Fn(u64, u32, GridVec, GridVec) -> Option<GridVec>>(f: &F, e: u64, t: u32, a: GridVec, b: GridVec) -> (r: Option<GridVec>)
    requires
        oracle_patrol(*f),
    ensures
        r matches Some(d) ==> is_king_step(d),
        r == ans_patrol(*f, e, t, a, b),
{
    let r = f(e, t, a, b);
    proof {
        let q = ans_patrol(*f, e, t, a, b);
        assert(call_ensures(*f, (e, t, a, b), q));
    }
    r
}

fn ask_line<F: Fn(GridVec, GridVec) -> bool>(f: &F, a: GridVec, b: GridVec) -> (r: bool)
    requires
        oracle_line(*f),
    ensures
        r == ans_line(*f, a, b),
{
    f(a, b)
}

/// The records with the facing turned toward `dir` (no change for a zero `dir` or without a
/// facing), and the viewshed marked when the facing changed.
pub open spec fn faced(rec: NpcRecord, dir: GridVec) -> NpcRecord {
    match rec.look {
        Some(l) => if dir.x == 0 && dir.y == 0 {
            rec
        } else {
            let k = king_step_spec(dir);
            NpcRecord {
                look: Some(AiLookDir(GridVec { x: k.0 as i32, y: k.1 as i32 }, 0)),
                viewshed_dirty: true,
                ..rec
            }
        },
        None => rec,
    }
}

fn face(rec: &mut NpcRecord, dir: GridVec)
    ensures
        *final(rec) == faced(*old(rec), dir),
{
    if let Some(l) = rec.look {
        let mut l2 = l;
        if update_look_dir(dir, &mut l2) {
            rec.look = Some(l2);
            rec.viewshed_dirty = true;
        }
    }
}

/// The records with the facing turned one step (or a full look-around begun), and the
/// viewshed marked; nothing without a facing.
pub open spec fn turned_once(rec: NpcRecord, sweep: bool) -> NpcRecord {
    match rec.look {
        Some(l) => NpcRecord {
            look: Some(if sweep { rotated_look(AiLookDir(l.0, FULL_ROTATION_STEPS)) } else { rotated_look(l) }),
            viewshed_dirty: true,
            ..rec
        },
        None => rec,
    }
}

fn turn_once(rec: &mut NpcRecord, sweep: bool)
    ensures
        *final(rec) == turned_once(*old(rec), sweep),
{
    if let Some(l) = rec.look {
        let mut l2 = l;
        if sweep {
            begin_circular_rotation(&mut l2);
        } else {
            rotate_look_dir(&mut l2);
        }
        rec.look = Some(l2);
        rec.viewshed_dirty = true;
    }
}

/// The records after the turn's bookkeeping: the memory notes the NPC's tile, and a target
/// that is the dead player is forgotten (its memory of the goal and the engagement with it).
pub open spec fn after_bookkeeping(rec: NpcRecord, inp: NpcTurnInput) -> NpcRecord {
    let m = match rec.memory {
        Some(m) => Some(noted(m, inp.pos)),
        None => None,
    };
    let dead_target = inp.player is None && inp.player_entity is Some && (rec.target matches Some(t) && Some(t.entity) == inp.player_entity);
    if dead_target {
        NpcRecord {
            memory: match m {
                Some(mm) => Some(AiMemory { last_known_pos: None, search_attempts: 0, ..mm }),
                None => None,
            },
            target: None,
            aiming: None,
            boost: None,
            ..rec
        }
    } else {
        NpcRecord { memory: m, ..rec }
    }
}

/// The awareness range: twice the sight range (8 without a viewshed) plus what is left of the
/// pursuit bonus the NPC had at the start of its turn.
pub open spec fn awareness_spec(inp: NpcTurnInput, boost: Option<AiPursuitBoost>) -> int {
    2 * (match inp.sight_range {
        Some(r) => r as int,
        None => 8,
    }) + match boost {
        Some(b) => pursuit_bonus(b, inp.turn),
        None => 0,
    }
}

/// The goal the NPC's memory still holds.
pub open spec fn remembered_goal(rec: NpcRecord, turn: u32) -> Option<GridVec> {
    match rec.memory {
        Some(m) => memory_goal_spec(Some(&m), turn),
        None => None,
    }
}

/// The target the NPC pursues this turn.
pub open spec fn target_spec(
    inp: NpcTurnInput,
    start: NpcRecord,
    viewshed: Option<&Viewshed>,
    npcs: Seq<NpcInfo>,
) -> Option<TrackedTarget> {
    let current = start.target;
    let best = best_threat_spec(visible_hostiles_spec(
        inp.entity,
        inp.pos,
        inp.faction,
        match current {
            Some(c) => Some(c.entity),
            None => None,
        },
        viewshed,
        inp.player,
        npcs,
    ));
    track_spec(
        best,
        current,
        current matches Some(c) && live_target_spec(c.entity, inp.player_entity, inp.player, npcs) is Some,
        inp.pos,
        inp.turn,
        awareness_spec(inp, start.boost),
    )
}

/// The records after the NPC picks its target and objective: a dropped target is let go; an
/// objective from an alert is remembered; a pursued target is engaged (aiming style, record,
/// memory and, when seen, a pursuit bonus); with only an objective the engagement ends but
/// the aiming style stays; with neither, all of it ends.
pub open spec fn after_targeting(
    inp: NpcTurnInput,
    start: NpcRecord,
    rec: NpcRecord,
    target: Option<TrackedTarget>,
    objective: (Option<GridVec>, bool),
) -> NpcRecord {
    let current = start.target;
    let dropped = target is None && current is Some;
    let r1 = if dropped { NpcRecord { target: None, boost: None, ..rec } } else { rec };
    let r2 = if objective.1 {
        NpcRecord {
            memory: match r1.memory {
                Some(m) => Some(AiMemory { last_known_pos: objective.0, last_seen_turn: inp.turn, search_attempts: 0, ..m }),
                None => None,
            },
            ..r1
        }
    } else {
        r1
    };
    match target {
        Some(t) => {
            let changed = (match current {
                Some(c) => Some(c.entity),
                None => None,
            }) != Some(t.entity);
            let style = match start.aiming {
                Some(a) if !changed => a,
                _ => aiming_style_spec(inp.entity, inp.turn, inp.reckless),
            };
            NpcRecord {
                aiming: Some(style),
                target: Some(engagement_spec(t, current, inp.turn)),
                memory: match r2.memory {
                    Some(m) => Some(remembered(m, t, inp.turn)),
                    None => None,
                },
                boost: if t.visible {
                    Some(AiPursuitBoost { extra_range: PURSUIT_AWARENESS_BOOST, last_spotted_turn: inp.turn })
                } else {
                    r2.boost
                },
                ..r2
            }
        },
        None => if objective.0 is Some {
            NpcRecord { target: None, boost: None, ..r2 }
        } else {
            NpcRecord { target: None, aiming: None, boost: None, ..r2 }
        },
    }
}

/// The chase view the NPC acts on.
pub open spec fn chase_view_spec<FL: Fn(GridVec, GridVec) -> bool>(
    inp: NpcTurnInput,
    current: Option<AiTarget>,
    rec: NpcRecord,
    t: TrackedTarget,
    npcs: Seq<NpcInfo>,
    line_of_fire: FL,
) -> ChaseView {
    ChaseView {
        entity: inp.entity,
        my_pos: inp.pos,
        my_faction: inp.faction,
        target: t,
        has_los: ans_line(line_of_fire, inp.pos, t.pos),
        friendly_blocked: match inp.faction {
            Some(f) => !line_is_clear(shot_line(inp.pos, t.pos), |x: int, y: int| ally_at(npcs, f, inp.entity, x as i32, y as i32)),
            None => false,
        },
        stamina_ok: inp.stamina matches Some(s) && s >= SPELL_STAMINA_COST,
        style: rec.aiming,
        bold: inp.bold,
        recent_lock: current matches Some(c) && c.entity == t.entity && c.locked && turns_since(inp.turn, c.last_seen) <= 1,
        stationary_turns: match rec.memory {
            Some(m) => Some(m.stationary_turns),
            None => None,
        },
        player: inp.player,
    }
}

/// The records with the target locked after an attack on it this turn.
pub open spec fn locked(rec: NpcRecord, t: TrackedTarget, turn: u32) -> NpcRecord {
    NpcRecord { target: Some(AiTarget { entity: t.entity, last_pos: t.pos, last_seen: turn, locked: true }), ..rec }
}

/// Stepping toward a goal: the step the approach oracle gives (facing it), or nothing.
pub open spec fn approach_spec<FA: Fn(GridVec, GridVec, bool) -> Option<GridVec>>(
    rec: NpcRecord,
    fa: FA,
    from: GridVec,
    goal: GridVec,
    chase: bool,
) -> (NpcAction, NpcRecord) {
    match ans3(fa, from, goal, chase) {
        Some(d) => (NpcAction::Step(d), faced(rec, d)),
        None => (NpcAction::Pass, rec),
    }
}

/// What a chasing NPC does to its target: the chase rules, with the retreat, the advance
/// (toward the target or a flanking tile) and the reload carried out.
pub open spec fn chase_spec<FA: Fn(GridVec, GridVec, bool) -> Option<GridVec>, FR: Fn(GridVec, GridVec, bool) -> Option<GridVec>>(
    inp: NpcTurnInput,
    rec: NpcRecord,
    slots: Seq<Option<ItemKind>>,
    t: TrackedTarget,
    action: ChaseAction,
    fa: FA,
    fr: FR,
) -> (NpcAction, NpcRecord, Seq<Option<ItemKind>>) {
    let dx = (t.pos.x - inp.pos.x) as i32;
    let dy = (t.pos.y - inp.pos.y) as i32;
    let advance = |flank: bool| {
        let g = flank_goal_spec(inp.entity, inp.turn, inp.pos, t.pos);
        let goal = if flank { GridVec { x: g.0 as i32, y: g.1 as i32 } } else { t.pos };
        approach_spec(rec, fa, inp.pos, goal, true)
    };
    match action {
        ChaseAction::Melee => (NpcAction::Attack(t.entity), locked(rec, t, inp.turn), slots),
        ChaseAction::ThrowGrenade(e) => (NpcAction::ThrowGrenade(e, t.pos), locked(rec, t, inp.turn), slots),
        ChaseAction::ThrowMolotov(e) => (NpcAction::ThrowMolotov(e, t.pos), locked(rec, t, inp.turn), slots),
        ChaseAction::Shoot { gun, range } => (NpcAction::Shoot { gun, range, dx, dy }, locked(rec, t, inp.turn), slots),
        ChaseAction::LooseArrow { attack, endpoint } => (NpcAction::LooseArrow { attack, endpoint }, locked(rec, t, inp.turn), slots),
        ChaseAction::Reload(g) => (NpcAction::Pass, rec, reloaded(slots, Some(g))->0),
        ChaseAction::Retreat { flank_after } => match ans3(fr, inp.pos, t.pos, t.visible) {
            Some(d) => (NpcAction::Step(d), faced(rec, d), slots),
            None => {
                let r = advance(flank_after);
                (r.0, r.1, slots)
            },
        },
        ChaseAction::Advance { flank } => {
            let r = advance(flank);
            (r.0, r.1, slots)
        },
    }
}

/// What a chasing NPC without a target does about its objective: at the goal it searches
/// (finishing a look-around, sweeping again, or giving up and going back to patrol); away
/// from it, it steps toward it.
pub open spec fn seek_spec<FA: Fn(GridVec, GridVec, bool) -> Option<GridVec>>(
    inp: NpcTurnInput,
    rec: NpcRecord,
    goal: GridVec,
    fa: FA,
) -> (NpcAction, NpcRecord) {
    if inp.pos == goal {
        let rotating = rec.look matches Some(l) && l.1 > 0;
        if rotating {
            (NpcAction::Pass, turned_once(rec, false))
        } else {
            match rec.memory {
                Some(m) => if m.search_attempts < MAX_SEARCH_SWEEPS {
                    (NpcAction::Pass, turned_once(NpcRecord { memory: Some(AiMemory { search_attempts: (m.search_attempts + 1) as u8, ..m }), ..rec }, true))
                } else {
                    (NpcAction::Pass, NpcRecord {
                        memory: Some(AiMemory { last_known_pos: None, search_attempts: 0, ..m }),
                        target: None,
                        aiming: None,
                        boost: None,
                        mood: AiState::Patrolling,
                        ..rec
                    })
                },
                None => (NpcAction::Pass, NpcRecord { target: None, aiming: None, boost: None, mood: AiState::Patrolling, ..rec }),
            }
        }
    } else {
        approach_spec(rec, fa, inp.pos, goal, false)
    }
}

/// What an idle NPC does.
pub open spec fn idle_spec<FA: Fn(GridVec, GridVec, bool) -> Option<GridVec>, FP: Fn(u64, u32, GridVec, GridVec) -> Option<GridVec>>(
    inp: NpcTurnInput,
    rec: NpcRecord,
    slots: Seq<Option<ItemKind>>,
    tactics: InventoryTactics,
    objective: Option<GridVec>,
    has_room: bool,
    viewshed: Option<&Viewshed>,
    items: Seq<GridVec>,
    fa: FA,
    fp: FP,
) -> (NpcAction, NpcRecord, Seq<Option<ItemKind>>) {
    let item = nearest_spec(inp.pos, seen_points(viewshed, items), ITEM_INTEREST_RANGE as int);
    let plan = idle_plan_spec(
        objective is Some,
        tactics.reloadable_gun is Some,
        has_room,
        item,
        inp.pos,
        rec.look matches Some(l) && l.1 > 0,
        inp.turn,
        inp.entity,
        inp.post,
    );
    match plan {
        IdlePlan::Reload => (NpcAction::Pass, rec, reloaded(slots, tactics.reloadable_gun)->0),
        IdlePlan::PickUp => (NpcAction::PickUp, rec, slots),
        IdlePlan::FetchItem(at) => {
            let r = approach_spec(rec, fa, inp.pos, at, false);
            (r.0, r.1, slots)
        },
        IdlePlan::LookAround => (NpcAction::Pass, turned_once(rec, false), slots),
        IdlePlan::Patrol(post) => match ans_patrol(fp, inp.entity, inp.turn, inp.pos, post) {
            Some(d) => (NpcAction::Step(d), faced(rec, d), slots),
            None => (NpcAction::Pass, rec, slots),
        },
        IdlePlan::Rest => (NpcAction::Pass, rec, slots),
    }
}

/// A whole turn of an NPC: bookkeeping; target and objective; then, in order: escaping fire,
/// drinking, picking up, and the rules of its state (fleeing from its objective, chasing its
/// target or objective, or idling).
pub open spec fn npc_turn_spec<
    FE: Fn(GridVec) -> Option<GridVec>,
    FF: Fn(GridVec, GridVec) -> Option<GridVec>,
    FA: Fn(GridVec, GridVec, bool) -> Option<GridVec>,
    FR: Fn(GridVec, GridVec, bool) -> Option<GridVec>,
    FP: Fn(u64, u32, GridVec, GridVec) -> Option<GridVec>,
    FL: Fn(GridVec, GridVec) -> bool,
>(
    inp: NpcTurnInput,
    start: NpcRecord,
    slots: Seq<Option<ItemKind>>,
    viewshed: Option<&Viewshed>,
    npcs: Seq<NpcInfo>,
    alerts: Seq<GridVec>,
    items: Seq<GridVec>,
    fe: FE,
    ff: FF,
    fa: FA,
    fr: FR,
    fp: FP,
    fl: FL,
) -> (NpcAction, NpcRecord, Seq<Option<ItemKind>>) {
    let tactics = if inp.has_inventory { tactics_of(slots) } else { no_tactics() };
    let r0 = after_bookkeeping(start, inp);
    let target = target_spec(inp, start, viewshed, npcs);
    let objective = objective_spec(target, remembered_goal(r0, inp.turn), inp.pos, alerts);
    let r1 = after_targeting(inp, start, r0, target, objective);
    let has_room = inp.has_inventory && slots.len() < NPC_INVENTORY_CAPACITY;
    let retreat_now = should_flee_spec(inp.health, tactics.heal is Some, inp.courage_modifier as int);
    let open = opening_spec(
        ans1(fe, inp.pos),
        tactics.heal,
        inp.wants_heal && inp.health is Some,
        retreat_now,
        objective.0 is Some,
        has_room,
        items.contains(inp.pos),
    );
    let idle = |r: NpcRecord| idle_spec(inp, r, slots, tactics, objective.0, has_room, viewshed, items, fa, fp);
    match open {
        Opening::EscapeFire(d) => (NpcAction::Step(d), faced(r1, d), slots),
        Opening::Heal(i) => (NpcAction::UseItem(i), r1, slots),
        Opening::PickUp(s) => (NpcAction::PickUp, NpcRecord { mood: s, ..r1 }, slots),
        Opening::Proceed(s) => {
            let r2 = NpcRecord { mood: s, ..r1 };
            if s == AiState::Fleeing {
                match ans2(ff, inp.pos, objective.0->0) {
                    Some(d) => (NpcAction::Step(d), faced(r2, d), slots),
                    None => idle(NpcRecord { mood: AiState::Patrolling, ..r2 }),
                }
            } else if s == AiState::Chasing {
                match target {
                    Some(t) => {
                        let to = GridVec { x: (t.pos.x - inp.pos.x) as i32, y: (t.pos.y - inp.pos.y) as i32 };
                        let k = king_step_spec(to);
                        let r3 = faced(r2, GridVec { x: k.0 as i32, y: k.1 as i32 });
                        let view = chase_view_spec(inp, start.target, r3, t, npcs, fl);
                        chase_spec(inp, r3, slots, t, chase_action_spec(view, npcs, tactics), fa, fr)
                    },
                    None => {
                        let r = seek_spec(inp, r2, objective.0->0, fa);
                        (r.0, r.1, slots)
                    },
                }
            } else {
                idle(r2)
            }
        },
    }
}

/// The places the turn reads are close to the origin, and the records hold values the rules
/// can compute with.
pub open spec fn places_ok(inp: NpcTurnInput, rec: NpcRecord, npcs: Seq<NpcInfo>, alerts: Seq<GridVec>) -> bool {
    &&& near_origin(inp.pos)
    &&& (inp.post matches Some(p) ==> near_origin(p))
    &&& (inp.player matches Some(p) ==> near_origin(p.1))
    &&& (rec.target matches Some(t) ==> near_origin(t.last_pos))
    &&& (rec.memory matches Some(m) ==> (m.last_known_pos matches Some(p) ==> near_origin(p)))
    &&& (rec.boost matches Some(b) ==> 0 <= b.extra_range <= 1000)
    &&& (inp.sight_range matches Some(r) ==> -0x2000_0000 <= r <= 0x2000_0000)
    &&& forall|i: int| 0 <= i < npcs.len() ==> near_origin(#[trigger] npcs[i].pos)
    &&& forall|i: int| 0 <= i < alerts.len() ==> near_origin(#[trigger] alerts[i])
    &&& npcs.len() < usize::MAX
}

/// Everything the turn reads is close to the origin, and the records and inventory hold
/// values the rules can compute with.
pub open spec fn turn_ok(
    inp: NpcTurnInput,
    rec: NpcRecord,
    slots: Seq<Option<ItemKind>>,
    npcs: Seq<NpcInfo>,
    alerts: Seq<GridVec>,
    items: Seq<GridVec>,
) -> bool {
    &&& places_ok(inp, rec, npcs, alerts)
    &&& forall|i: int| 0 <= i < items.len() ==> near_origin(#[trigger] items[i])
    &&& forall|i: int| 0 <= i < slots.len() ==> explosive_ok(#[trigger] slots[i])
}

/// An explosive's radius is small enough for the blast arithmetic.
pub open spec fn explosive_ok(item: Option<ItemKind>) -> bool {
    match item {
        Some(ItemKind::Grenade { radius, .. }) => radius < 0x1000_0000,
        Some(ItemKind::Molotov { radius, .. }) => radius < 0x1000_0000,
        _ => true,
    }
}

/// The tactics an inventory of small explosives offers keep small values.
proof fn lemma_tactics_ok(slots: Seq<Option<ItemKind>>)
    requires
        forall|i: int| 0 <= i < slots.len() ==> explosive_ok(#[trigger] slots[i]),
    ensures
        tactics_ok(tactics_of(slots)),
    decreases slots.len(),
{
    if slots.len() > 0 {
        lemma_tactics_ok(slots.drop_last());
        assert(explosive_ok(slots[slots.len() - 1]));
    }
}

/// The gun the tactics find with room for a round is a gun in its slot with that room.
proof fn lemma_reloadable(slots: Seq<Option<ItemKind>>)
    requires
        slots.len() <= usize::MAX,
    ensures
        tactics_of(slots).reloadable_gun matches Some(g) ==> reloaded(slots, Some(g)) is Some,
    decreases slots.len(),
{
    if slots.len() > 0 {
        let prefix = slots.drop_last();
        lemma_reloadable(prefix);
        let t = tactics_of(prefix);
        if let Some(g) = t.reloadable_gun {
            assert(reloaded(prefix, Some(g)) is Some);
            assert(g.index < prefix.len());
            assert(slots[g.index as int] == prefix[g.index as int]);
        }
    }
}

/// The hostiles an NPC notices stand where the listed NPCs stand.
proof fn lemma_npc_threats_near(
    npcs: Seq<NpcInfo>,
    entity: u64,
    my_pos: GridVec,
    mine: Faction,
    current: Option<u64>,
    viewshed: Option<&Viewshed>,
)
    requires
        forall|i: int| 0 <= i < npcs.len() ==> near_origin(#[trigger] npcs[i].pos),
    ensures
        forall|j: int| 0 <= j < npc_threats(npcs, entity, my_pos, mine, current, viewshed).len()
            ==> near_origin(#[trigger] npc_threats(npcs, entity, my_pos, mine, current, viewshed)[j].pos),
    decreases npcs.len(),
{
    if npcs.len() > 0 {
        let prefix = npcs.drop_last();
        assert forall|i: int| 0 <= i < prefix.len() implies near_origin(#[trigger] prefix[i].pos) by {
            assert(prefix[i] == npcs[i]);
        }
        lemma_npc_threats_near(prefix, entity, my_pos, mine, current, viewshed);
        let rest = npc_threats(prefix, entity, my_pos, mine, current, viewshed);
        let full = npc_threats(npcs, entity, my_pos, mine, current, viewshed);
        assert(near_origin(npcs[npcs.len() - 1].pos));
        assert forall|j: int| 0 <= j < full.len() implies near_origin(#[trigger] full[j].pos) by {
            if j < rest.len() {
                assert(full[j] == rest[j]);
            } else {
                assert(full[j].pos == npcs.last().pos);
            }
        }
    }
}

/// The points a viewshed sees among points close to the origin are close to it.
proof fn lemma_seen_near(viewshed: Option<&Viewshed>, points: Seq<GridVec>)
    requires
        forall|i: int| 0 <= i < points.len() ==> near_origin(#[trigger] points[i]),
    ensures
        forall|j: int| 0 <= j < seen_points(viewshed, points).len() ==> near_origin(#[trigger] seen_points(viewshed, points)[j]),
    decreases points.len(),
{
    reveal(Seq::filter);
    if points.len() > 0 {
        let prefix = points.drop_last();
        assert forall|i: int| 0 <= i < prefix.len() implies near_origin(#[trigger] prefix[i]) by {
            assert(prefix[i] == points[i]);
        }
        lemma_seen_near(viewshed, prefix);
        let rest = seen_points(viewshed, prefix);
        let full = seen_points(viewshed, points);
        assert(near_origin(points[points.len() - 1]));
        assert forall|j: int| 0 <= j < full.len() implies near_origin(#[trigger] full[j]) by {
            if j < rest.len() {
                assert(full[j] == rest[j]);
            } else {
                assert(full[j] == points.last());
            }
        }
    }
}

/// The turn's bookkeeping: notes the NPC's tile and forgets a dead player.
fn bookkeep(inp: &NpcTurnInput, rec: &mut NpcRecord)
    ensures
        *final(rec) == after_bookkeeping(*old(rec), *inp),
{
    let current = rec.target;
    if let Some(m) = rec.memory {
        let mut m2 = m;
        note_position(&mut m2, inp.pos);
        rec.memory = Some(m2);
    }
    let dead_target = match current {
        Some(t) => inp.player.is_none() && inp.player_entity.is_some() && Some(t.entity) == inp.player_entity,
        None => false,
    };
    if dead_target {
        if let Some(m) = rec.memory {
            rec.memory = Some(AiMemory { last_known_pos: None, search_attempts: 0, ..m });
        }
        rec.target = None;
        rec.aiming = None;
        rec.boost = None;
    }
}

/// The target the NPC pursues, by its records at the start of the turn.
fn pick_target(
    inp: &NpcTurnInput,
    start: &NpcRecord,
    viewshed: Option<&Viewshed>,
    npcs: &Vec<NpcInfo>,
) -> (target: Option<TrackedTarget>)
    requires
        places_ok(*inp, *start, npcs@, seq![]),
    ensures
        target == target_spec(*inp, *start, viewshed, npcs@),
        target matches Some(t) ==> near_origin(t.pos),
{
    let current = start.target;
    let pos = inp.pos;
    let current_entity = match current {
        Some(c) => Some(c.entity),
        None => None,
    };
    let hostiles = collect_visible_hostiles(inp.entity, pos, inp.faction, current_entity, viewshed, inp.player, npcs);
    let best = best_threat(&hostiles);
    proof {
        if let Some(f) = inp.faction {
            lemma_npc_threats_near(npcs@, inp.entity, pos, f, current_entity, viewshed);
        }
        let pt = player_threat(pos, current_entity, viewshed, inp.player);
        let nt = match inp.faction {
            Some(f) => npc_threats(npcs@, inp.entity, pos, f, current_entity, viewshed),
            None => Seq::<crate::systems::ai::Threat>::empty(),
        };
        assert(hostiles@ == pt + nt);
        if let Some(b) = best {
            let i = choose|i: int| 0 <= i < hostiles@.len() && hostiles@[i] == b;
            if i < pt.len() {
                assert(hostiles@[i] == pt[i]);
            } else {
                assert(hostiles@[i] == nt[i - pt.len()]);
            }
        }
    }
    let range: i32 = match inp.sight_range {
        Some(r) => r,
        None => 8,
    };
    let awareness = effective_awareness_range(range * 2, start.boost.as_ref(), inp.turn);
    let (target, _dropped) = track_target(best, current, pos, inp.turn, awareness, inp.player_entity, inp.player, npcs);
    target
}

/// Records what follows from the target and objective picked: a dropped target is let go,
/// an objective from an alert remembered, and the target engaged.
fn record_targeting(
    inp: &NpcTurnInput,
    start: &NpcRecord,
    rec: &mut NpcRecord,
    target: Option<TrackedTarget>,
    objective: (Option<GridVec>, bool),
)
    ensures
        *final(rec) == after_targeting(*inp, *start, *old(rec), target, objective),
{
    let current = start.target;
    let current_entity = match current {
        Some(c) => Some(c.entity),
        None => None,
    };
    if target.is_none() && current.is_some() {
        rec.target = None;
        rec.boost = None;
    }
    if objective.1 {
        if let Some(m) = rec.memory {
            rec.memory = Some(AiMemory { last_known_pos: objective.0, last_seen_turn: inp.turn, search_attempts: 0, ..m });
        }
    }
    match target {
        Some(t) => {
            let changed = current_entity != Some(t.entity);
            let style = crate::systems::tactics::ensure_aiming_style(inp.entity, start.aiming, inp.turn, inp.reckless, changed);
            rec.aiming = Some(style);
            let (record, new_boost) = engage_target(t, current, inp.turn);
            rec.target = Some(record);
            if let Some(m) = rec.memory {
                let mut m2 = m;
                remember_target(&mut m2, t, inp.turn);
                rec.memory = Some(m2);
            }
            if new_boost.is_some() {
                rec.boost = new_boost;
            }
        },
        None => {
            rec.target = None;
            rec.boost = None;
            if objective.0.is_none() {
                rec.aiming = None;
            }
        },
    }
}

/// Bookkeeping and targeting: notes the NPC's tile, forgets a dead player, picks the target
/// and the objective, and records what follows from them.
fn plan_targets(
    inp: &NpcTurnInput,
    rec: &mut NpcRecord,
    viewshed: Option<&Viewshed>,
    npcs: &Vec<NpcInfo>,
    alerts: &Vec<GridVec>,
) -> (r: (Option<TrackedTarget>, (Option<GridVec>, bool)))
    requires
        places_ok(*inp, *old(rec), npcs@, alerts@),
    ensures
        r.0 == target_spec(*inp, *old(rec), viewshed, npcs@),
        r.1 == objective_spec(r.0, remembered_goal(after_bookkeeping(*old(rec), *inp), inp.turn), inp.pos, alerts@),
        *final(rec) == after_targeting(*inp, *old(rec), after_bookkeeping(*old(rec), *inp), r.0, r.1),
        r.0 matches Some(t) ==> near_origin(t.pos),
        r.1.0 matches Some(g) ==> near_origin(g),
{
    let start = *rec;
    bookkeep(inp, rec);
    let target = pick_target(inp, &start, viewshed, npcs);
    let memory = rec.memory;
    let objective = choose_objective(target, memory.as_ref(), inp.turn, inp.pos, alerts);
    record_targeting(inp, &start, rec, target, objective);
    (target, objective)
}

/// Steps toward `goal` by the approach oracle, facing the step.
fn step_toward<FA: Fn(GridVec, GridVec, bool) -> Option<GridVec>>(
    rec: &mut NpcRecord,
    approach: &FA,
    from: GridVec,
    goal: GridVec,
    chase: bool,
) -> (action: NpcAction)
    requires
        oracle3(*approach),
    ensures
        action matches NpcAction::Step(d) ==> is_king_step(d),
        (action, *final(rec)) == approach_spec(*old(rec), *approach, from, goal, chase),
{
    match ask3(approach, from, goal, chase) {
        Some(d) => {
            face(rec, d);
            NpcAction::Step(d)
        },
        None => NpcAction::Pass,
    }
}

/// The turn of an NPC chasing target `t`, once it faces it.
fn chase_turn<
    FA: Fn(GridVec, GridVec, bool) -> Option<GridVec>,
    FR: Fn(GridVec, GridVec, bool) -> Option<GridVec>,
    FL: Fn(GridVec, GridVec) -> bool,
>(
    inp: &NpcTurnInput,
    current: Option<AiTarget>,
    rec: &mut NpcRecord,
    slots: &mut Vec<Option<ItemKind>>,
    t: TrackedTarget,
    npcs: &Vec<NpcInfo>,
    tactics: &InventoryTactics,
    approach: &FA,
    retreat: &FR,
    line_of_fire: &FL,
) -> (action: NpcAction)
    requires
        near_origin(inp.pos),
        near_origin(t.pos),
        inp.player matches Some(p) ==> near_origin(p.1),
        forall|i: int| 0 <= i < npcs@.len() ==> near_origin(#[trigger] npcs@[i].pos),
        npcs@.len() < usize::MAX,
        tactics_ok(*tactics),
        tactics.reloadable_gun matches Some(g) ==> reloaded(old(slots)@, Some(g)) is Some,
        oracle3(*approach),
        oracle3(*retreat),
        oracle_line(*line_of_fire),
    ensures
        action matches NpcAction::Step(d) ==> is_king_step(d),
        (action, *final(rec), final(slots)@) == chase_spec(
            *inp,
            *old(rec),
            old(slots)@,
            t,
            chase_action_spec(chase_view_spec(*inp, current, *old(rec), t, npcs@, *line_of_fire), npcs@, *tactics),
            *approach,
            *retreat,
        ),
{
    let pos = inp.pos;
    let to = t.pos.minus(pos);
    let has_los = ask_line(line_of_fire, pos, t.pos);
    let friendly_blocked = has_friendly_in_path(pos, t.pos, inp.faction, inp.entity, npcs);
    let stamina_ok = match inp.stamina {
        Some(s) => s >= SPELL_STAMINA_COST,
        None => false,
    };
    let recent_lock = match current {
        Some(c) => c.entity == t.entity && c.locked && inp.turn.saturating_sub(c.last_seen) <= 1,
        None => false,
    };
    let view = ChaseView {
        entity: inp.entity,
        my_pos: pos,
        my_faction: inp.faction,
        target: t,
        has_los,
        friendly_blocked,
        stamina_ok,
        style: rec.aiming,
        bold: inp.bold,
        recent_lock,
        stationary_turns: match rec.memory {
            Some(m) => Some(m.stationary_turns),
            None => None,
        },
        player: inp.player,
    };
    assert(view == chase_view_spec(*inp, current, *rec, t, npcs@, *line_of_fire));
    let lock = AiTarget { entity: t.entity, last_pos: t.pos, last_seen: inp.turn, locked: true };
    let flank = match chase_action(&view, npcs, tactics) {
        ChaseAction::Melee => {
            rec.target = Some(lock);
            return NpcAction::Attack(t.entity);
        },
        ChaseAction::ThrowGrenade(e) => {
            rec.target = Some(lock);
            return NpcAction::ThrowGrenade(e, t.pos);
        },
        ChaseAction::ThrowMolotov(e) => {
            rec.target = Some(lock);
            return NpcAction::ThrowMolotov(e, t.pos);
        },
        ChaseAction::Shoot { gun, range } => {
            rec.target = Some(lock);
            return NpcAction::Shoot { gun, range, dx: to.x, dy: to.y };
        },
        ChaseAction::LooseArrow { attack, endpoint } => {
            rec.target = Some(lock);
            return NpcAction::LooseArrow { attack, endpoint };
        },
        ChaseAction::Reload(g) => {
            let _ = maybe_reload_gun(Some(g), slots);
            return NpcAction::Pass;
        },
        ChaseAction::Retreat { flank_after } => {
            match ask3(retreat, pos, t.pos, t.visible) {
                Some(d) => {
                    face(rec, d);
                    return NpcAction::Step(d);
                },
                None => flank_after,
            }
        },
        ChaseAction::Advance { flank } => flank,
    };
    let goal = if flank {
        flank_goal(inp.entity, inp.turn, pos, t.pos)
    } else {
        t.pos
    };
    step_toward(rec, approach, pos, goal, true)
}

/// The turn of an NPC chasing an objective without a target.
fn seek_turn<FA: Fn(GridVec, GridVec, bool) -> Option<GridVec>>(
    inp: &NpcTurnInput,
    rec: &mut NpcRecord,
    goal: GridVec,
    approach: &FA,
) -> (action: NpcAction)
    requires
        oracle3(*approach),
    ensures
        action matches NpcAction::Step(d) ==> is_king_step(d),
        (action, *final(rec)) == seek_spec(*inp, *old(rec), goal, *approach),
{
    if inp.pos == goal {
        let rotating = is_rotating(rec.look.as_ref());
        if rotating {
            turn_once(rec, false);
            return NpcAction::Pass;
        }
        match rec.memory {
            Some(m) => {
                let mut m2 = m;
                let step = search_at_goal(false, &mut m2);
                rec.memory = Some(m2);
                if step == SearchStep::Sweep {
                    turn_once(rec, true);
                    return NpcAction::Pass;
                }
            },
            None => {},
        }
        rec.target = None;
        rec.aiming = None;
        rec.boost = None;
        rec.mood = AiState::Patrolling;
        return NpcAction::Pass;
    }
    step_toward(rec, approach, inp.pos, goal, false)
}

/// The turn of an idle NPC.
fn idle_turn<FA: Fn(GridVec, GridVec, bool) -> Option<GridVec>, FP: Fn(u64, u32, GridVec, GridVec) -> Option<GridVec>>(
    inp: &NpcTurnInput,
    rec: &mut NpcRecord,
    slots: &mut Vec<Option<ItemKind>>,
    tactics: &InventoryTactics,
    objective: Option<GridVec>,
    has_room: bool,
    viewshed: Option<&Viewshed>,
    items: &Vec<GridVec>,
    approach: &FA,
    patrol: &FP,
) -> (action: NpcAction)
    requires
        near_origin(inp.pos),
        forall|i: int| 0 <= i < items@.len() ==> near_origin(#[trigger] items@[i]),
        tactics.reloadable_gun matches Some(g) ==> reloaded(old(slots)@, Some(g)) is Some,
        oracle3(*approach),
        oracle_patrol(*patrol),
    ensures
        action matches NpcAction::Step(d) ==> is_king_step(d),
        (action, *final(rec), final(slots)@) == idle_spec(
            *inp,
            *old(rec),
            old(slots)@,
            *tactics,
            objective,
            has_room,
            viewshed,
            items@,
            *approach,
            *patrol,
        ),
{
    let pos = inp.pos;
    let seen = visible_points(viewshed, items);
    proof {
        lemma_seen_near(viewshed, items@);
    }
    let item = nearest_within(pos, &seen, ITEM_INTEREST_RANGE);
    let rotating = is_rotating(rec.look.as_ref());
    match idle_plan(objective.is_some(), tactics.reloadable_gun.is_some(), has_room, item, pos, rotating, inp.turn, inp.entity, inp.post) {
        IdlePlan::Reload => {
            let _ = maybe_reload_gun(tactics.reloadable_gun, slots);
            NpcAction::Pass
        },
        IdlePlan::PickUp => NpcAction::PickUp,
        IdlePlan::FetchItem(at) => step_toward(rec, approach, pos, at, false),
        IdlePlan::LookAround => {
            turn_once(rec, false);
            NpcAction::Pass
        },
        IdlePlan::Patrol(post) => match ask_patrol(patrol, inp.entity, inp.turn, pos, post) {
            Some(d) => {
                face(rec, d);
                NpcAction::Step(d)
            },
            None => NpcAction::Pass,
        },
        IdlePlan::Rest => NpcAction::Pass,
    }
}

/// Whether an item lies on tile `pos`.
fn item_at(items: &Vec<GridVec>, pos: GridVec) -> (found: bool)
    ensures
        found == items@.contains(pos),
{
    let mut i: usize = 0;
    while i < items.len()
        invariant
            i <= items@.len(),
            forall|j: int| 0 <= j < i ==> items@[j] != pos,
        decreases items@.len() - i,
    {
        if items[i] == pos {
            assert(items@[i as int] == pos);
            return true;
        }
        i += 1;
    }
    false
}

/// Plays one turn of an NPC: updates its records (and, when it reloads, its inventory) and
/// returns its action. The oracles answer, for the NPC's map: `fire_escape`, the step out of
/// fire around a tile; `flee`, the step away from a threat; `approach`, the first step toward
/// a goal (by the pursuit costs when the flag is set); `retreat`, the step back from a threat
/// (keeping it in sight when the flag is set); `patrol`, the patrol step; `line_of_fire`,
/// whether a shot between two tiles is unobstructed.
pub fn npc_turn<
    FE: Fn(GridVec) -> Option<GridVec>,
    FF: Fn(GridVec, GridVec) -> Option<GridVec>,
    FA: Fn(GridVec, GridVec, bool) -> Option<GridVec>,
    FR: Fn(GridVec, GridVec, bool) -> Option<GridVec>,
    FP: Fn(u64, u32, GridVec, GridVec) -> Option<GridVec>,
    FL: Fn(GridVec, GridVec) -> bool,
>(
    inp: &NpcTurnInput,
    rec: &mut NpcRecord,
    slots: &mut Vec<Option<ItemKind>>,
    viewshed: Option<&Viewshed>,
    npcs: &Vec<NpcInfo>,
    alerts: &Vec<GridVec>,
    items: &Vec<GridVec>,
    fire_escape: &FE,
    flee: &FF,
    approach: &FA,
    retreat: &FR,
    patrol: &FP,
    line_of_fire: &FL,
) -> (action: NpcAction)
    requires
        turn_ok(*inp, *old(rec), old(slots)@, npcs@, alerts@, items@),
        oracle1(*fire_escape),
        oracle2(*flee),
        oracle3(*approach),
        oracle3(*retreat),
        oracle_patrol(*patrol),
        oracle_line(*line_of_fire),
    ensures
        action matches NpcAction::Step(d) ==> is_king_step(d),
        (action, *final(rec), final(slots)@) == npc_turn_spec(
            *inp,
            *old(rec),
            old(slots)@,
            viewshed,
            npcs@,
            alerts@,
            items@,
            *fire_escape,
            *flee,
            *approach,
            *retreat,
            *patrol,
            *line_of_fire,
        ),
{
    let ghost start = *rec;
    let current = rec.target;
    let pos = inp.pos;
    let _n = slots.len();
    proof {
        lemma_tactics_ok(slots@);
        lemma_reloadable(slots@);
    }
    let tactics = if inp.has_inventory {
        analyze_inventory(Some(&*slots))
    } else {
        analyze_inventory(None)
    };
    let (target, (objective, _from_alert)) = plan_targets(inp, rec, viewshed, npcs, alerts);
    let has_room = inp.has_inventory && slots.len() < NPC_INVENTORY_CAPACITY;
    let retreat_now = should_flee(inp.health.as_ref(), tactics.heal.is_some(), inp.courage_modifier);
    let escape = ask1(fire_escape, pos);
    let underfoot = item_at(items, pos);
    let open = opening(escape, tactics.heal, inp.wants_heal && inp.health.is_some(), retreat_now, objective.is_some(), has_room, underfoot);
    let state = match open {
        Opening::EscapeFire(d) => {
            face(rec, d);
            return NpcAction::Step(d);
        },
        Opening::Heal(i) => {
            return NpcAction::UseItem(i);
        },
        Opening::PickUp(s) => {
            rec.mood = s;
            return NpcAction::PickUp;
        },
        Opening::Proceed(s) => s,
    };
    rec.mood = state;
    if state == AiState::Fleeing {
        let goal = match objective {
            Some(g) => g,
            None => pos,
        };
        match ask2(flee, pos, goal) {
            Some(d) => {
                face(rec, d);
                return NpcAction::Step(d);
            },
            None => {
                rec.mood = AiState::Patrolling;
            },
        }
    } else if state == AiState::Chasing {
        match target {
            Some(t) => {
                let to = t.pos.minus(pos);
                face(rec, to.king_step());
                return chase_turn(inp, current, rec, slots, t, npcs, &tactics, approach, retreat, line_of_fire);
            },
            None => {
                let goal = match objective {
                    Some(g) => g,
                    None => pos,
                };
                return seek_turn(inp, rec, goal, approach);
            },
        }
    }
    idle_turn(inp, rec, slots, &tactics, objective, has_room, viewshed, items, approach, patrol)
}

} // verus!
