//! Properties of the NPC and input rules that hold across calls and states.
use crate::grid_vec::{chebyshev_spec, direction_index_spec, direction_spec, is_king_step, king_step_spec, GridVec};
use crate::systems::ai::{
    blast_hits_friendlies_spec, friendly_to, hostile_to, rotated_look, AiLookDir, Faction, NpcInfo,
};
use crate::systems::chase::{chase_action_spec, target_distance, ChaseAction, ChaseView, EXPLOSIVE_MAX_RANGE, EXPLOSIVE_MIN_RANGE};
use crate::systems::input::{
    game_step, key_command, physical_command, process_spec, PlayerStatus, run_game, run_menu, GameInput, GameState, InputEffect,
    InputFrame, InputMode, InputView, Key, PhysicalKey,
};
use crate::systems::inventory::auto_pickup_spec;
use crate::components::Viewshed;
use crate::systems::npc_plan::{
    after_bookkeeping, after_targeting, ans1, npc_turn_spec, remembered_goal, target_spec, NpcAction,
    NpcRecord, NpcTurnInput,
};
use crate::systems::npc_turn::objective_spec;
use crate::systems::pathfinding::a_star_spec;
use crate::systems::ai::{best_threat_spec, npc_threats, visible_hostiles_spec, Threat};
use crate::systems::tactics::{adjusted_profile, ItemKind, InventoryTactics};
use vstd::prelude::*;

verus! {

/// Hostility between factions is mutual, no faction is hostile to itself, and every NPC with
/// a faction is either an ally or an enemy of a given faction, never both.
pub proof fn lemma_hostility_is_mutual(a: Faction, b: Faction)
    ensures
        hostile_to(a, Some(b)) == hostile_to(b, Some(a)),
        !hostile_to(a, Some(a)),
        friendly_to(a, Some(b)) != hostile_to(a, Some(b)),
        !friendly_to(a, None) && !hostile_to(a, None),
{
}

/// The facing after `n` single-step turns.
pub open spec fn turned(look: AiLookDir, n: nat) -> AiLookDir
    decreases n,
{
    if n == 0 {
        look
    } else {
        rotated_look(turned(look, (n - 1) as nat))
    }
}

/// One turn from the `i`-th direction faces the next one, clockwise.
proof fn lemma_turn_once(look: AiLookDir, i: int)
    requires
        0 <= i < 8,
        (look.0.x as int, look.0.y as int) == direction_spec(i),
    ensures
        (rotated_look(look).0.x as int, rotated_look(look).0.y as int) == direction_spec((i + 1) % 8),
        rotated_look(look).1 == (if look.1 > 0 { look.1 - 1 } else { 0 }),
{
    assert(king_step_spec(look.0) == direction_spec(i));
    assert(direction_index_spec(direction_spec(i)) == Some(i));
}

/// After `n` turns from the `i`-th direction, the NPC faces direction `i + n` (modulo 8),
/// with `n` sweep steps used up (none below zero).
proof fn lemma_turn_many(look: AiLookDir, i: int, n: nat)
    requires
        0 <= i < 8,
        (look.0.x as int, look.0.y as int) == direction_spec(i),
    ensures
        (turned(look, n).0.x as int, turned(look, n).0.y as int) == direction_spec((i + n) % 8),
        turned(look, n).1 == (if look.1 >= n { look.1 - n } else { 0 }),
    decreases n,
{
    if n > 0 {
        lemma_turn_many(look, i, (n - 1) as nat);
        let prev = turned(look, (n - 1) as nat);
        lemma_turn_once(prev, (i + n - 1) % 8);
        assert(((i + n - 1) % 8 + 1) % 8 == (i + n) % 8);
    }
}

/// A full look-around of eight single-step turns ends facing where it began (when the NPC
/// faces one of the eight directions) and uses up eight sweep steps (none below zero).
pub proof fn lemma_full_sweep_returns(look: AiLookDir)
    requires
        is_king_step(look.0),
    ensures
        turned(look, 8).0 == look.0,
        turned(look, 8).1 == (if look.1 >= 8 { look.1 - 8 } else { 0 }),
{
    let d = (look.0.x as int, look.0.y as int);
    let i: int = if d == direction_spec(0) {
        0
    } else if d == direction_spec(1) {
        1
    } else if d == direction_spec(2) {
        2
    } else if d == direction_spec(3) {
        3
    } else if d == direction_spec(4) {
        4
    } else if d == direction_spec(5) {
        5
    } else if d == direction_spec(6) {
        6
    } else {
        7
    };
    assert(d == direction_spec(i));
    lemma_turn_many(look, i, 8);
    assert((i + 8) % 8 == i);
}

/// With the game running, the player alive and no welcome screen, pressing the menu key
/// opens the pause menu, and pressing it again closes it.
pub proof fn lemma_menu_key_toggles(f: InputFrame, v: InputView, inv: Option<Seq<Option<ItemKind>>>, hostiles: Seq<GridVec>)
    requires
        v.game_state == GameState::Playing,
        v.player matches Some(p) && !p.dead,
        f.mode == InputMode::Game,
        !f.welcome_visible,
    ensures
        process_spec(f, v, inv, hostiles, seq![GameInput::ToggleMenu]).0.mode == InputMode::EscMenu,
        process_spec(process_spec(f, v, inv, hostiles, seq![GameInput::ToggleMenu]).0, v, inv, hostiles, seq![GameInput::ToggleMenu]).0.mode
            == InputMode::Game,
        process_spec(f, v, inv, hostiles, seq![GameInput::ToggleMenu]).1.len() == 0,
{
    let cmds = seq![GameInput::ToggleMenu];
    assert(cmds.drop_last() =~= Seq::<GameInput>::empty());
    assert(cmds.last() == GameInput::ToggleMenu);
    let p = v.player->0;
    let opened = run_game(f, v, p, inv, hostiles, cmds);
    assert(run_game(f, v, p, inv, hostiles, Seq::<GameInput>::empty()) == (f, Seq::<InputEffect>::empty()));
    assert(opened.0.mode == InputMode::EscMenu);
    assert(opened.1 =~= Seq::<InputEffect>::empty());
    assert(process_spec(f, v, inv, hostiles, cmds) == opened);
    assert(run_menu(opened.0, v, Seq::<GameInput>::empty()) == opened.0);
    assert(run_menu(opened.0, v, cmds).mode == InputMode::Game);
}

/// Walking over items never fills an inventory beyond its room.
pub proof fn lemma_auto_pickup_fits(is_item: Seq<bool>, room: int)
    requires
        room >= 0,
    ensures
        auto_pickup_spec(is_item, room).len() <= room,
        auto_pickup_spec(is_item, room).len() <= is_item.len(),
    decreases is_item.len(),
{
    if is_item.len() > 0 {
        lemma_auto_pickup_fits(is_item.drop_last(), room);
    }
}

/// A chasing NPC throws an explosive only at a target 4 to 8 tiles away, in view and in
/// clear sight, and never where the blast would catch itself or an ally.
pub proof fn lemma_throws_spare_allies(v: ChaseView, npcs: Seq<NpcInfo>, t: InventoryTactics)
    ensures
        chase_action_spec(v, npcs, t) matches ChaseAction::ThrowGrenade(e) ==> {
            &&& EXPLOSIVE_MIN_RANGE <= target_distance(v) <= EXPLOSIVE_MAX_RANGE
            &&& v.target.visible && v.has_los && v.stamina_ok
            &&& !blast_hits_friendlies_spec(v.target.pos, e.radius as int, v.my_pos, v.my_faction, v.entity, npcs)
        },
        chase_action_spec(v, npcs, t) matches ChaseAction::ThrowMolotov(e) ==> {
            &&& EXPLOSIVE_MIN_RANGE <= target_distance(v) <= EXPLOSIVE_MAX_RANGE
            &&& v.target.visible && v.has_los && v.stamina_ok
            &&& !blast_hits_friendlies_spec(v.target.pos, e.radius as int, v.my_pos, v.my_faction, v.entity, npcs)
        },
{
}

/// A chasing NPC shoots or looses an arrow only with a clear line of fire and no ally in
/// the way, and strikes in melee only a seen target next to it.
pub proof fn lemma_attacks_need_a_clear_line(v: ChaseView, npcs: Seq<NpcInfo>, t: InventoryTactics)
    ensures
        chase_action_spec(v, npcs, t) is Shoot ==> v.has_los && !v.friendly_blocked,
        chase_action_spec(v, npcs, t) is LooseArrow ==> v.has_los && !v.friendly_blocked && v.target.visible,
        chase_action_spec(v, npcs, t) is Melee ==> v.target.visible && chebyshev_spec(v.my_pos, v.target.pos) <= 1,
{
}

/// An NPC that has a way out of fire steps out of it before it does anything else.
pub proof fn lemma_fire_comes_first<
    FE: Fn(GridVec) -> Option<GridVec>,
    FF: Fn(GridVec, GridVec) -> Option<GridVec>,
    FA: Fn(GridVec, GridVec, bool) -> Option<GridVec>,
    FR: Fn(GridVec, GridVec, bool) -> Option<GridVec>,
    FP: Fn(u64, u32, GridVec, GridVec) -> Option<GridVec>,
    FL: Fn(GridVec, GridVec) -> bool,
>(
    inp: NpcTurnInput,
    start: NpcRecord,
    slots: Seq<Option<ItemKind>>,
    viewshed: Option<&Viewshed>,
    npcs: Seq<NpcInfo>,
    alerts: Seq<GridVec>,
    items: Seq<GridVec>,
    fe: FE,
    ff: FF,
    fa: FA,
    fr: FR,
    fp: FP,
    fl: FL,
)
    ensures
        ans1(fe, inp.pos) matches Some(d) ==> npc_turn_spec(inp, start, slots, viewshed, npcs, alerts, items, fe, ff, fa, fr, fp, fl).0
            == NpcAction::Step(d),
{
}

/// An NPC strikes only the target it pursues, and locks onto it, seen this turn, when it does.
pub proof fn lemma_strikes_its_target<
    FE: Fn(GridVec) -> Option<GridVec>,
    FF: Fn(GridVec, GridVec) -> Option<GridVec>,
    FA: Fn(GridVec, GridVec, bool) -> Option<GridVec>,
    FR: Fn(GridVec, GridVec, bool) -> Option<GridVec>,
    FP: Fn(u64, u32, GridVec, GridVec) -> Option<GridVec>,
    FL: Fn(GridVec, GridVec) -> bool,
>(
    inp: NpcTurnInput,
    start: NpcRecord,
    slots: Seq<Option<ItemKind>>,
    viewshed: Option<&Viewshed>,
    npcs: Seq<NpcInfo>,
    alerts: Seq<GridVec>,
    items: Seq<GridVec>,
    fe: FE,
    ff: FF,
    fa: FA,
    fr: FR,
    fp: FP,
    fl: FL,
)
    ensures
        ({
            let r = npc_turn_spec(inp, start, slots, viewshed, npcs, alerts, items, fe, ff, fa, fr, fp, fl);
            r.0 matches NpcAction::Attack(e) ==> (r.1.target matches Some(t) && t.entity == e && t.locked
                && t.last_seen == inp.turn)
        }),
{
}

/// The best threat is one of the threats.
proof fn lemma_best_is_listed(threats: Seq<Threat>)
    ensures
        best_threat_spec(threats) matches Some(b) ==> threats.contains(b),
    decreases threats.len(),
{
    if threats.len() > 0 {
        lemma_best_is_listed(threats.drop_last());
        if let Some(b) = best_threat_spec(threats.drop_last()) {
            let i = choose|i: int| 0 <= i < threats.drop_last().len() && threats.drop_last()[i] == b;
            assert(threats[i] == b);
        }
        assert(threats[threats.len() - 1] == threats.last());
    }
}

/// The NPC threats are listed NPCs, so none is an entity that no listed NPC is.
proof fn lemma_npc_threats_avoid(
    npcs: Seq<NpcInfo>,
    entity: u64,
    my_pos: GridVec,
    mine: Faction,
    current: Option<u64>,
    viewshed: Option<&Viewshed>,
    p: u64,
)
    requires
        forall|i: int| 0 <= i < npcs.len() ==> #[trigger] npcs[i].entity != p,
    ensures
        forall|j: int| 0 <= j < npc_threats(npcs, entity, my_pos, mine, current, viewshed).len()
            ==> (#[trigger] npc_threats(npcs, entity, my_pos, mine, current, viewshed)[j]).entity != p,
    decreases npcs.len(),
{
    if npcs.len() > 0 {
        let prefix = npcs.drop_last();
        assert forall|i: int| 0 <= i < prefix.len() implies #[trigger] prefix[i].entity != p by {
            assert(prefix[i] == npcs[i]);
        }
        lemma_npc_threats_avoid(prefix, entity, my_pos, mine, current, viewshed, p);
        let rest = npc_threats(prefix, entity, my_pos, mine, current, viewshed);
        let full = npc_threats(npcs, entity, my_pos, mine, current, viewshed);
        assert(npcs[npcs.len() - 1].entity != p);
        assert forall|j: int| 0 <= j < full.len() implies (#[trigger] full[j]).entity != p by {
            if j < rest.len() {
                assert(full[j] == rest[j]);
            }
        }
    }
}

/// Once the player is dead, an NPC picks it as its target no more (when no NPC shares the
/// player's identity).
pub proof fn lemma_dead_player_untracked(
    inp: NpcTurnInput,
    start: NpcRecord,
    viewshed: Option<&Viewshed>,
    npcs: Seq<NpcInfo>,
    p: u64,
)
    requires
        inp.player is None,
        inp.player_entity == Some(p),
        forall|i: int| 0 <= i < npcs.len() ==> #[trigger] npcs[i].entity != p,
    ensures
        !(target_spec(inp, start, viewshed, npcs) matches Some(t) && t.entity == p),
{
    let current_entity = match start.target {
        Some(c) => Some(c.entity),
        None => None,
    };
    let hostiles = visible_hostiles_spec(inp.entity, inp.pos, inp.faction, current_entity, viewshed, inp.player, npcs);
    lemma_best_is_listed(hostiles);
    if let Some(f) = inp.faction {
        lemma_npc_threats_avoid(npcs, inp.entity, inp.pos, f, current_entity, viewshed, p);
        assert(hostiles == npc_threats(npcs, inp.entity, inp.pos, f, current_entity, viewshed));
    } else {
        assert(hostiles.len() == 0);
    }
    if let Some(b) = best_threat_spec(hostiles) {
        let i = choose|i: int| 0 <= i < hostiles.len() && hostiles[i] == b;
        assert(b.entity != p);
    }
}

/// Once the player is dead, an NPC pursues it no more: after its turn, its record does not
/// target the player (when no NPC shares the player's identity).
#[verifier::rlimit(50)]
pub proof fn lemma_dead_player_is_let_go<
    FE: Fn(GridVec) -> Option<GridVec>,
    FF: Fn(GridVec, GridVec) -> Option<GridVec>,
    FA: Fn(GridVec, GridVec, bool) -> Option<GridVec>,
    FR: Fn(GridVec, GridVec, bool) -> Option<GridVec>,
    FP: Fn(u64, u32, GridVec, GridVec) -> Option<GridVec>,
    FL: Fn(GridVec, GridVec) -> bool,
>(
    inp: NpcTurnInput,
    start: NpcRecord,
    slots: Seq<Option<ItemKind>>,
    viewshed: Option<&Viewshed>,
    npcs: Seq<NpcInfo>,
    alerts: Seq<GridVec>,
    items: Seq<GridVec>,
    fe: FE,
    ff: FF,
    fa: FA,
    fr: FR,
    fp: FP,
    fl: FL,
    p: u64,
)
    requires
        inp.player is None,
        inp.player_entity == Some(p),
        forall|i: int| 0 <= i < npcs.len() ==> #[trigger] npcs[i].entity != p,
    ensures
        !(npc_turn_spec(inp, start, slots, viewshed, npcs, alerts, items, fe, ff, fa, fr, fp, fl).1.target matches Some(t)
            && t.entity == p),
{
    lemma_dead_player_untracked(inp, start, viewshed, npcs, p);
    let target = target_spec(inp, start, viewshed, npcs);
    let r0 = after_bookkeeping(start, inp);
    let objective = objective_spec(target, remembered_goal(r0, inp.turn), inp.pos, alerts);
    let r1 = after_targeting(inp, start, r0, target, objective);
    assert(!(r1.target matches Some(t) && t.entity == p));
}

/// A* steps straight onto an adjacent goal that can be entered.
pub proof fn lemma_adjacent_goal_is_entered(start: GridVec, goal: GridVec, costs: spec_fn(GridVec) -> Option<i32>)
    requires
        chebyshev_spec(start, goal) == 1,
        costs(goal) is Some,
    ensures
        a_star_spec(start, goal, costs) == Some(GridVec { x: (goal.x - start.x) as i32, y: (goal.y - start.y) as i32 }),
{
}

/// Each move comes from exactly two terminal keys, the arrow and the matching letter of
/// w, a, s, d, and from exactly the same two keys of a windowed keyboard, whatever shift says.
pub proof fn lemma_move_keys(key: Key, pkey: PhysicalKey, shift: bool)
    ensures
        key_command(key) == Some(GameInput::MoveUp) <==> (key == Key::Up || key == Key::Char('w')),
        key_command(key) == Some(GameInput::MoveDown) <==> (key == Key::Down || key == Key::Char('s')),
        key_command(key) == Some(GameInput::MoveLeft) <==> (key == Key::Left || key == Key::Char('a')),
        key_command(key) == Some(GameInput::MoveRight) <==> (key == Key::Right || key == Key::Char('d')),
        physical_command(pkey, shift) == Some(GameInput::MoveUp) <==> (pkey == PhysicalKey::ArrowUp
            || pkey == PhysicalKey::KeyW),
        physical_command(pkey, shift) == Some(GameInput::MoveDown) <==> (pkey == PhysicalKey::ArrowDown
            || pkey == PhysicalKey::KeyS),
        physical_command(pkey, shift) == Some(GameInput::MoveLeft) <==> (pkey == PhysicalKey::ArrowLeft
            || pkey == PhysicalKey::KeyA),
        physical_command(pkey, shift) == Some(GameInput::MoveRight) <==> (pkey
            == PhysicalKey::ArrowRight || pkey == PhysicalKey::KeyD),
{
}

/// A chasing NPC shoots only the gun it has loaded, its ranges shifted for the aiming style,
/// and only at a target within those ranges: never nearer than the minimum and never farther
/// than the maximum, which is how far the shot carries. With no aiming style the ranges are the
/// gun's own. An arrow, likewise, flies only at a target within the bow's shifted ranges.
pub proof fn lemma_shots_stay_in_range(v: ChaseView, npcs: Seq<NpcInfo>, t: InventoryTactics)
    ensures
        chase_action_spec(v, npcs, t) matches ChaseAction::Shoot { gun, range } ==> {
            &&& t.loaded_gun is Some
            &&& gun.index == t.loaded_gun->0.index
            &&& gun.profile == adjusted_profile(t.loaded_gun->0.profile, v.style, v.bold)
            &&& gun.profile.min_range <= target_distance(v) <= gun.profile.max_range
            &&& range == gun.profile.max_range
        },
        v.style is None ==> (chase_action_spec(v, npcs, t) matches ChaseAction::Shoot { gun, range } ==> {
            &&& t.loaded_gun == Some(gun)
            &&& gun.profile.min_range <= target_distance(v) <= gun.profile.max_range
        }),
        chase_action_spec(v, npcs, t) is LooseArrow ==> {
            &&& t.bow is Some
            &&& adjusted_profile(t.bow->0.profile, v.style, v.bold).min_range <= target_distance(v)
                <= adjusted_profile(t.bow->0.profile, v.style, v.bold).max_range
        },
{
}

/// A chasing NPC with only a loaded gun (no explosive, no bow) fires at a seen target in
/// clear sight that is not adjacent and within the gun's shifted ranges, and walks toward a
/// target beyond the gun's reach.
pub proof fn lemma_gun_fires_in_range_and_closes_beyond(v: ChaseView, npcs: Seq<NpcInfo>, t: InventoryTactics)
    requires
        t.grenade is None,
        t.molotov is None,
        t.bow is None,
        t.loaded_gun is Some,
    ensures
        ({
            let p = adjusted_profile(t.loaded_gun->0.profile, v.style, v.bold);
            let d = target_distance(v);
            &&& (v.target.visible && v.has_los && !v.friendly_blocked && d > 1 && p.min_range <= d
                <= p.max_range) ==> chase_action_spec(v, npcs, t) == (ChaseAction::Shoot {
                gun: crate::systems::tactics::GunChoice { index: t.loaded_gun->0.index, profile: p },
                range: p.max_range,
            })
            &&& (d > 1 && p.min_range <= p.max_range < d) ==> chase_action_spec(v, npcs, t) is Advance
        }),
{
}

/// While the game awaits input, w or the up arrow moves the player one tile toward +y, s or
/// down one tile toward -y, a or left one tile toward -x, and d or right one tile toward +x,
/// and nothing else happens that step.
pub proof fn lemma_move_keys_move_that_way(
    f: InputFrame,
    v: InputView,
    p: PlayerStatus,
    inv: Option<Seq<Option<ItemKind>>>,
    hostiles: Seq<GridVec>,
    key: Key,
)
    requires
        v.awaiting_input,
    ensures
        (key == Key::Up || key == Key::Char('w')) ==> game_step(f, v, p, inv, hostiles, key_command(key)->0).1
            == seq![InputEffect::Move { dx: 0, dy: 1 }],
        (key == Key::Down || key == Key::Char('s')) ==> game_step(f, v, p, inv, hostiles, key_command(key)->0).1
            == seq![InputEffect::Move { dx: 0, dy: -1i32 }],
        (key == Key::Left || key == Key::Char('a')) ==> game_step(f, v, p, inv, hostiles, key_command(key)->0).1
            == seq![InputEffect::Move { dx: -1i32, dy: 0 }],
        (key == Key::Right || key == Key::Char('d')) ==> game_step(f, v, p, inv, hostiles, key_command(key)->0).1
            == seq![InputEffect::Move { dx: 1, dy: 0 }],
{
}

} // verus!
