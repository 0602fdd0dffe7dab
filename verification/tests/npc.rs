use roguelike::components::Viewshed;
use roguelike::grid_vec::GridVec;
use roguelike::point_set::PointSet;
use roguelike::systems::ai::{
    begin_circular_rotation, best_threat, blast_hits_friendlies, collect_visible_hostiles,
    count_hostiles_near, flank_goal, has_clear_line_of_sight, has_friendly_in_path, is_rotating,
    live_target_position, nearest_within, rotate_look_dir, turn_hash, update_look_dir,
    visible_points, AiLookDir, AiMemory, Faction, NpcInfo, Threat, FLANK_SALT,
};
use roguelike::systems::chase::{arrow_endpoint, chase_action, ChaseAction, ChaseView, TrackedTarget};
use roguelike::systems::npc_turn::{
    alert_position, choose_objective, engage_target, idle_plan, next_state, note_position,
    opening, remember_target, search_at_goal, track_target, AiState, AiTarget, IdlePlan, Opening,
    SearchStep,
};
use roguelike::systems::tactics::{
    AimingStyle, BowChoice, ExplosiveChoice, GunChoice, HealChoice, InventoryTactics, WeaponProfile,
};

fn g(x: i32, y: i32) -> GridVec {
    GridVec::new(x, y)
}

fn npc(entity: u64, x: i32, y: i32, faction: Option<Faction>) -> NpcInfo {
    NpcInfo { entity, pos: g(x, y), faction, target: None }
}

fn no_tactics() -> InventoryTactics {
    InventoryTactics {
        loaded_gun: None,
        reloadable_gun: None,
        bow: None,
        heal: None,
        grenade: None,
        molotov: None,
    }
}

#[test]
fn look_direction_turns_clockwise() {
    let mut look = AiLookDir(g(0, 5), 3);
    rotate_look_dir(&mut look);
    assert_eq!(look, AiLookDir(g(1, 1), 2));
    let mut look = AiLookDir(g(-1, 1), 0);
    rotate_look_dir(&mut look);
    assert_eq!(look, AiLookDir(g(0, 1), 0));
    let mut look = AiLookDir(g(0, 0), 1);
    rotate_look_dir(&mut look);
    assert_eq!(look, AiLookDir(g(0, 1), 0));
    let mut look = AiLookDir(g(1, 0), 0);
    begin_circular_rotation(&mut look);
    assert_eq!(look, AiLookDir(g(1, -1), 7));
    assert!(is_rotating(Some(&look)));
    assert!(!is_rotating(None));
    assert!(update_look_dir(g(-7, 2), &mut look));
    assert_eq!(look, AiLookDir(g(-1, 1), 0));
    assert!(!update_look_dir(g(0, 0), &mut look));
    assert_eq!(look, AiLookDir(g(-1, 1), 0));
}

#[test]
fn flanking_goes_two_tiles_to_a_side() {
    for turn in 0..8u32 {
        let goal = flank_goal(9, turn, g(0, 0), g(5, 0));
        if turn_hash(9, turn, FLANK_SALT) & 1 == 0 {
            assert_eq!(goal, g(5, 2));
        } else {
            assert_eq!(goal, g(5, -2));
        }
    }
    assert_eq!(flank_goal(9, 0, g(3, 3), g(3, 3)), g(3, 3));
}

#[test]
fn hostiles_are_counted_by_faction_and_distance() {
    let npcs = vec![
        npc(1, 10, 10, Some(Faction::Lawmen)),
        npc(2, 11, 11, Some(Faction::Outlaws)),
        npc(3, 13, 10, Some(Faction::Lawmen)),
        npc(4, 10, 9, None),
    ];
    let center = g(10, 10);
    assert_eq!(count_hostiles_near(center, 2, Some(Faction::Outlaws), None, &npcs), 1);
    assert_eq!(count_hostiles_near(center, 3, Some(Faction::Outlaws), Some((99, g(12, 12))), &npcs), 3);
    assert_eq!(count_hostiles_near(center, 3, None, Some((99, g(12, 12))), &npcs), 1);
    assert_eq!(count_hostiles_near(center, 3, None, Some((99, g(20, 12))), &npcs), 0);
}

#[test]
fn blasts_spare_the_thrower_and_its_allies() {
    let npcs = vec![npc(1, 10, 10, Some(Faction::Lawmen)), npc(2, 20, 20, Some(Faction::Outlaws))];
    // Too close to the thrower.
    assert!(blast_hits_friendlies(g(3, 0), 2, g(0, 0), None, 7, &npcs));
    assert!(!blast_hits_friendlies(g(4, 0), 2, g(0, 0), None, 7, &npcs));
    // An ally in the blast.
    assert!(blast_hits_friendlies(g(11, 11), 1, g(0, 0), Some(Faction::Lawmen), 7, &npcs));
    // The thrower itself is no ally to count.
    assert!(!blast_hits_friendlies(g(11, 11), 1, g(0, 0), Some(Faction::Lawmen), 1, &npcs));
    // An enemy in the blast is fine.
    assert!(!blast_hits_friendlies(g(20, 21), 1, g(0, 0), Some(Faction::Lawmen), 7, &npcs));
}

#[test]
fn noticed_hostiles_are_scored() {
    let mut vs = Viewshed::new(8);
    vs.visible_tiles.insert((20, 0));
    vs.visible_tiles.insert((5, 5));
    let npcs = vec![
        NpcInfo { entity: 2, pos: g(5, 5), faction: Some(Faction::Lawmen), target: Some(1) },
        npc(3, 3, 0, Some(Faction::Wildlife)),
        npc(4, 10, 10, Some(Faction::Lawmen)),
        npc(5, 1, 1, Some(Faction::Outlaws)),
        npc(1, 0, 0, Some(Faction::Lawmen)),
    ];
    let found = collect_visible_hostiles(1, g(0, 0), Some(Faction::Outlaws), Some(3), Some(&vs), Some((100, g(20, 0))), &npcs);
    assert_eq!(
        found,
        vec![
            Threat { entity: 100, pos: g(20, 0), score: 60 },
            Threat { entity: 2, pos: g(5, 5), score: 150 + 24 },
            Threat { entity: 3, pos: g(3, 0), score: 162 + 18 },
        ]
    );
    let best = best_threat(&found);
    assert_eq!(best, Some(Threat { entity: 3, pos: g(3, 0), score: 180 }));
    let tie = vec![
        Threat { entity: 1, pos: g(0, 0), score: 5 },
        Threat { entity: 2, pos: g(0, 0), score: 5 },
        Threat { entity: 3, pos: g(0, 0), score: 4 },
    ];
    assert_eq!(best_threat(&tie).map(|t| t.entity), Some(2));
    assert_eq!(best_threat(&Vec::new()), None);
    // Without a faction only the player counts; without a viewshed only the near ones.
    let alone = collect_visible_hostiles(1, g(0, 0), None, None, None, Some((100, g(4, 4))), &npcs);
    assert_eq!(alone, vec![Threat { entity: 100, pos: g(4, 4), score: 156 }]);
}

#[test]
fn live_targets_are_found() {
    let npcs = vec![npc(5, 1, 2, None), npc(5, 9, 9, None)];
    assert_eq!(live_target_position(100, Some(100), Some((100, g(3, 3))), &npcs), Some(g(3, 3)));
    assert_eq!(live_target_position(100, Some(100), None, &npcs), None);
    assert_eq!(live_target_position(5, Some(100), None, &npcs), Some(g(1, 2)));
    assert_eq!(live_target_position(6, None, None, &npcs), None);
}

#[test]
fn nearest_points_come_first() {
    let pts = vec![g(5, 0), g(0, 3), g(3, 0), g(-3, 1)];
    assert_eq!(nearest_within(g(0, 0), &pts, 10), Some(g(0, 3)));
    assert_eq!(nearest_within(g(0, 0), &pts, 2), None);
    assert_eq!(nearest_within(g(5, 0), &pts, 2), Some(g(5, 0)));
    let mut vs = Viewshed::new(5);
    vs.visible_tiles.insert((3, 0));
    vs.visible_tiles.insert((5, 0));
    assert_eq!(visible_points(Some(&vs), &pts), vec![g(5, 0), g(3, 0)]);
    assert_eq!(visible_points(None, &pts), Vec::<GridVec>::new());
}

#[test]
fn allies_in_the_line_of_fire_are_seen() {
    let npcs = vec![npc(2, 2, 0, Some(Faction::Lawmen)), npc(3, 4, 0, Some(Faction::Outlaws))];
    assert!(has_friendly_in_path(g(0, 0), g(5, 0), Some(Faction::Lawmen), 1, &npcs));
    assert!(!has_friendly_in_path(g(0, 0), g(5, 0), Some(Faction::Lawmen), 2, &npcs));
    assert!(!has_friendly_in_path(g(0, 0), g(5, 0), None, 1, &npcs));
    // The ally stands at the target itself, which is not in between.
    assert!(!has_friendly_in_path(g(0, 0), g(2, 0), Some(Faction::Lawmen), 1, &npcs));
    assert!(!has_friendly_in_path(g(0, 0), g(0, 5), Some(Faction::Lawmen), 1, &npcs));
}

#[test]
fn sand_and_walls_block_the_shot() {
    let mut sand = PointSet::new();
    assert!(has_clear_line_of_sight(g(0, 0), g(6, 0), &sand, |_x, _y| false));
    sand.insert((3, 0));
    assert!(!has_clear_line_of_sight(g(0, 0), g(6, 0), &sand, |_x, _y| false));
    assert!(has_clear_line_of_sight(g(0, 0), g(0, 6), &sand, |_x, _y| false));
    assert!(!has_clear_line_of_sight(g(0, 0), g(0, 6), &sand, |x, y| x == 0 && y == 4));
    // The end tiles never block.
    assert!(has_clear_line_of_sight(g(0, 0), g(0, 6), &sand, |x, y| x == 0 && (y == 0 || y == 6)));
    assert!(has_clear_line_of_sight(g(2, 2), g(2, 2), &sand, |_x, _y| true));
}

fn view(my_pos: GridVec, target: GridVec, visible: bool) -> ChaseView {
    ChaseView {
        entity: 1,
        my_pos,
        my_faction: Some(Faction::Outlaws),
        target: TrackedTarget { entity: 100, pos: target, visible, locked: false },
        has_los: true,
        friendly_blocked: false,
        stamina_ok: true,
        style: None,
        bold: false,
        recent_lock: false,
        stationary_turns: None,
        player: Some((100, target)),
    }
}

const SHORT: WeaponProfile = WeaponProfile { min_range: 2, preferred_range: 5, max_range: 12 };

#[test]
fn chasing_npcs_strike_adjacent_targets() {
    let t = no_tactics();
    assert_eq!(chase_action(&view(g(0, 0), g(1, 1), true), &Vec::new(), &t), ChaseAction::Melee);
    assert_eq!(
        chase_action(&view(g(0, 0), g(1, 1), false), &Vec::new(), &t),
        ChaseAction::Advance { flank: false }
    );
}

#[test]
fn chasing_npcs_throw_into_crowds() {
    let mut t = no_tactics();
    let grenade = ExplosiveChoice { index: 2, damage: 8, radius: 2 };
    t.grenade = Some(grenade);
    let crowd = vec![npc(7, 6, 1, Some(Faction::Lawmen))];
    assert_eq!(chase_action(&view(g(0, 0), g(6, 0), true), &crowd, &t), ChaseAction::ThrowGrenade(grenade));
    // One hostile is not a crowd.
    assert_eq!(chase_action(&view(g(0, 0), g(6, 0), true), &Vec::new(), &t), ChaseAction::Advance { flank: false });
    // Too far.
    assert_eq!(chase_action(&view(g(0, 0), g(9, 0), true), &crowd, &t), ChaseAction::Advance { flank: false });
    // An ally in the blast.
    let mixed = vec![npc(7, 6, 1, Some(Faction::Lawmen)), npc(8, 7, 0, Some(Faction::Outlaws))];
    assert_eq!(chase_action(&view(g(0, 0), g(6, 0), true), &mixed, &t), ChaseAction::Advance { flank: false });
    // With a grenade that is not worth throwing, the molotov is not tried either.
    let molotov = ExplosiveChoice { index: 3, damage: 6, radius: 1 };
    t.molotov = Some(molotov);
    assert_eq!(chase_action(&view(g(0, 0), g(6, 0), true), &mixed, &t), ChaseAction::Advance { flank: false });
    t.grenade = None;
    assert_eq!(chase_action(&view(g(0, 0), g(6, 0), true), &crowd, &t), ChaseAction::ThrowMolotov(molotov));
    // No throwing without stamina.
    let mut tired = view(g(0, 0), g(6, 0), true);
    tired.stamina_ok = false;
    assert_eq!(chase_action(&tired, &crowd, &t), ChaseAction::Advance { flank: false });
}

#[test]
fn chasing_npcs_shoot_in_range() {
    let mut t = no_tactics();
    let gun = GunChoice { index: 0, profile: SHORT };
    t.loaded_gun = Some(gun);
    assert_eq!(chase_action(&view(g(0, 0), g(5, 2), true), &Vec::new(), &t), ChaseAction::Shoot { gun, range: 12 });
    assert_eq!(
        chase_action(&view(g(0, 0), g(2, 0), true), &Vec::new(), &t),
        ChaseAction::Shoot { gun, range: 12 }
    );
    // Careful aim keeps three tiles away: two is too close, so back away.
    let mut careful = view(g(0, 0), g(2, 0), true);
    careful.style = Some(AimingStyle::CarefulAim);
    assert_eq!(chase_action(&careful, &Vec::new(), &t), ChaseAction::Retreat { flank_after: false });
    // Blocked by an ally: flank.
    let mut blocked = view(g(0, 0), g(5, 0), true);
    blocked.friendly_blocked = true;
    assert_eq!(chase_action(&blocked, &Vec::new(), &t), ChaseAction::Advance { flank: true });
    // Suppression fire at a target just lost.
    let mut blind = view(g(0, 0), g(5, 0), false);
    blind.style = Some(AimingStyle::Suppression);
    blind.recent_lock = true;
    let wide = GunChoice { index: 0, profile: WeaponProfile { min_range: 1, preferred_range: 5, max_range: 15 } };
    assert_eq!(chase_action(&blind, &Vec::new(), &t), ChaseAction::Shoot { gun: wide, range: 15 });
    blind.recent_lock = false;
    assert_eq!(chase_action(&blind, &Vec::new(), &t), ChaseAction::Advance { flank: false });
}

#[test]
fn chasing_npcs_loose_arrows_and_reload() {
    let mut t = no_tactics();
    t.bow = Some(BowChoice { attack: 3, profile: WeaponProfile { min_range: 3, preferred_range: 7, max_range: 14 } });
    assert_eq!(
        chase_action(&view(g(0, 0), g(4, 2), true), &Vec::new(), &t),
        ChaseAction::LooseArrow { attack: 3, endpoint: g(12, 6) }
    );
    let mut r = no_tactics();
    let reload = GunChoice { index: 1, profile: SHORT };
    r.reloadable_gun = Some(reload);
    assert_eq!(chase_action(&view(g(0, 0), g(5, 0), true), &Vec::new(), &r), ChaseAction::Reload(reload));
    assert_eq!(chase_action(&view(g(0, 0), g(3, 0), true), &Vec::new(), &r), ChaseAction::Advance { flank: false });
    assert_eq!(chase_action(&view(g(0, 0), g(3, 0), false), &Vec::new(), &r), ChaseAction::Reload(reload));
    let mut stuck = view(g(0, 0), g(2, 0), true);
    stuck.stationary_turns = Some(2);
    assert_eq!(chase_action(&stuck, &Vec::new(), &no_tactics()), ChaseAction::Advance { flank: true });
}

#[test]
fn arrows_fly_to_the_end_of_their_range() {
    assert_eq!(arrow_endpoint(g(0, 0), g(4, 2), 14), g(12, 6));
    assert_eq!(arrow_endpoint(g(1, 1), g(0, 0), 14), g(1, 1));
    assert_eq!(arrow_endpoint(g(0, 0), g(20, -5), 14), g(20, -5));
    assert_eq!(arrow_endpoint(g(0, 0), g(-3, 7), 14), g(-6, 14));
}

#[test]
fn targets_are_kept_while_they_are_worth_it() {
    let threat = Threat { entity: 5, pos: g(3, 3), score: 10 };
    let current = AiTarget { entity: 5, last_pos: g(2, 2), last_seen: 10, locked: true };
    let npcs = vec![npc(5, 8, 8, None)];
    assert_eq!(
        track_target(Some(threat), Some(current), g(0, 0), 20, 10, None, None, &npcs),
        (Some(TrackedTarget { entity: 5, pos: g(3, 3), visible: true, locked: true }), false)
    );
    assert_eq!(
        track_target(None, Some(current), g(0, 0), 28, 10, None, None, &npcs),
        (Some(TrackedTarget { entity: 5, pos: g(2, 2), visible: false, locked: true }), false)
    );
    assert_eq!(track_target(None, Some(current), g(0, 0), 29, 10, None, None, &npcs), (None, true));
    let loose = AiTarget { locked: false, ..current };
    assert_eq!(track_target(None, Some(loose), g(0, 0), 38, 10, None, None, &npcs).0.is_some(), true);
    assert_eq!(track_target(None, Some(loose), g(20, 0), 38, 10, None, None, &npcs), (None, true));
    assert_eq!(track_target(None, Some(current), g(0, 0), 12, 10, None, None, &Vec::new()), (None, true));
    assert_eq!(track_target(None, None, g(0, 0), 12, 10, None, None, &npcs), (None, false));
}

#[test]
fn engagements_and_memories_are_recorded() {
    let seen = TrackedTarget { entity: 5, pos: g(3, 3), visible: true, locked: false };
    let (record, boost) = engage_target(seen, None, 40);
    assert_eq!(record, AiTarget { entity: 5, last_pos: g(3, 3), last_seen: 40, locked: false });
    assert_eq!(boost.map(|b| (b.extra_range, b.last_spotted_turn)), Some((8, 40)));
    let unseen = TrackedTarget { visible: false, ..seen };
    let (record, boost) = engage_target(unseen, Some(AiTarget { entity: 5, last_pos: g(0, 0), last_seen: 31, locked: true }), 40);
    assert_eq!(record.last_seen, 31);
    assert!(boost.is_none());

    let mut memory = AiMemory { prev_pos: None, stationary_turns: 3, last_known_pos: None, last_seen_turn: 1, search_attempts: 2 };
    remember_target(&mut memory, unseen, 40);
    assert_eq!((memory.last_known_pos, memory.last_seen_turn, memory.search_attempts), (Some(g(3, 3)), 1, 0));
    remember_target(&mut memory, seen, 41);
    assert_eq!(memory.last_seen_turn, 41);
    note_position(&mut memory, g(1, 1));
    assert_eq!((memory.prev_pos, memory.stationary_turns), (Some(g(1, 1)), 0));
    note_position(&mut memory, g(1, 1));
    note_position(&mut memory, g(1, 1));
    assert_eq!(memory.stationary_turns, 2);
    memory.stationary_turns = 255;
    note_position(&mut memory, g(1, 1));
    assert_eq!(memory.stationary_turns, 255);
}

#[test]
fn alerts_and_objectives() {
    let current = AiTarget { entity: 100, last_pos: g(9, 9), last_seen: 3, locked: false };
    let memory = AiMemory { prev_pos: None, stationary_turns: 0, last_known_pos: Some(g(4, 4)), last_seen_turn: 10, search_attempts: 0 };
    assert_eq!(alert_position(Some(current), Some(100), true, Some(&memory), 12, g(0, 0)), g(9, 9));
    assert_eq!(alert_position(Some(current), Some(100), false, Some(&memory), 12, g(0, 0)), g(4, 4));
    assert_eq!(alert_position(None, None, true, Some(&memory), 100, g(1, 0)), g(1, 0));

    let alerts = vec![g(30, 0), g(5, 5), g(-5, 1)];
    let target = TrackedTarget { entity: 1, pos: g(2, 2), visible: true, locked: false };
    assert_eq!(choose_objective(Some(target), None, 0, g(0, 0), &alerts), (Some(g(2, 2)), false));
    assert_eq!(choose_objective(None, Some(&memory), 12, g(0, 0), &alerts), (Some(g(4, 4)), false));
    assert_eq!(choose_objective(None, None, 12, g(0, 0), &alerts), (Some(g(5, 5)), true));
    assert_eq!(choose_objective(None, None, 12, g(100, 0), &alerts), (None, false));

    assert_eq!(next_state(true, true), AiState::Fleeing);
    assert_eq!(next_state(true, false), AiState::Patrolling);
    assert_eq!(next_state(false, true), AiState::Chasing);
}

#[test]
fn lost_targets_are_searched_for_twice() {
    let mut memory = AiMemory { prev_pos: None, stationary_turns: 0, last_known_pos: Some(g(4, 4)), last_seen_turn: 10, search_attempts: 0 };
    assert_eq!(search_at_goal(true, &mut memory), SearchStep::KeepTurning);
    assert_eq!(search_at_goal(false, &mut memory), SearchStep::Sweep);
    assert_eq!(search_at_goal(false, &mut memory), SearchStep::Sweep);
    assert_eq!(search_at_goal(false, &mut memory), SearchStep::GiveUp);
    assert_eq!((memory.last_known_pos, memory.search_attempts), (None, 0));
}

#[test]
fn turns_open_with_fire_and_drink() {
    let heal = Some(HealChoice { index: 4, amount: 10 });
    assert_eq!(opening(Some(g(1, 0)), heal, true, false, true, true, true), Opening::EscapeFire(g(1, 0)));
    assert_eq!(opening(None, heal, true, false, true, true, true), Opening::Heal(4));
    assert_eq!(opening(None, heal, false, true, true, true, true), Opening::Proceed(AiState::Fleeing));
    assert_eq!(opening(None, None, true, false, false, true, true), Opening::PickUp(AiState::Patrolling));
    assert_eq!(opening(None, None, true, false, false, false, true), Opening::Proceed(AiState::Patrolling));
}

#[test]
fn idle_npcs_reload_fetch_look_and_patrol() {
    assert_eq!(idle_plan(false, true, true, Some(g(1, 1)), g(0, 0), false, 3, 0, None), IdlePlan::Reload);
    assert_eq!(idle_plan(true, true, true, Some(g(1, 1)), g(0, 0), false, 3, 0, None), IdlePlan::Rest);
    assert_eq!(idle_plan(false, false, true, Some(g(1, 1)), g(0, 0), false, 3, 0, None), IdlePlan::FetchItem(g(1, 1)));
    assert_eq!(idle_plan(false, false, true, Some(g(0, 0)), g(0, 0), false, 3, 0, None), IdlePlan::PickUp);
    assert_eq!(idle_plan(false, false, false, Some(g(0, 0)), g(0, 0), true, 3, 0, None), IdlePlan::LookAround);
    // Entity 2 looks around every 12 turns.
    assert_eq!(idle_plan(false, false, true, None, g(0, 0), false, 24, 2, Some(g(5, 5))), IdlePlan::LookAround);
    assert_eq!(idle_plan(false, false, true, None, g(0, 0), false, 25, 2, Some(g(5, 5))), IdlePlan::Patrol(g(5, 5)));
    assert_eq!(idle_plan(false, false, true, None, g(0, 0), false, 25, 2, None), IdlePlan::Rest);
}
