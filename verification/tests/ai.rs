use std::collections::HashSet;

use roguelike::grid_vec::GridVec;
use roguelike::systems::ai::{
    effective_awareness_range, factions_are_hostile, hash64, look_interval, memory_goal,
    threat_score, turn_hash, AiMemory, AiPursuitBoost, Faction,
};
use roguelike::systems::pathfinding::{a_star_first_step, a_star_first_step_pub, STEP_COST};

fn walkable(_: GridVec) -> bool {
    true
}

#[test]
fn a_star_returns_adjacent_step() {
    let start = GridVec::new(4, 4);
    let goal = GridVec::new(5, 5);
    assert_eq!(
        a_star_first_step_pub(start, goal, walkable),
        Some(GridVec::new(1, 1))
    );
}

#[test]
fn a_star_routes_around_wall() {
    let start = GridVec::new(0, 0);
    let goal = GridVec::new(3, 0);
    let walls = HashSet::from([GridVec::new(1, 0), GridVec::new(1, 1)]);
    let step = a_star_first_step_pub(start, goal, |pos| !walls.contains(&pos));
    assert_eq!(step, Some(GridVec::new(1, -1)));
}

#[test]
fn pursuit_boost_decays_over_time() {
    let boost = AiPursuitBoost {
        extra_range: 8,
        last_spotted_turn: 10,
    };
    assert_eq!(effective_awareness_range(12, Some(&boost), 10), 20);
    assert_eq!(effective_awareness_range(12, Some(&boost), 16), 18);
    assert_eq!(effective_awareness_range(12, Some(&boost), 40), 12);
}

#[test]
fn faction_hostility_is_strictly_cross_faction() {
    assert!(factions_are_hostile(Faction::Outlaws, Faction::Lawmen));
    assert!(!factions_are_hostile(Faction::Police, Faction::Police));
}

#[test]
fn a_star_stays_put_at_the_goal() {
    let p = GridVec::new(7, -3);
    assert_eq!(a_star_first_step_pub(p, p, walkable), None);
}

#[test]
fn a_star_gives_up_when_walled_in() {
    let start = GridVec::new(0, 0);
    let goal = GridVec::new(5, 0);
    // A closed ring of walls around the start.
    let step = a_star_first_step_pub(start, goal, |pos| pos.x.abs().max(pos.y.abs()) != 1);
    assert_eq!(step, None);
}

#[test]
fn a_star_enters_an_unwalkable_goal() {
    let start = GridVec::new(0, 0);
    let goal = GridVec::new(3, 0);
    let step = a_star_first_step_pub(start, goal, |pos| pos != GridVec::new(3, 0));
    let d = step.expect("the goal is reachable");
    assert_eq!(d.x, 1);
    assert!(d.y.abs() <= 1);
}

#[test]
fn a_star_prefers_cheap_tiles() {
    let start = GridVec::new(0, 0);
    let goal = GridVec::new(4, 0);
    // The straight row is expensive; the row above is cheap.
    let step = a_star_first_step(start, goal, |pos: GridVec| {
        if pos.y == 0 && pos.x > 0 && pos.x < 4 {
            Some(STEP_COST * 20)
        } else {
            Some(STEP_COST)
        }
    });
    assert!(step == Some(GridVec::new(1, 1)) || step == Some(GridVec::new(1, -1)));
}

#[test]
fn a_star_first_step_is_a_king_move() {
    let walls = HashSet::from([GridVec::new(2, 2), GridVec::new(2, 3), GridVec::new(3, 2)]);
    for gx in -4..8 {
        for gy in -4..8 {
            let goal = GridVec::new(gx, gy);
            if let Some(d) = a_star_first_step_pub(GridVec::new(0, 0), goal, |p| !walls.contains(&p)) {
                assert!(d.x.abs() <= 1 && d.y.abs() <= 1 && (d.x, d.y) != (0, 0));
                assert!(!walls.contains(&d) || d == goal);
            }
        }
    }
}

#[test]
fn hashes_are_deterministic_and_spread() {
    assert_eq!(hash64(0), 0);
    assert_eq!(hash64(12345), hash64(12345));
    assert_ne!(hash64(1), hash64(2));
    assert_eq!(turn_hash(7, 3, 9), hash64(7 ^ (3u64 << 32) ^ 9));
    assert_eq!(hash64(1), 0xB456_BCFC_34C2_CB2C);
}

#[test]
fn look_interval_is_between_ten_and_fourteen() {
    for bits in 0..50u64 {
        let n = look_interval(bits);
        assert!((10..15).contains(&n));
        assert_eq!(n, 10 + (bits as u32) % 5);
    }
    assert_eq!(look_interval((1u64 << 32) + 3), 13);
}

#[test]
fn threat_falls_with_distance() {
    assert_eq!(threat_score(0), 180);
    assert_eq!(threat_score(10), 120);
    assert_eq!(threat_score(30), 0);
    assert_eq!(threat_score(45), 0);
}

#[test]
fn awareness_without_boost_is_the_base() {
    assert_eq!(effective_awareness_range(9, None, 100), 9);
    let boost = AiPursuitBoost { extra_range: 8, last_spotted_turn: 50 };
    // A turn before the sighting counts as no unseen turns.
    assert_eq!(effective_awareness_range(9, Some(&boost), 20), 17);
}

#[test]
fn memory_fades_after_twenty_eight_turns() {
    let memory = AiMemory {
        prev_pos: None,
        stationary_turns: 0,
        last_known_pos: Some(GridVec::new(4, 5)),
        last_seen_turn: 100,
        search_attempts: 0,
    };
    assert_eq!(memory_goal(Some(&memory), 128), Some(GridVec::new(4, 5)));
    assert_eq!(memory_goal(Some(&memory), 129), None);
    assert_eq!(memory_goal(None, 0), None);
    let blank = AiMemory { last_known_pos: None, ..memory };
    assert_eq!(memory_goal(Some(&blank), 100), None);
}

#[test]
fn a_star_step_begins_a_shortest_walk_around_a_wall() {
    let start = GridVec::new(0, 0);
    let goal = GridVec::new(4, 0);
    // A wall along x = 2 from y = -5 up to y = 1: the only four-step walk passes (1, 1), (2, 2).
    let step = a_star_first_step_pub(start, goal, |p| !(p.x == 2 && p.y >= -5 && p.y <= 1));
    assert_eq!(step, Some(GridVec::new(1, 1)));
}

#[test]
fn a_star_can_miss_a_detour_over_tiles_cheaper_than_a_step() {
    let start = GridVec::new(0, 0);
    let goal = GridVec::new(4, 0);
    let cheap = [GridVec::new(0, 1), GridVec::new(1, 2), GridVec::new(2, 2), GridVec::new(3, 1)];
    // The walk over the cheap tiles costs 4 + 10 = 14, and it starts with (0, 1); the estimate
    // of the distance left overrates those tiles, and the search settles elsewhere.
    let step = a_star_first_step(start, goal, |p: GridVec| if cheap.contains(&p) { Some(1) } else { Some(STEP_COST) });
    assert!(step.is_some());
    assert_ne!(step, Some(GridVec::new(0, 1)));
}
