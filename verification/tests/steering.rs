use roguelike::grid_vec::GridVec;
use roguelike::point_set::PointMap;
use roguelike::systems::ai::turn_hash;
use roguelike::systems::steering::{
    dijkstra_map, first_step_toward, flee_choice, flee_direction, nearest_fire_threat,
    patrol_direction, retreat_direction, tile_cost_for_ai, TileInfo, PATROL_SALT,
};

fn g(x: i32, y: i32) -> GridVec {
    GridVec::new(x, y)
}

fn plain() -> TileInfo {
    TileInfo { walkable: true, fire: false, sand_cloud: false, cactus: false, blocking_prop: false }
}

fn open_ground(_: GridVec) -> Option<i32> {
    Some(10)
}

#[test]
fn tile_costs_weigh_fire_cactus_and_cover() {
    let open = vec![Some(plain()); 8];
    assert_eq!(tile_cost_for_ai(false, Some(plain()), &open, false), Some(14));
    assert_eq!(tile_cost_for_ai(false, Some(plain()), &open, true), Some(10));
    assert_eq!(tile_cost_for_ai(true, Some(plain()), &open, false), None);
    assert_eq!(tile_cost_for_ai(false, None, &open, false), None);
    let water = TileInfo { walkable: false, ..plain() };
    assert_eq!(tile_cost_for_ai(false, Some(water), &open, true), None);

    let burning = TileInfo { fire: true, ..plain() };
    let cactus = TileInfo { cactus: true, ..plain() };
    let wall = TileInfo { blocking_prop: true, ..plain() };
    let mut around = vec![Some(burning), Some(burning), Some(cactus), Some(wall), Some(wall), None, None, Some(plain())];
    // 10 + 28 (near fire) + 10 (near cactus) - 2 * 2 (cover).
    assert_eq!(tile_cost_for_ai(false, Some(plain()), &around, false), Some(44));
    // 10 + 2 * 28 + 10.
    assert_eq!(tile_cost_for_ai(false, Some(plain()), &around, true), Some(76));
    // A burning tile: 10 + 70, then the neighbors.
    assert_eq!(tile_cost_for_ai(false, Some(burning), &around, false), Some(114));
    let sand = TileInfo { sand_cloud: true, ..plain() };
    assert_eq!(tile_cost_for_ai(false, Some(sand), &open, false), Some(30));
    // Cover never brings the cost below 1.
    around = vec![Some(wall); 8];
    assert_eq!(tile_cost_for_ai(false, Some(plain()), &around, false), Some(1));
}

#[test]
fn retreat_keeps_the_threat_far() {
    // South-west, west and north-west are all four tiles away; south-west comes first.
    let d = retreat_direction(g(0, 0), g(3, 0), &open_ground, &|_p: GridVec| true, false);
    assert_eq!(d, Some(g(-1, -1)));
    // Keeping sight only from the north-west.
    let d = retreat_direction(g(0, 0), g(3, 0), &open_ground, &|p: GridVec| p == g(-1, 1), true);
    assert_eq!(d, Some(g(-1, 1)));
    // Without keeping sight, the sight test is not asked.
    let d = retreat_direction(g(0, 0), g(3, 0), &open_ground, &|p: GridVec| p == g(-1, 1), false);
    assert_eq!(d, Some(g(-1, -1)));
    let d = retreat_direction(g(0, 0), g(3, 0), &|_p: GridVec| None, &|_p: GridVec| true, false);
    assert_eq!(d, None);
}

#[test]
fn first_steps_fall_back_to_the_direct_move() {
    assert_eq!(first_step_toward(g(0, 0), g(3, 3), &open_ground), Some(g(1, 1)));
    assert_eq!(first_step_toward(g(2, 2), g(2, 2), &open_ground), None);
    // The goal is walled off, but the first tile toward it is open.
    let walled = |p: GridVec| if p.x >= 3 { None } else { Some(10) };
    assert_eq!(first_step_toward(g(0, 0), g(9, 0), &walled), Some(g(1, 0)));
    let blocked = |p: GridVec| if p == g(1, 0) || p.x >= 3 { None } else { Some(10) };
    assert_eq!(first_step_toward(g(0, 0), g(9, 0), &blocked), None);
}

#[test]
fn patrols_stay_near_the_post() {
    for turn in 0..20u32 {
        let d = patrol_direction(77, turn, g(0, 0), g(0, 0), &open_ground).expect("open ground");
        let mut best = i32::MIN;
        let mut best_d = None;
        for (i, dir) in [g(0, 1), g(1, 1), g(1, 0), g(1, -1), g(0, -1), g(-1, -1), g(-1, 0), g(-1, 1)].iter().enumerate() {
            let noise = (turn_hash(77, turn, i as u64 + PATROL_SALT) % 13) as i32;
            let score = noise * 3 - 10 - 2;
            if score > best {
                best = score;
                best_d = Some(*dir);
            }
        }
        assert_eq!(Some(d), best_d);
    }
    // Far from the post, the NPC heads back.
    let back = patrol_direction(77, 0, g(30, 0), g(0, 0), &open_ground).expect("open ground");
    assert_eq!(back.x, -1);
    // At the edge of the patrol radius, tiles beyond it are ruled out.
    let d = patrol_direction(77, 0, g(18, 0), g(0, 0), &open_ground).expect("open ground");
    assert!(d.x <= 0);
}

#[test]
fn distance_maps_spread_from_the_sources() {
    let map = dijkstra_map(&vec![g(0, 0)], &open_ground);
    assert_eq!(map.get(&(0, 0)), Some(0));
    assert_eq!(map.get(&(1, 1)), Some(10));
    assert_eq!(map.get(&(2, -1)), Some(20));
    assert_eq!(map.get(&(3, 0)), Some(30));
    let walls = |p: GridVec| if p.x == 1 && p.y != 3 { None } else { Some(10) };
    let map = dijkstra_map(&vec![g(0, 0), g(5, 0)], &walls);
    assert_eq!(map.get(&(5, 0)), Some(0));
    assert_eq!(map.get(&(1, 0)), None);
    assert_eq!(map.get(&(2, 0)), Some(30));
}

#[test]
fn fleeing_gains_distance() {
    let mut dist = PointMap::new();
    dist.insert((0, 0), 10);
    dist.insert((1, 0), 20);
    dist.insert((0, 1), 15);
    // Unmapped neighbors count as four steps beyond here: 50.
    assert_eq!(flee_choice(g(0, 0), &dist, &open_ground), Some(g(1, 1)));
    let only_mapped = |p: GridVec| if p == g(1, 0) || p == g(0, 1) { Some(10) } else { None };
    assert_eq!(flee_choice(g(0, 0), &dist, &only_mapped), Some(g(1, 0)));
    assert_eq!(flee_direction(g(0, 0), g(1, 0), &open_ground), Some(g(-1, -1)));
    assert_eq!(flee_direction(g(0, 0), g(1, 0), &|_p: GridVec| None), None);
}

#[test]
fn fire_centers_average_the_flames() {
    assert_eq!(nearest_fire_threat(g(5, 5), &|_p: GridVec| false), None);
    assert_eq!(nearest_fire_threat(g(5, 5), &|p: GridVec| p == g(6, 6)), Some(g(6, 6)));
    assert_eq!(nearest_fire_threat(g(5, 5), &|p: GridVec| p.x == 6), Some(g(6, 5)));
    assert_eq!(nearest_fire_threat(g(-5, -5), &|p: GridVec| p == g(-5, -5) || p == g(-6, -6)), Some(g(-5, -5)));
    assert_eq!(nearest_fire_threat(g(0, 0), &|p: GridVec| p == g(0, 0) || p == g(-1, 1)), Some(g(0, 0)));
}
