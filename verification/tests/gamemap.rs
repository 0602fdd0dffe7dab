use roguelike::color::RatColor;
use roguelike::gamemap::{procedural_noise, GameMap};
use roguelike::typedefs::{SPAWN_X, SPAWN_Y};
use roguelike::typeenums::{BlockingFurniture, Floor, Furniture, WalkableFurniture};
use roguelike::voxel::Voxel;

#[test]
fn forest_has_diverse_tiles_and_open_ground() {
    let map = GameMap::new(120, 80);
    let mut blocking = 0;
    let mut walkable_plants = 0;
    let mut empty_ground = 0;
    let mut floor_variants = std::collections::HashSet::new();

    for row in &map.voxels {
        for voxel in row {
            if let Some(floor) = &voxel.floor {
                floor_variants.insert(std::mem::discriminant(floor));
            }
            match &voxel.furniture {
                Some(Furniture::Blocking(_)) => blocking += 1,
                Some(Furniture::Walkable(_)) => walkable_plants += 1,
                None => empty_ground += 1,
            }
        }
    }

    assert!(floor_variants.len() >= 4);
    assert!(blocking > 0);
    assert!(walkable_plants > 0);
    assert!(empty_ground > blocking);
}

#[test]
fn movement_rules_match_furniture_blocking() {
    let map = GameMap::new(120, 80);
    assert!(map.can_move_to(&(SPAWN_X, SPAWN_Y)));
    assert!(!map.can_move_to(&(0, 0)));

    let walkable_plant = map
        .voxels
        .iter()
        .flatten()
        .find(|v| matches!(v.furniture, Some(Furniture::Walkable(_))))
        .map(|v| v.voxel_pos)
        .expect("expected at least one walkable plant");

    let tree = map
        .voxels
        .iter()
        .flatten()
        .find(|v| {
            matches!(
                v.furniture,
                Some(Furniture::Blocking(
                    BlockingFurniture::OakTree
                        | BlockingFurniture::PineTree
                        | BlockingFurniture::BirchTree
                ))
            )
        })
        .map(|v| v.voxel_pos)
        .expect("expected at least one tree");

    assert!(map.can_move_to(&walkable_plant));
    assert!(!map.can_move_to(&tree));
}

#[test]
fn procedural_noise_is_deterministic() {
    assert_eq!(procedural_noise(10, 20), procedural_noise(10, 20));
    assert_ne!(procedural_noise(10, 20), procedural_noise(11, 20));
}

#[test]
fn procedural_noise_known_values() {
    assert_eq!(procedural_noise(10, 20), 3_371_361_290);
    assert_eq!(procedural_noise(11, 20), 436_598_776);
}

#[test]
fn border_is_walled_and_spawn_is_clear() {
    let map = GameMap::new(120, 80);
    for x in 0..120 {
        assert_eq!(map.voxels[0][x as usize].furniture, Some(Furniture::Blocking(BlockingFurniture::Wall)));
        assert_eq!(map.voxels[79][x as usize].furniture, Some(Furniture::Blocking(BlockingFurniture::Wall)));
    }
    for y in 0..80 {
        assert!(!map.can_move_to(&(0, y)));
        assert!(!map.can_move_to(&(119, y)));
    }
    for dx in -2..=2 {
        for dy in -2..=2 {
            assert_eq!(map.voxels[(SPAWN_Y + dy) as usize][(SPAWN_X + dx) as usize].furniture, None);
        }
    }
    assert!(!map.can_move_to(&(-1, 5)));
    assert!(!map.can_move_to(&(5, 80)));
    assert!(map.get_voxel_at(&(120, 3)).is_none());
    assert_eq!(map.get_voxel_at(&(7, 9)).map(|v| v.voxel_pos), Some((7, 9)));
}

#[test]
fn map_dimensions_and_default() {
    let map = GameMap::new(13, 7);
    assert_eq!(map.voxels.len(), 7);
    assert!(map.voxels.iter().all(|row| row.len() == 13));
    let empty = GameMap::new(0, 0);
    assert!(empty.voxels.is_empty());
    let default_map = GameMap::default();
    assert_eq!((default_map.width, default_map.height), (80, 50));
    assert_eq!(default_map.voxels.len(), 50);
}

#[test]
fn floor_buckets_follow_the_noise() {
    assert_eq!(Floor::from_noise(0), Floor::Moss);
    assert_eq!(Floor::from_noise(11), Floor::GrassDeep);
    assert_eq!(Floor::from_noise(22), Floor::GrassDeep);
    assert_eq!(Floor::from_noise(3), Floor::Grass);
    assert_eq!(Floor::from_noise(107), Floor::Grass);
    assert_eq!(Floor::from_noise(18), Floor::GrassLight);
    assert_eq!(Floor::from_noise(4_294_967_289), Floor::LeafLitter);
}

#[test]
fn only_blocking_furniture_blocks() {
    assert!(Furniture::Blocking(BlockingFurniture::Wall).blocks_movement());
    assert!(Furniture::Blocking(BlockingFurniture::PineTree).blocks_movement());
    assert!(!Furniture::Walkable(WalkableFurniture::Fern).blocks_movement());
    assert!(!Furniture::Walkable(WalkableFurniture::Wildflower).blocks_movement());
}

#[test]
fn render_packet_centers_on_the_point() {
    let map = GameMap::new(10, 10);
    let grid = map.create_render_packet(&(0, 0), 4, 3);
    assert_eq!(grid.len(), 3);
    assert!(grid.iter().all(|row| row.len() == 4));
    // The lower-left corner is (-2, -1): off the map, so blank.
    assert_eq!(grid[0][0], (" ".to_string(), RatColor::Black, RatColor::Black));
    // Screen cell (2, 1) is world (0, 0): the corner wall.
    let wall = map.voxels[0][0].to_graphic(true);
    assert_eq!(grid[1][2], wall);
    assert_eq!(wall.0, "#");
    assert_eq!(wall.1, RatColor::Rgb(139, 105, 20));
}

#[test]
fn unseen_voxels_are_dimmed() {
    let voxel = Voxel { floor: Some(Floor::Grass), furniture: None, voxel_pos: (1, 1) };
    let seen = voxel.to_graphic(true);
    assert_eq!(seen, ("\"".to_string(), RatColor::Rgb(19, 109, 21), RatColor::Rgb(15, 87, 16)));
    let unseen = voxel.to_graphic(false);
    assert_eq!(unseen, ("\"".to_string(), RatColor::Rgb(5, 32, 6), RatColor::Rgb(7, 43, 8)));
    let bare = Voxel { floor: None, furniture: None, voxel_pos: (0, 0) };
    assert_eq!(bare.to_graphic(true), (" ".to_string(), RatColor::Black, RatColor::Black));
    assert_eq!(bare.to_graphic(false), (" ".to_string(), RatColor::Gray, RatColor::Gray));
}

#[test]
fn integer_dimming_matches_float_scaling() {
    for factor_tenths in [3u8, 5, 8] {
        let factor = factor_tenths as f32 / 10.0;
        for c in 0..=255u8 {
            let float = ((c as f32 * factor).clamp(0.0, 127.0)) as u8;
            let dimmed = roguelike::color::dim_by_tenths(RatColor::Rgb(c, c, c), factor_tenths);
            assert_eq!(dimmed, RatColor::Rgb(float, float, float), "channel {c} factor {factor}");
        }
    }
}

#[test]
fn fogged_packet_lights_seen_dims_remembered_and_hides_the_rest() {
    let map = GameMap::new(10, 10);
    let mut visible = roguelike::point_set::PointSet::new();
    visible.insert((0, 0));
    let mut revealed = roguelike::point_set::PointSet::new();
    revealed.insert((0, 0));
    revealed.insert((1, 0));
    let grid = map.create_render_packet_with_fog(&(0, 0), 4, 3, Some(&visible), Some(&revealed));
    assert_eq!(grid.len(), 3);
    assert!(grid.iter().all(|row| row.len() == 4));
    let blank = (" ".to_string(), RatColor::Black, RatColor::Black);
    // Screen (2, 1) is world (0, 0): in sight.
    assert_eq!(grid[1][2], map.voxels[0][0].to_graphic(true));
    // Screen (3, 1) is world (1, 0): remembered only, so dimmed.
    assert_eq!(grid[1][3], map.voxels[0][1].to_graphic(false));
    assert_ne!(grid[1][3], map.voxels[0][1].to_graphic(true));
    // Screen (2, 2) is world (0, 1): on the map but never seen.
    assert_eq!(grid[2][2], blank);
    // Off the map.
    assert_eq!(grid[0][0], blank);
}

#[test]
fn fogged_packet_without_sight_data_draws_every_tile() {
    let map = GameMap::new(10, 10);
    let fogged = map.create_render_packet_with_fog(&(5, 5), 6, 4, None, None);
    let plain = map.create_render_packet(&(5, 5), 6, 4);
    assert_eq!(fogged, plain);
}
