use roguelike::fov::{compute_fov, has_los};
use roguelike::ascii_view::{ascii_fov_demo, ascii_view, sample_walls};
use roguelike::fraction::Fraction;

#[test]
fn origin_is_visible() {
    let visible = compute_fov((5, 5), 5, |_, _| false);
    assert!(visible.contains(&(5, 5)));
}

#[test]
fn visibility_is_symmetric_on_open_map() {
    let a = (5, 5);
    let b = (8, 7);
    let av = compute_fov(a, 10, |_, _| false);
    let bv = compute_fov(b, 10, |_, _| false);
    assert_eq!(av.contains(&b), bv.contains(&a));
}

#[test]
fn wall_that_blocks_is_visible() {
    let visible = compute_fov((5, 5), 10, |x, y| (x, y) == (7, 5));
    assert!(visible.contains(&(7, 5)));
    assert!(!visible.contains(&(8, 5)));
}

#[test]
fn los_respects_blockers() {
    assert!(has_los((0, 0), (5, 0), |_, _| false));
    assert!(!has_los((0, 0), (5, 0), |x, y| (x, y) == (3, 0)));
}

#[test]
fn open_map_view_is_the_whole_disc() {
    let origin = (5, 5);
    let radius = 4;
    let visible = compute_fov(origin, radius, |_, _| false);
    for x in -2..13 {
        for y in -2..13 {
            let (a, b): (i32, i32) = (x - origin.0, y - origin.1);
            let expected = a * a + b * b <= radius * radius;
            assert_eq!(visible.contains(&(x, y)), expected, "tile ({x}, {y})");
        }
    }
}

#[test]
fn open_map_view_is_symmetric_for_every_pair() {
    let radius = 5;
    for ax in 0..8 {
        for ay in 0..8 {
            let av = compute_fov((ax, ay), radius, |_, _| false);
            for bx in 0..8 {
                for by in 0..8 {
                    let bv = compute_fov((bx, by), radius, |_, _| false);
                    assert_eq!(av.contains(&(bx, by)), bv.contains(&(ax, ay)));
                }
            }
        }
    }
}

#[test]
fn nonpositive_radius_sees_only_the_origin() {
    let visible = compute_fov((3, 3), 0, |_, _| false);
    assert!(visible.contains(&(3, 3)));
    assert!(!visible.contains(&(3, 4)));
    assert!(!visible.contains(&(4, 3)));
    let negative = compute_fov((3, 3), -4, |_, _| false);
    assert!(negative.contains(&(3, 3)));
    assert!(!negative.contains(&(3, 2)));
}

#[test]
fn tiles_beyond_the_radius_are_hidden() {
    let visible = compute_fov((0, 0), 3, |_, _| false);
    assert!(visible.contains(&(0, 3)));
    assert!(visible.contains(&(2, 1)));
    assert!(!visible.contains(&(0, 4)));
    assert!(!visible.contains(&(3, 1)));
}

#[test]
fn wall_hides_the_tile_straight_behind_it() {
    let visible = compute_fov((0, 0), 6, |x, y| (x, y) == (0, 2));
    assert!(visible.contains(&(0, 1)));
    assert!(visible.contains(&(0, 2)));
    assert!(!visible.contains(&(0, 3)));
    assert!(!visible.contains(&(0, 5)));
}

#[test]
fn line_of_sight_to_self_and_neighbors() {
    let all_walls = |_: i32, _: i32| true;
    assert!(has_los((4, 4), (4, 4), all_walls));
    assert!(has_los((4, 4), (5, 5), all_walls));
    assert!(has_los((4, 4), (3, 4), all_walls));
    assert!(!has_los((4, 4), (6, 4), all_walls));
}

#[test]
fn line_of_sight_ignores_an_opaque_target() {
    assert!(has_los((0, 0), (4, 2), |x, y| (x, y) == (4, 2)));
    assert!(has_los((0, 0), (-3, 7), |x, y| (x, y) == (-3, 7) || (x, y) == (0, 0)));
}

#[test]
fn line_of_sight_follows_the_bresenham_line() {
    // From (0, 0) to (4, 2) the line passes (1, 0), (2, 1) and (3, 1).
    assert!(!has_los((0, 0), (4, 2), |x, y| (x, y) == (1, 0)));
    assert!(!has_los((0, 0), (4, 2), |x, y| (x, y) == (3, 1)));
    assert!(has_los((0, 0), (4, 2), |x, y| (x, y) == (1, 1) || (x, y) == (3, 2)));
    // Back from (4, 2) it passes (3, 2), (2, 1) and (1, 1): not the same tiles.
    assert!(has_los((4, 2), (0, 0), |x, y| (x, y) == (1, 0) || (x, y) == (3, 1)));
    assert!(!has_los((4, 2), (0, 0), |x, y| (x, y) == (1, 1)));
}

#[test]
fn fractions_compare_by_value() {
    let half = Fraction::new(1, 2);
    let two_quarters = Fraction::new(2, 4);
    let third = Fraction::new(1, 3);
    assert_eq!(half.partial_cmp(&two_quarters), Some(std::cmp::Ordering::Equal));
    assert_eq!(third.partial_cmp(&half), Some(std::cmp::Ordering::Less));
    assert_eq!(half.partial_cmp(&third), Some(std::cmp::Ordering::Greater));
    assert!(half != two_quarters);
    assert!(third < half);
}

#[test]
fn radius_two_sees_the_diagonal_neighbors() {
    let visible = compute_fov((0, 0), 2, |_, _| false);
    for p in [(0, 0), (1, 0), (-1, 0), (0, 1), (0, -1), (2, 0), (-2, 0), (0, 2), (0, -2), (1, 1), (1, -1), (-1, 1), (-1, -1)] {
        assert!(visible.contains(&p), "tile {p:?}");
    }
    assert!(!visible.contains(&(2, 1)));
    assert!(!visible.contains(&(2, 2)));
}

#[test]
fn sight_is_symmetric_among_walls() {
    let walls = [
        (1, 0), (1, 2), (1, 8), (2, 4), (3, 4), (4, 0), (4, 1), (4, 3), (4, 6), (4, 7),
        (5, 4), (5, 6), (7, 0), (7, 7), (8, 2), (9, 2), (10, 1), (10, 4), (10, 11), (11, 5),
    ];
    let opaque = |x: i32, y: i32| walls.contains(&(x, y));
    let radius = 8;
    for ax in 0..12 {
        for ay in 0..12 {
            if opaque(ax, ay) {
                continue;
            }
            let av = compute_fov((ax, ay), radius, opaque);
            for bx in 0..12 {
                for by in 0..12 {
                    if opaque(bx, by) {
                        continue;
                    }
                    let bv = compute_fov((bx, by), radius, opaque);
                    assert_eq!(av.contains(&(bx, by)), bv.contains(&(ax, ay)), "({ax},{ay}) and ({bx},{by})");
                }
            }
        }
    }
}

#[test]
fn ascii_harness_smoke_test() {
    let lines = ascii_fov_demo();
    for line in &lines {
        let text: String = line.iter().collect();
        println!("{text}");
    }
    assert_eq!(lines.len(), 20);
    assert!(lines.iter().all(|l| l.len() == 20));
    // Row r of the drawing shows y = 19 - r.
    assert_eq!(lines[9][10], '@');
    assert_eq!(lines[14][5], '#');
    assert_eq!(lines[19 - 12][11], '#');
    // Beside the viewer the floor is in view; far corners are not.
    assert_eq!(lines[9][9], '.');
    assert_eq!(lines[0][0], ' ');
    // The wall along y = 5 hides what lies below it.
    assert_eq!(lines[19 - 3][10], ' ');
}

#[test]
fn ascii_view_marks_viewer_walls_and_sight() {
    let walls = vec![vec![false, true], vec![false, false]];
    let mut visible = roguelike::point_set::PointSet::new();
    visible.insert((1, 1));
    let lines = ascii_view((0, 1), &walls, &visible);
    assert_eq!(lines, vec![vec!['@', '.'], vec![' ', '#']]);
    assert_eq!(sample_walls()[5][2], true);
    assert_eq!(sample_walls()[5][1], false);
}

#[test]
fn sight_along_a_column_is_blocked_by_a_wall_between_and_symmetric() {
    let wall = (5, 7);
    let opaque = |x: i32, y: i32| (x, y) == wall;
    let a = (5, 4);
    let b = (5, 9);
    let c = (5, 6);
    // A wall between a and b hides each from the other.
    assert!(!compute_fov(a, 10, opaque).contains(&b));
    assert!(!compute_fov(b, 10, opaque).contains(&a));
    // Nothing stands between a and c: each sees the other.
    assert!(compute_fov(a, 10, opaque).contains(&c));
    assert!(compute_fov(c, 10, opaque).contains(&a));
    // Along a row, the radius decides.
    assert!(compute_fov((0, 0), 3, |_, _| false).contains(&(3, 0)));
    assert!(!compute_fov((0, 0), 3, |_, _| false).contains(&(4, 0)));
}

#[test]
fn sight_along_a_diagonal_is_blocked_by_a_wall_between_and_symmetric() {
    let opaque = |x: i32, y: i32| (x, y) == (2, 2);
    assert!(!compute_fov((0, 0), 10, opaque).contains(&(4, 4)));
    assert!(!compute_fov((4, 4), 10, opaque).contains(&(0, 0)));
    assert!(compute_fov((0, 0), 10, opaque).contains(&(1, 1)));
    assert!(compute_fov((1, 1), 10, opaque).contains(&(0, 0)));
    // The other diagonal is open: (0, 0) and (-4, 4) see each other.
    assert!(compute_fov((0, 0), 10, opaque).contains(&(-4, 4)));
    assert!(compute_fov((-4, 4), 10, opaque).contains(&(0, 0)));
    // Squared distance 2 * 8 * 8 = 128 exceeds 11 * 11 = 121.
    assert!(!compute_fov((0, 0), 11, |_, _| false).contains(&(8, 8)));
    assert!(compute_fov((0, 0), 12, |_, _| false).contains(&(8, 8)));
}
