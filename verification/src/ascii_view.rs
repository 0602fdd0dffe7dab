//! A field of view drawn in characters, and the small walled map it is shown on.
use crate::fov::{compute_fov, fov_set, opacity};
use crate::point_set::PointSet;
use vstd::prelude::*;

verus! {

/// The side of the sample map.
pub const SAMPLE_SIZE: usize = 20;

/// The walls of the sample map: a wall along row 5 from column 2 to 17, and one along
/// column 11 from row 8 to 17.
pub open spec fn sample_wall(x: int, y: int) -> bool {
    (y == 5 && 2 <= x < 18) || (x == 11 && 8 <= y < 18)
}

/// The sample map, row by row: `true` where a wall stands.
pub fn sample_walls() -> (m: Vec<Vec<bool>>)
    ensures
        m@.len() == SAMPLE_SIZE,
        forall|y: int| 0 <= y < SAMPLE_SIZE ==> #[trigger] m@[y]@.len() == SAMPLE_SIZE,
        forall|y: int, x: int|
            0 <= y < SAMPLE_SIZE && 0 <= x < SAMPLE_SIZE ==> #[trigger] m@[y]@[x] == sample_wall(x, y),
{
    let mut m: Vec<Vec<bool>> = Vec::new();
    let mut y: usize = 0;
    while y < SAMPLE_SIZE
        invariant
            y <= SAMPLE_SIZE,
            m@.len() == y,
            forall|r: int| 0 <= r < y ==> #[trigger] m@[r]@.len() == SAMPLE_SIZE,
            forall|r: int, x: int| 0 <= r < y && 0 <= x < SAMPLE_SIZE ==> #[trigger] m@[r]@[x] == sample_wall(x, r),
        decreases SAMPLE_SIZE - y,
    {
        let mut row: Vec<bool> = Vec::new();
        let mut x: usize = 0;
        while x < SAMPLE_SIZE
            invariant
                x <= SAMPLE_SIZE,
                y < SAMPLE_SIZE,
                row@.len() == x,
                forall|c: int| 0 <= c < x ==> #[trigger] row@[c] == sample_wall(c, y as int),
            decreases SAMPLE_SIZE - x,
        {
            row.push((y == 5 && 2 <= x && x < 18) || (x == 11 && 8 <= y && y < 18));
            x += 1;
        }
        m.push(row);
        y += 1;
    }
    m
}

/// The character of tile `(x, y)`: `@` at the viewer, `#` on a wall, `.` where it is in
/// view, a blank elsewhere.
pub open spec fn ascii_cell(origin: (int, int), walls: Seq<Vec<bool>>, visible: Set<(int, int)>, x: int, y: int) -> char {
    if (x, y) == origin {
        '@'
    } else if walls[y]@[x] {
        '#'
    } else if visible.contains((x, y)) {
        '.'
    } else {
        ' '
    }
}

/// Draws a view of the map `walls` (row `y` holds the tiles `(x, y)`), seen from `origin`,
/// as lines of characters from the top row (the largest `y`) down.
pub fn ascii_view(origin: (i32, i32), walls: &Vec<Vec<bool>>, visible: &PointSet) -> (lines: Vec<Vec<char>>)
    requires
        walls@.len() <= i32::MAX,
        forall|y: int| 0 <= y < walls@.len() ==> #[trigger] walls@[y]@.len() == walls@[0]@.len(),
        walls@.len() > 0 ==> walls@[0]@.len() <= i32::MAX,
    ensures
        lines@.len() == walls@.len(),
        forall|r: int| 0 <= r < lines@.len() ==> #[trigger] lines@[r]@.len() == walls@[walls@.len() - 1 - r]@.len(),
        forall|r: int, x: int|
            0 <= r < lines@.len() && 0 <= x < lines@[r]@.len() ==> #[trigger] lines@[r]@[x] == ascii_cell(
                (origin.0 as int, origin.1 as int),
                walls@,
                visible@,
                x,
                walls@.len() - 1 - r,
            ),
{
    let h = walls.len();
    let mut lines: Vec<Vec<char>> = Vec::new();
    let mut r: usize = 0;
    while r < h
        invariant
            h == walls@.len(),
            h <= i32::MAX,
            forall|y: int| 0 <= y < walls@.len() ==> #[trigger] walls@[y]@.len() == walls@[0]@.len(),
            h > 0 ==> walls@[0]@.len() <= i32::MAX,
            r <= h,
            lines@.len() == r,
            forall|k: int| 0 <= k < r ==> #[trigger] lines@[k]@.len() == walls@[h - 1 - k]@.len(),
            forall|k: int, x: int|
                0 <= k < r && 0 <= x < lines@[k]@.len() ==> #[trigger] lines@[k]@[x] == ascii_cell(
                    (origin.0 as int, origin.1 as int),
                    walls@,
                    visible@,
                    x,
                    h - 1 - k,
                ),
        decreases h - r,
    {
        let y = h - 1 - r;
        let w = walls[y].len();
        let mut line: Vec<char> = Vec::new();
        let mut x: usize = 0;
        while x < w
            invariant
                h == walls@.len(),
                y < h,
                h <= i32::MAX,
                w == walls@[y as int]@.len(),
                w <= i32::MAX,
                x <= w,
                line@.len() == x,
                forall|c: int| 0 <= c < x ==> #[trigger] line@[c] == ascii_cell(
                    (origin.0 as int, origin.1 as int),
                    walls@,
                    visible@,
                    c,
                    y as int,
                ),
            decreases w - x,
        {
            let ch = if x as i32 == origin.0 && y as i32 == origin.1 {
                '@'
            } else if walls[y][x] {
                '#'
            } else if visible.contains(&(x as i32, y as i32)) {
                '.'
            } else {
                ' '
            };
            line.push(ch);
            x += 1;
        }
        lines.push(line);
        r += 1;
    }
    lines
}

/// The sample map reaches past its edges as solid rock: a tile blocks sight there or
/// where a wall stands.
pub open spec fn sample_blocks(x: int, y: int) -> bool {
    x < 0 || y < 0 || x >= SAMPLE_SIZE || y >= SAMPLE_SIZE || sample_wall(x, y)
}

/// Whether tile `(x, y)` of the sample map blocks sight.
pub fn sample_opaque(x: i32, y: i32) -> (b: bool)
    ensures
        b == sample_blocks(x as int, y as int),
{
    x < 0 || y < 0 || x >= 20 || y >= 20 || (y == 5 && 2 <= x && x < 18) || (x == 11 && 8 <= y && y < 18)
}

/// The viewer of the sample map, in the middle of it.
pub const SAMPLE_VIEWER: (i32, i32) = (10, 10);

/// How far the viewer of the sample map sees.
pub const SAMPLE_RADIUS: i32 = 8;

/// The sample map as the viewer in its middle sees it, drawn in characters.
pub fn ascii_fov_demo() -> (lines: Vec<Vec<char>>)
    ensures
        lines@.len() == SAMPLE_SIZE,
        forall|r: int| 0 <= r < SAMPLE_SIZE ==> #[trigger] lines@[r]@.len() == SAMPLE_SIZE,
        forall|r: int, x: int|
            0 <= r < SAMPLE_SIZE && 0 <= x < SAMPLE_SIZE ==> #[trigger] lines@[r]@[x] == {
                let y = SAMPLE_SIZE - 1 - r;
                if (x, y) == (10int, 10int) {
                    '@'
                } else if sample_wall(x, y) {
                    '#'
                } else if fov_set((10, 10), SAMPLE_RADIUS as int, opacity(sample_opaque)).contains((x, y)) {
                    '.'
                } else {
                    ' '
                }
            },
{
    let walls = sample_walls();
    let visible = compute_fov(SAMPLE_VIEWER, SAMPLE_RADIUS, sample_opaque);
    ascii_view(SAMPLE_VIEWER, &walls, &visible)
}

} // verus!
