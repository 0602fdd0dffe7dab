//! Viewsheds computed by casting Bresenham rays over the game map.
use crate::components::{Position, Viewshed};
use crate::fov::{
    lemma_walk_bounds, lemma_walk_left_start, lemma_walk_next, lemma_walk_reaches, line_from,
    line_step, major_span, major_steps, span_x, span_y, walk_inv,
};
use crate::fov_lines::scale;
use crate::gamemap::GameMap;
use crate::point_set::PointSet;
use crate::typedefs::{CoordinateUnit, MyPoint};
use vstd::prelude::*;

verus! {

/// The largest sight range a viewshed may have.
pub const MAX_SIGHT_RANGE: CoordinateUnit = 32767;

/// Squared distance between two points.
pub open spec fn dist_sq(a: (int, int), b: (int, int)) -> int {
    (b.0 - a.0) * (b.0 - a.0) + (b.1 - a.1) * (b.1 - a.1)
}

/// The ray from `origin` to `target`: the Bresenham walk that steps on ties.
pub open spec fn ray_line(origin: (int, int), target: (int, int)) -> Seq<(int, int)> {
    let dx = span_x(origin, target);
    let dy = span_y(origin, target);
    let sx: int = if origin.0 < target.0 {
        1
    } else {
        -1
    };
    let sy: int = if origin.1 < target.1 {
        1
    } else {
        -1
    };
    line_from(origin.0, origin.1, dx - dy, target, dx, dy, sx, sy, true, major_span(dx, dy) as nat)
}

/// Whether a tile stops sight: it is off the map or holds furniture.
pub open spec fn blocks_sight(map: &GameMap, p: (int, int)) -> bool {
    !map.in_bounds(p) || map.cell(p).furniture is Some
}

/// The tiles that the ray sees from its `k`-th point on: each point within the range is seen,
/// and the ray stops after the first point past the origin that blocks sight, at its end, or
/// before the first point out of range.
pub open spec fn ray_seen(
    map: &GameMap,
    origin: (int, int),
    range: int,
    ray: Seq<(int, int)>,
    k: int,
) -> Set<(int, int)>
    decreases ray.len() - k,
{
    if k < 0 || k >= ray.len() {
        Set::empty()
    } else if dist_sq(origin, ray[k]) > range * range {
        Set::empty()
    } else if (k > 0 && blocks_sight(map, ray[k])) || k == ray.len() - 1 {
        Set::empty().insert(ray[k])
    } else {
        Set::empty().insert(ray[k]).union(ray_seen(map, origin, range, ray, k + 1))
    }
}

/// The tiles seen by the rays toward the points of the square perimeter at distance `range`
/// whose varying coordinate offset is at least `d`.
pub open spec fn perimeter_seen(map: &GameMap, origin: (int, int), range: int, d: int) -> Set<
    (int, int),
>
    decreases range + 1 - d,
{
    if d > range {
        Set::empty()
    } else {
        ray_seen(map, origin, range, ray_line(origin, (origin.0 + d, origin.1 - range)), 0).union(
            ray_seen(map, origin, range, ray_line(origin, (origin.0 + d, origin.1 + range)), 0),
        ).union(
            ray_seen(map, origin, range, ray_line(origin, (origin.0 - range, origin.1 + d)), 0),
        ).union(
            ray_seen(map, origin, range, ray_line(origin, (origin.0 + range, origin.1 + d)), 0),
        ).union(perimeter_seen(map, origin, range, d + 1))
    }
}

/// The tiles visible from `origin` within `range`: the origin and every tile that a ray
/// toward a point of the square perimeter at distance `range` sees.
pub open spec fn viewshed_tiles(map: &GameMap, origin: (int, int), range: int) -> Set<(int, int)> {
    Set::empty().insert(origin).union(perimeter_seen(map, origin, range, -range))
}

/// `origin` is far enough from the `i32` limits for rays of length `range`.
pub open spec fn sight_fits(origin: MyPoint, range: CoordinateUnit) -> bool {
    &&& range <= MAX_SIGHT_RANGE
    &&& i32::MIN + MAX_SIGHT_RANGE <= origin.0 <= i32::MAX - MAX_SIGHT_RANGE
    &&& i32::MIN + MAX_SIGHT_RANGE <= origin.1 <= i32::MAX - MAX_SIGHT_RANGE
}

/// Casts a single ray from `origin` to `target`, adding each traversed tile to `visible`.
/// Stops at a tile with furniture (which is seen), off the map, or out of range.
#[verifier::spinoff_prover]
#[verifier::rlimit(30)]
pub fn cast_ray(
    game_map: &GameMap,
    visible: &mut PointSet,
    origin: MyPoint,
    range: CoordinateUnit,
    target: MyPoint,
)
    requires
        game_map.wf(),
        0 <= range,
        sight_fits(origin, range),
        -range <= target.0 - origin.0 <= range,
        -range <= target.1 - origin.1 <= range,
    ensures
        final(visible)@ == old(visible)@.union(
            ray_seen(
                game_map,
                (origin.0 as int, origin.1 as int),
                range as int,
                ray_line((origin.0 as int, origin.1 as int), (target.0 as int, target.1 as int)),
                0,
            ),
        ),
{
    let ghost o = (origin.0 as int, origin.1 as int);
    let ghost t = (target.0 as int, target.1 as int);
    let ghost ray = ray_line(o, t);
    let (mut x, mut y) = origin;
    let (tx, ty) = target;
    let dx = if tx >= x {
        tx - x
    } else {
        x - tx
    };
    let dy = if ty >= y {
        -(ty - y)
    } else {
        -(y - ty)
    };
    let sx: CoordinateUnit = if x < tx {
        1
    } else {
        -1
    };
    let sy: CoordinateUnit = if y < ty {
        1
    } else {
        -1
    };
    let mut err = dx + dy;
    let ghost ady = -dy;
    let ghost mut i: int = 0;
    let ghost mut j: int = 0;
    assert(0 <= range * range <= MAX_SIGHT_RANGE * MAX_SIGHT_RANGE) by (nonlinear_arith)
        requires
            0 <= range <= MAX_SIGHT_RANGE,
    ;
    let range_sq = range * range;
    proof {
        lemma_walk_reaches(o, t, dx as int, ady, sx as int, sy as int, 0, 0, true);
        assert(sx * 0 == 0 && sy * 0 == 0) by (nonlinear_arith);
        assert(0 * dx - 0 * ady == 0) by (nonlinear_arith);
    }
    loop
        invariant
            game_map.wf(),
            0 <= range <= MAX_SIGHT_RANGE,
            sight_fits(origin, range),
            range_sq == range * range,
            -range <= target.0 - origin.0 <= range,
            -range <= target.1 - origin.1 <= range,
            o == (origin.0 as int, origin.1 as int),
            t == (target.0 as int, target.1 as int),
            ray == ray_line(o, t),
            tx == target.0,
            ty == target.1,
            dx == span_x(o, t),
            ady == span_y(o, t),
            dy == -ady,
            sx == (if o.0 < t.0 {
                1int
            } else {
                -1int
            }),
            sy == (if o.1 < t.1 {
                1int
            } else {
                -1int
            }),
            walk_inv(dx as int, ady, i, j),
            x == o.0 + sx * i,
            y == o.1 + sy * j,
            err == dx - ady + (j * dx - i * ady),
            ray.len() == major_span(dx as int, ady) + 1,
            ray.last() == t,
            line_from(
                x as int,
                y as int,
                err as int,
                t,
                dx as int,
                ady,
                sx as int,
                sy as int,
                true,
                (major_span(dx as int, ady) - major_steps(dx as int, ady, i, j)) as nat,
            ) == ray.subrange(major_steps(dx as int, ady, i, j), ray.len() as int),
            visible@.union(
                ray_seen(game_map, o, range as int, ray, major_steps(dx as int, ady, i, j)),
            ) == old(visible)@.union(ray_seen(game_map, o, range as int, ray, 0)),
        ensures
            visible@ == old(visible)@.union(ray_seen(game_map, o, range as int, ray, 0)),
        decreases major_span(dx as int, ady) - major_steps(dx as int, ady, i, j),
    {
        let ghost k = major_steps(dx as int, ady, i, j);
        let ghost rest = line_from(
            x as int,
            y as int,
            err as int,
            t,
            dx as int,
            ady,
            sx as int,
            sy as int,
            true,
            (major_span(dx as int, ady) - k) as nat,
        );
        let ghost before = visible@;
        let ghost px = x as int;
        let ghost py = y as int;
        proof {
            lemma_walk_reaches(o, t, dx as int, ady, sx as int, sy as int, i, j, true);
            lemma_walk_bounds(o, t, dx as int, ady, sx as int, sy as int, i, j);
            assert(rest[0] == ray[k]);
            assert(rest[0] == (px, py));
        }
        let ox = x - origin.0;
        let oy = y - origin.1;
        assert(0 <= ox * ox <= MAX_SIGHT_RANGE * MAX_SIGHT_RANGE) by (nonlinear_arith)
            requires
                -MAX_SIGHT_RANGE <= ox <= MAX_SIGHT_RANGE,
        ;
        assert(0 <= oy * oy <= MAX_SIGHT_RANGE * MAX_SIGHT_RANGE) by (nonlinear_arith)
            requires
                -MAX_SIGHT_RANGE <= oy <= MAX_SIGHT_RANGE,
        ;
        let dist_sq = ox * ox + oy * oy;
        if dist_sq > range_sq {
            proof {
                assert(ray_seen(game_map, o, range as int, ray, k) =~= Set::empty());
                assert(visible@ =~= visible@.union(
                    ray_seen(game_map, o, range as int, ray, k),
                ));
            }
            break;
        }
        visible.insert((x, y));
        let mut stop = false;
        if x != origin.0 || y != origin.1 {
            match game_map.get_voxel_at(&(x, y)) {
                Some(voxel) => {
                    if voxel.furniture.is_some() {
                        stop = true;
                    }
                },
                None => {
                    stop = true;
                },
            }
        }
        proof {
            if k > 0 {
                lemma_walk_left_start(dx as int, ady, sx as int, sy as int, i, j);
            }
            assert(stop == (k > 0 && blocks_sight(game_map, ray[k])));
        }
        if stop {
            proof {
                assert(ray_seen(game_map, o, range as int, ray, k) =~= Set::empty().insert(ray[k]));
                assert(visible@ =~= before.union(ray_seen(game_map, o, range as int, ray, k)));
            }
            break;
        }
        if x == tx && y == ty {
            proof {
                assert(rest.len() == 1);
                assert(k == ray.len() - 1);
                assert(ray_seen(game_map, o, range as int, ray, k) =~= Set::empty().insert(ray[k]));
                assert(visible@ =~= before.union(ray_seen(game_map, o, range as int, ray, k)));
            }
            break;
        }
        proof {
            if k == major_span(dx as int, ady) {
                crate::fov::lemma_walk_end(dx as int, ady, i, j);
                assert(sx * i == sx * dx && sy * j == sy * ady);
            }
            assert(k < ray.len() - 1);
            lemma_walk_next(o, t, dx as int, ady, sx as int, sy as int, i, j, true);
            assert(ray_seen(game_map, o, range as int, ray, k) == Set::empty().insert(ray[k]).union(
                ray_seen(game_map, o, range as int, ray, k + 1),
            ));
        }
        let ghost n = line_step(px, py, err as int, dx as int, ady, sx as int, sy as int, true);
        let e2 = 2 * err;
        if e2 >= dy {
            err += dy;
            proof {
                i = i + 1;
                lemma_walk_bounds(o, t, dx as int, ady, sx as int, sy as int, i, j);
            }
            x += sx;
        }
        if e2 <= dx {
            err += dx;
            proof {
                j = j + 1;
                lemma_walk_bounds(o, t, dx as int, ady, sx as int, sy as int, i, j);
            }
            y += sy;
        }
        proof {
            assert((x as int, y as int, err as int) == n);
            assert(rest.subrange(1, rest.len() as int) =~= ray.subrange(k + 1, ray.len() as int));
            assert(visible@.union(ray_seen(game_map, o, range as int, ray, k + 1)) =~= before.union(
                ray_seen(game_map, o, range as int, ray, k),
            ));
        }
    }
}

/// Recomputes the visible tiles of a dirty viewshed at `pos`: rays are cast to every point
/// of the square perimeter at distance `range`, the position itself is always visible, and
/// the viewshed is marked clean. A clean viewshed is left as it is.
pub fn visibility_system(game_map: &GameMap, pos: &Position, viewshed: &mut Viewshed)
    requires
        game_map.wf(),
        sight_fits((pos.x, pos.y), old(viewshed).range),
        old(viewshed).range > i32::MIN,
    ensures
        final(viewshed).range == old(viewshed).range,
        final(viewshed).revealed_tiles@ == old(viewshed).revealed_tiles@,
        !old(viewshed).dirty ==> final(viewshed).visible_tiles@ == old(viewshed).visible_tiles@
            && final(viewshed).dirty == old(viewshed).dirty,
        old(viewshed).dirty ==> final(viewshed).visible_tiles@ == viewshed_tiles(
            game_map,
            (pos.x as int, pos.y as int),
            old(viewshed).range as int,
        ) && !final(viewshed).dirty,
{
    if !viewshed.dirty {
        return;
    }
    viewshed.visible_tiles.clear();
    let origin = (pos.x, pos.y);
    let range = viewshed.range;
    let ghost o = (pos.x as int, pos.y as int);
    let mut dx = -range;
    while dx <= range
        invariant
            game_map.wf(),
            sight_fits(origin, range),
            o == (origin.0 as int, origin.1 as int),
            -range <= dx <= range + 1 || range < 0,
            range < 0 ==> dx == -range,
            viewshed.range == range,
            viewshed.revealed_tiles@ == old(viewshed).revealed_tiles@,
            viewshed.visible_tiles@.union(perimeter_seen(game_map, o, range as int, dx as int))
                == perimeter_seen(game_map, o, range as int, -range),
        decreases range + 1 - dx,
    {
        let ghost before = viewshed.visible_tiles@;
        cast_ray(game_map, &mut viewshed.visible_tiles, origin, range, (origin.0 + dx, origin.1 - range));
        cast_ray(game_map, &mut viewshed.visible_tiles, origin, range, (origin.0 + dx, origin.1 + range));
        cast_ray(game_map, &mut viewshed.visible_tiles, origin, range, (origin.0 - range, origin.1 + dx));
        cast_ray(game_map, &mut viewshed.visible_tiles, origin, range, (origin.0 + range, origin.1 + dx));
        proof {
            assert(viewshed.visible_tiles@.union(
                perimeter_seen(game_map, o, range as int, dx + 1),
            ) =~= before.union(perimeter_seen(game_map, o, range as int, dx as int)));
        }
        dx += 1;
    }
    proof {
        if range >= 0 {
            assert(perimeter_seen(game_map, o, range as int, dx as int) =~= Set::empty());
        } else {
            assert(perimeter_seen(game_map, o, range as int, -range) =~= Set::empty());
            assert(viewshed.visible_tiles@ =~= Set::empty());
        }
    }
    viewshed.visible_tiles.insert(origin);
    viewshed.dirty = false;
    proof {
        assert(viewshed.visible_tiles@ =~= viewshed_tiles(game_map, o, range as int));
    }
}

proof fn lemma_ray_within(
    map: &GameMap,
    origin: (int, int),
    range: int,
    ray: Seq<(int, int)>,
    k: int,
)
    ensures
        forall|p: (int, int)| #[trigger]
            ray_seen(map, origin, range, ray, k).contains(p) ==> dist_sq(origin, p) <= range
                * range,
    decreases ray.len() - k,
{
    let seen = ray_seen(map, origin, range, ray, k);
    if k < 0 || k >= ray.len() || dist_sq(origin, ray[k]) > range * range {
        assert(seen =~= Set::empty());
    } else if (k > 0 && blocks_sight(map, ray[k])) || k == ray.len() - 1 {
        assert(seen =~= Set::empty().insert(ray[k]));
    } else {
        lemma_ray_within(map, origin, range, ray, k + 1);
        assert(seen == Set::empty().insert(ray[k]).union(
            ray_seen(map, origin, range, ray, k + 1),
        ));
    }
}

proof fn lemma_perimeter_within(map: &GameMap, origin: (int, int), range: int, d: int)
    ensures
        forall|p: (int, int)| #[trigger]
            perimeter_seen(map, origin, range, d).contains(p) ==> dist_sq(origin, p) <= range
                * range,
    decreases range + 1 - d,
{
    if d <= range {
        lemma_ray_within(map, origin, range, ray_line(origin, (origin.0 + d, origin.1 - range)), 0);
        lemma_ray_within(map, origin, range, ray_line(origin, (origin.0 + d, origin.1 + range)), 0);
        lemma_ray_within(map, origin, range, ray_line(origin, (origin.0 - range, origin.1 + d)), 0);
        lemma_ray_within(map, origin, range, ray_line(origin, (origin.0 + range, origin.1 + d)), 0);
        lemma_perimeter_within(map, origin, range, d + 1);
        let a = ray_seen(map, origin, range, ray_line(origin, (origin.0 + d, origin.1 - range)), 0);
        let b = ray_seen(map, origin, range, ray_line(origin, (origin.0 + d, origin.1 + range)), 0);
        let c = ray_seen(map, origin, range, ray_line(origin, (origin.0 - range, origin.1 + d)), 0);
        let e = ray_seen(map, origin, range, ray_line(origin, (origin.0 + range, origin.1 + d)), 0);
        let rest = perimeter_seen(map, origin, range, d + 1);
        assert(perimeter_seen(map, origin, range, d) == a.union(b).union(c).union(e).union(rest));
        assert forall|p: (int, int)| #[trigger]
            perimeter_seen(map, origin, range, d).contains(p) implies dist_sq(origin, p) <= range
                * range by {
            if a.contains(p) {
            } else if b.contains(p) {
            } else if c.contains(p) {
            } else if e.contains(p) {
            } else {
                assert(rest.contains(p));
            }
        }
    } else {
        assert(perimeter_seen(map, origin, range, d) =~= Set::empty());
    }
}

/// A viewshed always contains its own position, and every other tile in it lies within the
/// sight range (by Euclidean distance).
pub proof fn lemma_viewshed_within_range(map: &GameMap, origin: (int, int), range: int)
    ensures
        viewshed_tiles(map, origin, range).contains(origin),
        forall|p: (int, int)| #[trigger]
            viewshed_tiles(map, origin, range).contains(p) ==> p == origin || dist_sq(origin, p)
                <= range * range,
{
    lemma_perimeter_within(map, origin, range, -range);
}

/// A walk along a row, a column or a diagonal takes one unit step `(ax, ay)` each time.
proof fn lemma_straight_walk(
    x: int,
    y: int,
    err: int,
    dx: int,
    dy: int,
    sx: int,
    sy: int,
    ax: int,
    ay: int,
    n: nat,
)
    requires
        sx == 1 || sx == -1,
        sy == 1 || sy == -1,
        (dx == 0 && dy > 0 && err == -dy && ax == 0 && ay == sy) || (dx > 0 && dy == dx && err == 0
            && ax == sx && ay == sy) || (dx > 0 && dy == 0 && err == dx && ax == sx && ay == 0),
    ensures
        ({
            let line = line_from(x, y, err, (x + scale(n as int, ax), y + scale(n as int, ay)), dx, dy, sx, sy, true, n);
            &&& line.len() == n + 1
            &&& forall|k: int| 0 <= k <= n ==> #[trigger] line[k] == (x + scale(k, ax), y + scale(k, ay))
        }),
    decreases n,
{
    let to = (x + scale(n as int, ax), y + scale(n as int, ay));
    let line = line_from(x, y, err, to, dx, dy, sx, sy, true, n);
    if n == 0 {
        assert(line == seq![(x, y)]);
    } else {
        assert((x, y) != to);
        let st = line_step(x, y, err, dx, dy, sx, sy, true);
        assert(st == (x + ax, y + ay, err));
        let m = (n - 1) as nat;
        lemma_straight_walk(x + ax, y + ay, err, dx, dy, sx, sy, ax, ay, m);
        assert((x + ax + scale(m as int, ax), y + ay + scale(m as int, ay)) == to);
        let rest = line_from(x + ax, y + ay, err, to, dx, dy, sx, sy, true, m);
        assert(line == seq![(x, y)] + rest);
        assert forall|k: int| 0 <= k <= n implies #[trigger] line[k] == (x + scale(k, ax), y + scale(k, ay)) by {
            if k > 0 {
                assert(line[k] == rest[k - 1]);
            }
        }
    }
}

/// A ray sees its `k`-th point when every point from `j` to it is within the range and none
/// before it past the origin blocks sight.
proof fn lemma_ray_sees(map: &GameMap, origin: (int, int), range: int, ray: Seq<(int, int)>, j: int, k: int)
    requires
        0 <= j <= k < ray.len(),
        forall|m: int| j <= m <= k ==> dist_sq(origin, #[trigger] ray[m]) <= range * range,
        forall|m: int| j <= m < k && m > 0 ==> !blocks_sight(map, #[trigger] ray[m]),
    ensures
        ray_seen(map, origin, range, ray, j).contains(ray[k]),
    decreases k - j,
{
    assert(dist_sq(origin, ray[j]) <= range * range);
    if j < k {
        assert(!(j > 0 && blocks_sight(map, ray[j])));
        lemma_ray_sees(map, origin, range, ray, j + 1, k);
    }
}

/// The perimeter rays from offset `d0` on include those at every offset `d` up to `range`.
proof fn lemma_perimeter_has(map: &GameMap, origin: (int, int), range: int, d0: int, d: int, p: (int, int))
    requires
        d0 <= d <= range,
        ray_seen(map, origin, range, ray_line(origin, (origin.0 + d, origin.1 - range)), 0).contains(p)
            || ray_seen(map, origin, range, ray_line(origin, (origin.0 + d, origin.1 + range)), 0).contains(p)
            || ray_seen(map, origin, range, ray_line(origin, (origin.0 - range, origin.1 + d)), 0).contains(p)
            || ray_seen(map, origin, range, ray_line(origin, (origin.0 + range, origin.1 + d)), 0).contains(p),
    ensures
        perimeter_seen(map, origin, range, d0).contains(p),
    decreases d - d0,
{
    if d0 < d {
        lemma_perimeter_has(map, origin, range, d0 + 1, d, p);
    }
}

/// Along a row, a column or a diagonal through the origin, in each of the eight directions,
/// a tile within the sight range (by Euclidean distance) is in view whenever no tile between
/// it and the origin stops sight (is off the map or holds furniture); the tile itself may stop
/// sight and is still seen. So on a bare map every such tile within range is in view.
pub proof fn lemma_open_viewshed_sees_straight_lines(
    map: &GameMap,
    origin: (int, int),
    range: int,
    ux: int,
    uy: int,
    k: int,
)
    requires
        range >= 0,
        -1 <= ux <= 1,
        -1 <= uy <= 1,
        k >= 0,
        dist_sq(origin, (origin.0 + scale(k, ux), origin.1 + scale(k, uy))) <= range * range,
        forall|m: int|
            1 <= m < k ==> !#[trigger] blocks_sight(map, (origin.0 + scale(m, ux), origin.1 + scale(m, uy))),
    ensures
        viewshed_tiles(map, origin, range).contains((origin.0 + scale(k, ux), origin.1 + scale(k, uy))),
{
    let q = (origin.0 + scale(k, ux), origin.1 + scale(k, uy));
    if k == 0 || (ux == 0 && uy == 0) {
        assert(q == origin);
    } else {
        assert(k * k <= range * range) by (nonlinear_arith)
            requires
                dist_sq(origin, q) <= range * range,
                q == (origin.0 + scale(k, ux), origin.1 + scale(k, uy)),
                ux != 0 || uy != 0,
                -1 <= ux <= 1,
                -1 <= uy <= 1,
        ;
        assert(k <= range) by (nonlinear_arith)
            requires
                k * k <= range * range,
                k >= 0,
                range >= 0,
        ;
        let t = (origin.0 + scale(range, ux), origin.1 + scale(range, uy));
        let dx = span_x(origin, t);
        let dy = span_y(origin, t);
        let sx: int = if origin.0 < t.0 { 1 } else { -1 };
        let sy: int = if origin.1 < t.1 { 1 } else { -1 };
        assert(major_span(dx, dy) == range);
        lemma_straight_walk(origin.0, origin.1, dx - dy, dx, dy, sx, sy, ux, uy, range as nat);
        let ray = ray_line(origin, t);
        assert(ray == line_from(origin.0, origin.1, dx - dy, t, dx, dy, sx, sy, true, range as nat));
        assert(ray[k] == q);
        assert forall|m: int| 0 <= m <= k implies dist_sq(origin, #[trigger] ray[m]) <= range * range by {
            assert(ray[m] == (origin.0 + scale(m, ux), origin.1 + scale(m, uy)));
            assert(dist_sq(origin, ray[m]) <= dist_sq(origin, q)) by (nonlinear_arith)
                requires
                    ray[m] == (origin.0 + scale(m, ux), origin.1 + scale(m, uy)),
                    q == (origin.0 + scale(k, ux), origin.1 + scale(k, uy)),
                    0 <= m <= k,
                    -1 <= ux <= 1,
                    -1 <= uy <= 1,
            ;
        }
        assert forall|m: int| 0 <= m < k && m > 0 implies !blocks_sight(map, #[trigger] ray[m]) by {
            assert(ray[m] == (origin.0 + scale(m, ux), origin.1 + scale(m, uy)));
        }
        lemma_ray_sees(map, origin, range, ray, 0, k);
        if uy == -1 {
            lemma_perimeter_has(map, origin, range, -range, scale(range, ux), q);
        } else if uy == 1 {
            lemma_perimeter_has(map, origin, range, -range, scale(range, ux), q);
        } else {
            lemma_perimeter_has(map, origin, range, -range, 0, q);
        }
    }
}

} // verus!
