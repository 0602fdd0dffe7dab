//! The viewshed of ray casting is as symmetric as the map around it: mirroring the map
//! top to bottom, or across the diagonal, through the viewer mirrors what it sees.
use crate::fov::{line_from, line_step, major_span, span_x, span_y, steps_x, steps_y};
use crate::gamemap::GameMap;
use crate::systems::visibility::{blocks_sight, dist_sq, perimeter_seen, ray_line, ray_seen, viewshed_tiles};
use vstd::prelude::*;

verus! {

/// `p` mirrored top to bottom through the row of `o`.
pub open spec fn flip_y(o: (int, int), p: (int, int)) -> (int, int) {
    (p.0, 2 * o.1 - p.1)
}

/// `p` mirrored across the diagonal through `o` (its offsets from `o` swapped).
pub open spec fn swap_xy(o: (int, int), p: (int, int)) -> (int, int) {
    (o.0 + (p.1 - o.1), o.1 + (p.0 - o.0))
}

/// Mirroring a walk top to bottom mirrors each of its points.
proof fn lemma_flip_walk(
    o: (int, int),
    x: int,
    y: int,
    err: int,
    to: (int, int),
    dx: int,
    dy: int,
    sx: int,
    sy: int,
    sy2: int,
    fuel: nat,
)
    requires
        sy2 == -sy || (dy == 0 && y == o.1 && err == dx && (dx > 0 || (x, y) == to)),
    ensures
        line_from(x, 2 * o.1 - y, err, flip_y(o, to), dx, dy, sx, sy2, true, fuel) == line_from(
            x,
            y,
            err,
            to,
            dx,
            dy,
            sx,
            sy,
            true,
            fuel,
        ).map_values(|p: (int, int)| flip_y(o, p)),
    decreases fuel,
{
    let a = line_from(x, 2 * o.1 - y, err, flip_y(o, to), dx, dy, sx, sy2, true, fuel);
    let b = line_from(x, y, err, to, dx, dy, sx, sy, true, fuel);
    assert(((x, 2 * o.1 - y) == flip_y(o, to)) == ((x, y) == to));
    if (x, y) == to || fuel == 0 {
        assert(a =~= b.map_values(|p: (int, int)| flip_y(o, p)));
    } else {
        let n = line_step(x, y, err, dx, dy, sx, sy, true);
        let n2 = line_step(x, 2 * o.1 - y, err, dx, dy, sx, sy2, true);
        if sy2 == -sy {
            assert(n2 == (n.0, 2 * o.1 - n.1, n.2));
        } else {
            assert(!steps_y(err, dx, true));
            assert(n == (n.0, y, err));
            assert(n2 == (n.0, y, err));
        }
        lemma_flip_walk(o, n.0, n.1, n.2, to, dx, dy, sx, sy, sy2, (fuel - 1) as nat);
        let ra = line_from(n2.0, n2.1, n2.2, flip_y(o, to), dx, dy, sx, sy2, true, (fuel - 1) as nat);
        let rb = line_from(n.0, n.1, n.2, to, dx, dy, sx, sy, true, (fuel - 1) as nat);
        assert(a == seq![(x, 2 * o.1 - y)] + ra);
        assert(b == seq![(x, y)] + rb);
        assert(a =~= b.map_values(|p: (int, int)| flip_y(o, p)));
    }
}

/// The ray toward a mirrored target is the mirrored ray.
proof fn lemma_flip_ray(o: (int, int), t: (int, int))
    ensures
        ray_line(o, flip_y(o, t)) == ray_line(o, t).map_values(|p: (int, int)| flip_y(o, p)),
{
    let dx = span_x(o, t);
    let dy = span_y(o, t);
    let sx: int = if o.0 < t.0 { 1 } else { -1 };
    let sy: int = if o.1 < t.1 { 1 } else { -1 };
    let sy2: int = if o.1 < flip_y(o, t).1 { 1 } else { -1 };
    assert(span_x(o, flip_y(o, t)) == dx);
    assert(span_y(o, flip_y(o, t)) == dy);
    assert(o == (o.0, 2 * o.1 - o.1));
    lemma_flip_walk(o, o.0, o.1, dx - dy, t, dx, dy, sx, sy, sy2, major_span(dx, dy) as nat);
}

/// Mirroring a walk across the diagonal mirrors each of its points.
proof fn lemma_swap_walk(
    o: (int, int),
    x: int,
    y: int,
    err: int,
    to: (int, int),
    dx: int,
    dy: int,
    sx: int,
    sy: int,
    fuel: nat,
)
    ensures
        line_from(
            swap_xy(o, (x, y)).0,
            swap_xy(o, (x, y)).1,
            -err,
            swap_xy(o, to),
            dy,
            dx,
            sy,
            sx,
            true,
            fuel,
        ) == line_from(x, y, err, to, dx, dy, sx, sy, true, fuel).map_values(|p: (int, int)| swap_xy(o, p)),
    decreases fuel,
{
    let s = swap_xy(o, (x, y));
    let a = line_from(s.0, s.1, -err, swap_xy(o, to), dy, dx, sy, sx, true, fuel);
    let b = line_from(x, y, err, to, dx, dy, sx, sy, true, fuel);
    assert(((s.0, s.1) == swap_xy(o, to)) == ((x, y) == to));
    if (x, y) == to || fuel == 0 {
        assert(a =~= b.map_values(|p: (int, int)| swap_xy(o, p)));
    } else {
        let n = line_step(x, y, err, dx, dy, sx, sy, true);
        let n2 = line_step(s.0, s.1, -err, dy, dx, sy, sx, true);
        assert(steps_x(-err, dx, true) == steps_y(err, dx, true));
        assert(steps_y(-err, dy, true) == steps_x(err, dy, true));
        assert(n2 == (swap_xy(o, (n.0, n.1)).0, swap_xy(o, (n.0, n.1)).1, -n.2));
        lemma_swap_walk(o, n.0, n.1, n.2, to, dx, dy, sx, sy, (fuel - 1) as nat);
        let ra = line_from(n2.0, n2.1, n2.2, swap_xy(o, to), dy, dx, sy, sx, true, (fuel - 1) as nat);
        let rb = line_from(n.0, n.1, n.2, to, dx, dy, sx, sy, true, (fuel - 1) as nat);
        assert(a == seq![(s.0, s.1)] + ra);
        assert(b == seq![(x, y)] + rb);
        assert(a =~= b.map_values(|p: (int, int)| swap_xy(o, p)));
    }
}

/// The ray toward a target mirrored across the diagonal is the mirrored ray.
proof fn lemma_swap_ray(o: (int, int), t: (int, int))
    ensures
        ray_line(o, swap_xy(o, t)) == ray_line(o, t).map_values(|p: (int, int)| swap_xy(o, p)),
{
    let dx = span_x(o, t);
    let dy = span_y(o, t);
    let sx: int = if o.0 < t.0 { 1 } else { -1 };
    let sy: int = if o.1 < t.1 { 1 } else { -1 };
    assert(swap_xy(o, o) == o);
    assert(major_span(dy, dx) == major_span(dx, dy));
    lemma_swap_walk(o, o.0, o.1, dx - dy, t, dx, dy, sx, sy, major_span(dx, dy) as nat);
    assert(-(dx - dy) == dy - dx);
}

/// A ray mirrored by a map `g` of the plane that keeps distances from `o`, is one to one, and
/// under which sight is stopped alike within the range, sees the mirrored tiles.
proof fn lemma_mirror_ray_seen(
    map: &GameMap,
    o: (int, int),
    r: int,
    ray: Seq<(int, int)>,
    g: spec_fn((int, int)) -> (int, int),
    k: int,
    p: (int, int),
)
    requires
        forall|q: (int, int)| #[trigger] dist_sq(o, g(q)) == dist_sq(o, q),
        forall|q: (int, int)|
            dist_sq(o, q) <= r * r ==> #[trigger] blocks_sight(map, g(q)) == blocks_sight(map, q),
        forall|q1: (int, int), q2: (int, int)| #[trigger] g(q1) == #[trigger] g(q2) ==> q1 == q2,
    ensures
        ray_seen(map, o, r, ray.map_values(g), k).contains(g(p)) <==> ray_seen(map, o, r, ray, k).contains(p),
    decreases ray.len() - k,
{
    let m = ray.map_values(g);
    if 0 <= k < ray.len() {
        assert(m[k] == g(ray[k]));
        assert(dist_sq(o, g(ray[k])) == dist_sq(o, ray[k]));
        if dist_sq(o, ray[k]) <= r * r {
            assert(blocks_sight(map, g(ray[k])) == blocks_sight(map, ray[k]));
        }
        assert(g(p) == g(ray[k]) <==> p == ray[k]);
        lemma_mirror_ray_seen(map, o, r, ray, g, k + 1, p);
    }
}

/// The target of the perimeter ray on side `side` (top, bottom, left, right) at offset `d`.
pub open spec fn side_target(o: (int, int), r: int, side: int, d: int) -> (int, int) {
    if side == 0 {
        (o.0 + d, o.1 - r)
    } else if side == 1 {
        (o.0 + d, o.1 + r)
    } else if side == 2 {
        (o.0 - r, o.1 + d)
    } else {
        (o.0 + r, o.1 + d)
    }
}

/// A tile is seen by the perimeter rays from offset `d0` on exactly when one ray at an offset
/// from `d0` to `r` sees it.
proof fn lemma_perimeter_member(map: &GameMap, o: (int, int), r: int, d0: int, p: (int, int))
    ensures
        perimeter_seen(map, o, r, d0).contains(p) <==> exists|side: int, d: int|
            0 <= side < 4 && d0 <= d <= r && #[trigger] ray_seen(
                map,
                o,
                r,
                ray_line(o, side_target(o, r, side, d)),
                0,
            ).contains(p),
    decreases r + 1 - d0,
{
    if d0 <= r {
        lemma_perimeter_member(map, o, r, d0 + 1, p);
        if exists|side: int, d: int|
            0 <= side < 4 && d0 <= d <= r && #[trigger] ray_seen(
                map,
                o,
                r,
                ray_line(o, side_target(o, r, side, d)),
                0,
            ).contains(p) {
            let (side, d) = choose|side: int, d: int|
                0 <= side < 4 && d0 <= d <= r && #[trigger] ray_seen(
                    map,
                    o,
                    r,
                    ray_line(o, side_target(o, r, side, d)),
                    0,
                ).contains(p);
            if d > d0 {
                assert(ray_seen(map, o, r, ray_line(o, side_target(o, r, side, d)), 0).contains(p));
            }
        }
        if perimeter_seen(map, o, r, d0).contains(p) && !perimeter_seen(map, o, r, d0 + 1).contains(p) {
            if ray_seen(map, o, r, ray_line(o, side_target(o, r, 0, d0)), 0).contains(p) {
            } else if ray_seen(map, o, r, ray_line(o, side_target(o, r, 1, d0)), 0).contains(p) {
            } else if ray_seen(map, o, r, ray_line(o, side_target(o, r, 2, d0)), 0).contains(p) {
            } else {
                assert(ray_seen(map, o, r, ray_line(o, side_target(o, r, 3, d0)), 0).contains(p));
            }
        }
    } else {
        assert(perimeter_seen(map, o, r, d0) =~= Set::empty());
    }
}

/// A tile of the viewshed mirrored top to bottom through the viewer is in the viewshed,
/// when sight is stopped alike at mirrored tiles within the range.
proof fn lemma_flip_one(map: &GameMap, o: (int, int), r: int, p: (int, int))
    requires
        forall|q: (int, int)|
            dist_sq(o, q) <= r * r ==> #[trigger] blocks_sight(map, flip_y(o, q)) == blocks_sight(map, q),
        viewshed_tiles(map, o, r).contains(p),
    ensures
        viewshed_tiles(map, o, r).contains(flip_y(o, p)),
{
    let g = |q: (int, int)| flip_y(o, q);
    if p != o {
        lemma_perimeter_member(map, o, r, -r, p);
        let (side, d) = choose|side: int, d: int|
            0 <= side < 4 && -r <= d <= r && #[trigger] ray_seen(
                map,
                o,
                r,
                ray_line(o, side_target(o, r, side, d)),
                0,
            ).contains(p);
        let t = side_target(o, r, side, d);
        let side2: int = if side == 0 { 1 } else if side == 1 { 0 } else { side };
        let d2: int = if side < 2 { d } else { -d };
        assert(flip_y(o, t) == side_target(o, r, side2, d2));
        lemma_flip_ray(o, t);
        assert forall|q: (int, int)| #[trigger] dist_sq(o, g(q)) == dist_sq(o, q) by {
            assert((2 * o.1 - q.1 - o.1) * (2 * o.1 - q.1 - o.1) == (q.1 - o.1) * (q.1 - o.1)) by (nonlinear_arith);
        }
        assert forall|q: (int, int)|
            dist_sq(o, q) <= r * r implies #[trigger] blocks_sight(map, g(q)) == blocks_sight(map, q) by {
            assert(g(q) == flip_y(o, q));
        }
        assert forall|q1: (int, int), q2: (int, int)| #[trigger] g(q1) == #[trigger] g(q2) implies q1 == q2 by {
        }
        lemma_mirror_ray_seen(map, o, r, ray_line(o, t), g, 0, p);
        assert(ray_line(o, flip_y(o, t)) == ray_line(o, t).map_values(g));
        lemma_perimeter_member(map, o, r, -r, flip_y(o, p));
        assert(ray_seen(map, o, r, ray_line(o, side_target(o, r, side2, d2)), 0).contains(flip_y(o, p)));
    }
}

/// A tile of the viewshed mirrored across the diagonal through the viewer is in the
/// viewshed, when sight is stopped alike at mirrored tiles within the range.
proof fn lemma_swap_one(map: &GameMap, o: (int, int), r: int, p: (int, int))
    requires
        forall|q: (int, int)|
            dist_sq(o, q) <= r * r ==> #[trigger] blocks_sight(map, swap_xy(o, q)) == blocks_sight(map, q),
        viewshed_tiles(map, o, r).contains(p),
    ensures
        viewshed_tiles(map, o, r).contains(swap_xy(o, p)),
{
    let g = |q: (int, int)| swap_xy(o, q);
    if p != o {
        lemma_perimeter_member(map, o, r, -r, p);
        let (side, d) = choose|side: int, d: int|
            0 <= side < 4 && -r <= d <= r && #[trigger] ray_seen(
                map,
                o,
                r,
                ray_line(o, side_target(o, r, side, d)),
                0,
            ).contains(p);
        let t = side_target(o, r, side, d);
        let side2: int = if side == 0 { 2 } else if side == 1 { 3 } else if side == 2 { 0 } else { 1 };
        assert(swap_xy(o, t) == side_target(o, r, side2, d));
        lemma_swap_ray(o, t);
        assert forall|q: (int, int)| #[trigger] dist_sq(o, g(q)) == dist_sq(o, q) by {
        }
        assert forall|q: (int, int)|
            dist_sq(o, q) <= r * r implies #[trigger] blocks_sight(map, g(q)) == blocks_sight(map, q) by {
            assert(g(q) == swap_xy(o, q));
        }
        assert forall|q1: (int, int), q2: (int, int)| #[trigger] g(q1) == #[trigger] g(q2) implies q1 == q2 by {
        }
        lemma_mirror_ray_seen(map, o, r, ray_line(o, t), g, 0, p);
        assert(ray_line(o, swap_xy(o, t)) == ray_line(o, t).map_values(g));
        lemma_perimeter_member(map, o, r, -r, swap_xy(o, p));
        assert(ray_seen(map, o, r, ray_line(o, side_target(o, r, side2, d)), 0).contains(swap_xy(o, p)));
    }
}

/// Mirroring the map top to bottom through the viewer mirrors its viewshed: when sight is
/// stopped alike at every tile within the range and at its mirror image, a tile is in view
/// exactly when its mirror image is.
pub proof fn lemma_viewshed_mirrors_top_to_bottom(map: &GameMap, o: (int, int), r: int, p: (int, int))
    requires
        forall|q: (int, int)|
            dist_sq(o, q) <= r * r ==> #[trigger] blocks_sight(map, flip_y(o, q)) == blocks_sight(map, q),
    ensures
        viewshed_tiles(map, o, r).contains(p) <==> viewshed_tiles(map, o, r).contains(flip_y(o, p)),
{
    if viewshed_tiles(map, o, r).contains(p) {
        lemma_flip_one(map, o, r, p);
    }
    if viewshed_tiles(map, o, r).contains(flip_y(o, p)) {
        lemma_flip_one(map, o, r, flip_y(o, p));
        assert(flip_y(o, flip_y(o, p)) == p);
    }
}

/// Mirroring the map across the diagonal through the viewer mirrors its viewshed: when sight
/// is stopped alike at every tile within the range and at its mirror image, a tile is in view
/// exactly when its mirror image is.
pub proof fn lemma_viewshed_mirrors_across_diagonal(map: &GameMap, o: (int, int), r: int, p: (int, int))
    requires
        forall|q: (int, int)|
            dist_sq(o, q) <= r * r ==> #[trigger] blocks_sight(map, swap_xy(o, q)) == blocks_sight(map, q),
    ensures
        viewshed_tiles(map, o, r).contains(p) <==> viewshed_tiles(map, o, r).contains(swap_xy(o, p)),
{
    if viewshed_tiles(map, o, r).contains(p) {
        lemma_swap_one(map, o, r, p);
    }
    if viewshed_tiles(map, o, r).contains(swap_xy(o, p)) {
        lemma_swap_one(map, o, r, swap_xy(o, p));
        assert(swap_xy(o, swap_xy(o, p)) == p);
    }
}

} // verus!
