//! Properties of the field of view and of line of sight.
use crate::fov::{bresenham_line, line_is_clear, lemma_walk_reaches, major_span, span_x, span_y, walk_inv, symmetric_spec, edge_slope, first_col, fov_cols, fov_octants, fov_row, fov_set, last_col, octant_offset};
use vstd::prelude::*;

verus! {

/// The opacity of a map with no opaque tile.
pub open spec fn no_walls() -> spec_fn(int, int) -> bool {
    |x: int, y: int| false
}

/// Squared distance between two points.
pub open spec fn dist_sq(a: (int, int), b: (int, int)) -> int {
    (b.0 - a.0) * (b.0 - a.0) + (b.1 - a.1) * (b.1 - a.1)
}

/// Absolute value.
pub open spec fn abs_int(a: int) -> int {
    if a >= 0 {
        a
    } else {
        -a
    }
}

/// The tiles visible from `origin` on a map with no opaque tile: the origin and every tile
/// within the radius.
pub open spec fn open_view(origin: (int, int), radius: int, p: (int, int)) -> bool {
    p == origin || (radius >= 0 && dist_sq(origin, p) <= radius * radius)
}

proof fn lemma_offset_sq(col: int, depth: int, octant: int)
    ensures
        ({
            let d = octant_offset(col, depth, octant);
            d.0 * d.0 + d.1 * d.1 == col * col + depth * depth
        }),
{
    assert((-col) * (-col) == col * col) by (nonlinear_arith);
    assert((-depth) * (-depth) == depth * depth) by (nonlinear_arith);
}

/// Every tile a row scan reveals lies within the radius of the origin.
proof fn lemma_row_within(
    origin: (int, int),
    radius: int,
    octant: int,
    opaque: spec_fn(int, int) -> bool,
    depth: int,
    s: (int, int),
    e: (int, int),
)
    ensures
        forall|p: (int, int)| #[trigger]
            fov_row(origin, radius, octant, opaque, depth, s, e).contains(p) ==> dist_sq(origin, p)
                <= radius * radius,
    decreases radius + 1 - depth, last_col(depth, e) - first_col(depth, s) + 2,
{
    if depth <= radius && first_col(depth, s) <= last_col(depth, e) {
        lemma_cols_within(
            origin,
            radius,
            octant,
            opaque,
            depth,
            s,
            e,
            first_col(depth, s),
            last_col(depth, e),
            None,
            s,
        );
        assert(fov_row(origin, radius, octant, opaque, depth, s, e) == fov_cols(
            origin,
            radius,
            octant,
            opaque,
            depth,
            s,
            e,
            first_col(depth, s),
            last_col(depth, e),
            None,
            s,
        ));
    } else {
        assert(fov_row(origin, radius, octant, opaque, depth, s, e) =~= Set::empty());
    }
}

proof fn lemma_cols_within(
    origin: (int, int),
    radius: int,
    octant: int,
    opaque: spec_fn(int, int) -> bool,
    depth: int,
    s: (int, int),
    e: (int, int),
    col: int,
    end_col: int,
    prev: Option<bool>,
    cur: (int, int),
)
    ensures
        forall|p: (int, int)| #[trigger]
            fov_cols(origin, radius, octant, opaque, depth, s, e, col, end_col, prev, cur).contains(
                p,
            ) ==> dist_sq(origin, p) <= radius * radius,
    decreases radius + 1 - depth, end_col + 1 - col,
{
    let whole = fov_cols(origin, radius, octant, opaque, depth, s, e, col, end_col, prev, cur);
    if depth > radius {
        assert(whole =~= Set::empty());
    } else if col > end_col {
        if prev == Some(false) {
            lemma_row_within(origin, radius, octant, opaque, depth + 1, cur, e);
            assert(whole == fov_row(origin, radius, octant, opaque, depth + 1, cur, e));
        } else {
            assert(whole =~= Set::empty());
        }
    } else {
        let d = octant_offset(col, depth, octant);
        let p = (origin.0 + d.0, origin.1 + d.1);
        let is_opaque = opaque(p.0, p.1);
        let next_cur = if prev == Some(true) && !is_opaque {
            edge_slope(col, depth)
        } else {
            cur
        };
        if prev == Some(false) && is_opaque {
            lemma_row_within(
                origin,
                radius,
                octant,
                opaque,
                depth + 1,
                cur,
                edge_slope(col, depth),
            );
        }
        lemma_cols_within(
            origin,
            radius,
            octant,
            opaque,
            depth,
            s,
            e,
            col + 1,
            end_col,
            Some(is_opaque),
            next_cur,
        );
        lemma_offset_sq(col, depth, octant);
        assert(dist_sq(origin, p) == d.0 * d.0 + d.1 * d.1);
        let here = if (is_opaque || symmetric_spec(depth, s, e, col)) && d.0 * d.0 + d.1 * d.1
            <= radius * radius {
            Set::empty().insert(p)
        } else {
            Set::empty()
        };
        let below = if prev == Some(false) && is_opaque {
            fov_row(origin, radius, octant, opaque, depth + 1, cur, edge_slope(col, depth))
        } else {
            Set::empty()
        };
        let rest = fov_cols(
            origin,
            radius,
            octant,
            opaque,
            depth,
            s,
            e,
            col + 1,
            end_col,
            Some(is_opaque),
            next_cur,
        );
        assert(whole == here.union(below).union(rest));
        assert forall|q: (int, int)| #[trigger] whole.contains(q) implies dist_sq(origin, q)
            <= radius * radius by {
            if here.contains(q) {
                assert(q == p);
            } else if below.contains(q) {
            } else {
                assert(rest.contains(q));
            }
        }
    }
}

proof fn lemma_octants_within(
    origin: (int, int),
    radius: int,
    opaque: spec_fn(int, int) -> bool,
    octant: int,
)
    ensures
        forall|p: (int, int)| #[trigger]
            fov_octants(origin, radius, opaque, octant).contains(p) ==> dist_sq(origin, p)
                <= radius * radius,
    decreases 8 - octant,
{
    if octant < 8 {
        lemma_row_within(origin, radius, octant, opaque, 1, (-1, 1), (1, 1));
        lemma_octants_within(origin, radius, opaque, octant + 1);
        assert(fov_octants(origin, radius, opaque, octant) == fov_row(
            origin,
            radius,
            octant,
            opaque,
            1,
            (-1, 1),
            (1, 1),
        ).union(fov_octants(origin, radius, opaque, octant + 1)));
    } else {
        assert(fov_octants(origin, radius, opaque, octant) =~= Set::empty());
    }
}

/// The origin is always in view, and every tile in view lies within the sight radius.
pub proof fn lemma_fov_origin_and_radius(
    origin: (int, int),
    radius: int,
    opaque: spec_fn(int, int) -> bool,
)
    ensures
        fov_set(origin, radius, opaque).contains(origin),
        forall|p: (int, int)| #[trigger]
            fov_set(origin, radius, opaque).contains(p) ==> p == origin || dist_sq(origin, p)
                <= radius * radius,
{
    lemma_octants_within(origin, radius, opaque, 0);
}

/// The octant coordinates `(col, depth)` of the offset `(a, b)`: the inverse of `octant_offset`.
pub open spec fn octant_coords(a: int, b: int, octant: int) -> (int, int) {
    if octant == 0 {
        (a, b)
    } else if octant == 1 {
        (b, a)
    } else if octant == 2 {
        (b, -a)
    } else if octant == 3 {
        (-a, b)
    } else if octant == 4 {
        (-a, -b)
    } else if octant == 5 {
        (-b, -a)
    } else if octant == 6 {
        (-b, a)
    } else {
        (a, -b)
    }
}

/// On an open map, the tiles of octant `octant` at depths `depth..=radius`.
pub open spec fn open_rows(origin: (int, int), radius: int, octant: int, depth: int) -> Set<
    (int, int),
> {
    Set::new(
        |p: (int, int)|
            {
                let cd = octant_coords(p.0 - origin.0, p.1 - origin.1, octant);
                &&& depth <= cd.1 <= radius
                &&& -cd.1 <= cd.0 <= cd.1
                &&& cd.0 * cd.0 + cd.1 * cd.1 <= radius * radius
            },
    )
}

/// On an open map, the tiles of row `depth` of octant `octant` from column `col` on.
pub open spec fn open_cols(origin: (int, int), radius: int, octant: int, depth: int, col: int) -> Set<
    (int, int),
> {
    Set::new(
        |p: (int, int)|
            {
                let cd = octant_coords(p.0 - origin.0, p.1 - origin.1, octant);
                &&& cd.1 == depth
                &&& col <= cd.0 <= depth
                &&& cd.0 * cd.0 + cd.1 * cd.1 <= radius * radius
            },
    )
}

proof fn lemma_coords_of_offset(col: int, depth: int, octant: int)
    requires
        0 <= octant < 8,
    ensures
        ({
            let d = octant_offset(col, depth, octant);
            octant_coords(d.0, d.1, octant) == (col, depth)
        }),
{
}

proof fn lemma_open_first_last(depth: int)
    requires
        depth >= 1,
    ensures
        first_col(depth, (-1, 1)) == -depth,
        last_col(depth, (1, 1)) == depth,
{
    vstd::arithmetic::div_mod::lemma_fundamental_div_mod_converse(-2 * depth + 1, 2, -depth, 1);
    vstd::arithmetic::div_mod::lemma_fundamental_div_mod_converse(1 - 2 * depth, 2, -depth, 1);
    assert(depth * 1 == depth);
    assert((1int - 2 * (depth * 1)) / (2int * 1) == -depth);
}

proof fn lemma_open_row(origin: (int, int), radius: int, octant: int, depth: int)
    requires
        0 <= octant < 8,
        depth >= 1,
    ensures
        fov_row(origin, radius, octant, no_walls(), depth, (-1, 1), (1, 1)) == open_rows(
            origin,
            radius,
            octant,
            depth,
        ),
    decreases radius + 1 - depth, last_col(depth, (1, 1)) - first_col(depth, (-1, 1)) + 2,
{
    lemma_open_first_last(depth);
    if depth > radius {
        assert(fov_row(origin, radius, octant, no_walls(), depth, (-1, 1), (1, 1)) =~= Set::empty());
        assert(open_rows(origin, radius, octant, depth) =~= Set::empty());
    } else {
        lemma_open_cols(origin, radius, octant, depth, -depth, None);
        assert(open_rows(origin, radius, octant, depth) =~= open_cols(
            origin,
            radius,
            octant,
            depth,
            -depth,
        ).union(open_rows(origin, radius, octant, depth + 1)));
    }
}

proof fn lemma_open_cols(
    origin: (int, int),
    radius: int,
    octant: int,
    depth: int,
    col: int,
    prev: Option<bool>,
)
    requires
        0 <= octant < 8,
        1 <= depth <= radius,
        -depth <= col <= depth + 1,
        prev != Some(true),
        prev is None ==> col <= depth,
    ensures
        fov_cols(
            origin,
            radius,
            octant,
            no_walls(),
            depth,
            (-1, 1),
            (1, 1),
            col,
            depth,
            prev,
            (-1, 1),
        ) == open_cols(origin, radius, octant, depth, col).union(
            open_rows(origin, radius, octant, depth + 1),
        ),
    decreases radius + 1 - depth, depth + 1 - col,
{
    let whole = fov_cols(
        origin,
        radius,
        octant,
        no_walls(),
        depth,
        (-1, 1),
        (1, 1),
        col,
        depth,
        prev,
        (-1, 1),
    );
    if col > depth {
        assert(prev == Some(false)) by {
            match prev {
                Some(b) => {
                    assert(b == false);
                },
                None => {},
            }
        }
        lemma_open_row(origin, radius, octant, depth + 1);
        assert(open_cols(origin, radius, octant, depth, col) =~= Set::empty());
        assert(whole == open_rows(origin, radius, octant, depth + 1));
        assert(whole =~= open_cols(origin, radius, octant, depth, col).union(
            open_rows(origin, radius, octant, depth + 1),
        ));
    } else {
        let d = octant_offset(col, depth, octant);
        let p = (origin.0 + d.0, origin.1 + d.1);
        lemma_coords_of_offset(col, depth, octant);
        lemma_offset_sq(col, depth, octant);
        lemma_open_cols(origin, radius, octant, depth, col + 1, Some(false));
        let rest = fov_cols(
            origin,
            radius,
            octant,
            no_walls(),
            depth,
            (-1, 1),
            (1, 1),
            col + 1,
            depth,
            Some(false),
            (-1, 1),
        );
        assert(symmetric_spec(depth, (-1, 1), (1, 1), col));
        let here = if d.0 * d.0 + d.1 * d.1 <= radius * radius {
            Set::empty().insert(p)
        } else {
            Set::empty()
        };
        assert(whole =~= here.union(rest));
        assert forall|q: (int, int)|
            open_cols(origin, radius, octant, depth, col).contains(q) == (here.contains(q)
                || open_cols(origin, radius, octant, depth, col + 1).contains(q)) by {
            let cd = octant_coords(q.0 - origin.0, q.1 - origin.1, octant);
            if cd == (col, depth) {
                lemma_offset_of_coords(q.0 - origin.0, q.1 - origin.1, octant);
                assert(q == p);
            }
        }
        assert(whole =~= open_cols(origin, radius, octant, depth, col).union(
            open_rows(origin, radius, octant, depth + 1),
        ));
    }
}

proof fn lemma_offset_of_coords(a: int, b: int, octant: int)
    requires
        0 <= octant < 8,
    ensures
        ({
            let cd = octant_coords(a, b, octant);
            octant_offset(cd.0, cd.1, octant) == (a, b)
        }),
{
}

proof fn lemma_open_octants(origin: (int, int), radius: int, octant: int)
    requires
        0 <= octant <= 8,
    ensures
        forall|p: (int, int)|
            #[trigger] fov_octants(origin, radius, no_walls(), octant).contains(p) <==> exists|
                k: int,
            |
                octant <= k < 8 && #[trigger] open_rows(origin, radius, k, 1).contains(p),
    decreases 8 - octant,
{
    if octant < 8 {
        lemma_open_row(origin, radius, octant, 1);
        lemma_open_octants(origin, radius, octant + 1);
        assert(fov_octants(origin, radius, no_walls(), octant) == fov_row(
            origin,
            radius,
            octant,
            no_walls(),
            1,
            (-1, 1),
            (1, 1),
        ).union(fov_octants(origin, radius, no_walls(), octant + 1)));
        assert forall|p: (int, int)|
            #[trigger] fov_octants(origin, radius, no_walls(), octant).contains(p) implies exists|
                k: int,
            |
                octant <= k < 8 && #[trigger] open_rows(origin, radius, k, 1).contains(p) by {
            if open_rows(origin, radius, octant, 1).contains(p) {
            }
        }
    } else {
        assert(fov_octants(origin, radius, no_walls(), octant) =~= Set::empty());
    }
}

/// A tile seen in an octant of the open map is within the radius.
proof fn lemma_open_rows_view(origin: (int, int), radius: int, k: int, p: (int, int))
    requires
        0 <= k < 8,
        open_rows(origin, radius, k, 1).contains(p),
    ensures
        open_view(origin, radius, p),
{
    let a = p.0 - origin.0;
    let b = p.1 - origin.1;
    let cd = octant_coords(a, b, k);
    lemma_offset_of_coords(a, b, k);
    lemma_offset_sq(cd.0, cd.1, k);
    assert(a * a + b * b == cd.0 * cd.0 + cd.1 * cd.1);
}

/// A tile within the radius is seen in some octant of the open map.
proof fn lemma_view_open_rows(origin: (int, int), radius: int, p: (int, int)) -> (k: int)
    requires
        radius >= 0,
        p != origin,
        dist_sq(origin, p) <= radius * radius,
    ensures
        0 <= k < 8,
        open_rows(origin, radius, k, 1).contains(p),
{
    let a = p.0 - origin.0;
    let b = p.1 - origin.1;
    let k: int = if b >= abs_int(a) && b > 0 {
        0
    } else if a >= abs_int(b) && a > 0 {
        1
    } else if -a >= abs_int(b) && a < 0 {
        2
    } else {
        4
    };
    let cd = octant_coords(a, b, k);
    lemma_offset_of_coords(a, b, k);
    lemma_offset_sq(cd.0, cd.1, k);
    assert(cd.0 * cd.0 + cd.1 * cd.1 == a * a + b * b);
    assert(cd.1 >= 1 && -cd.1 <= cd.0 <= cd.1);
    assert(cd.1 <= radius) by (nonlinear_arith)
        requires
            cd.1 >= 1,
            cd.0 * cd.0 + cd.1 * cd.1 <= radius * radius,
            radius >= 0,
    ;
    k
}

/// On a map with no opaque tile, the field of view is the origin and every tile within the
/// radius: the whole disk.
pub proof fn lemma_open_map_view(origin: (int, int), radius: int, p: (int, int))
    ensures
        fov_set(origin, radius, no_walls()).contains(p) <==> open_view(origin, radius, p),
{
    lemma_open_octants(origin, radius, 0);
    if fov_set(origin, radius, no_walls()).contains(p) && p != origin {
        assert(fov_octants(origin, radius, no_walls(), 0).contains(p));
        let k = choose|k: int| 0 <= k < 8 && #[trigger] open_rows(origin, radius, k, 1).contains(p);
        lemma_open_rows_view(origin, radius, k, p);
    }
    if open_view(origin, radius, p) && p != origin {
        let k = lemma_view_open_rows(origin, radius, p);
        assert(fov_octants(origin, radius, no_walls(), 0).contains(p));
    }
}

/// On a map with no opaque tile, sight is symmetric: `b` is in view from `a` exactly when
/// `a` is in view from `b`.
pub proof fn lemma_open_map_symmetric(a: (int, int), b: (int, int), radius: int)
    ensures
        fov_set(a, radius, no_walls()).contains(b) <==> fov_set(b, radius, no_walls()).contains(a),
{
    lemma_open_map_view(a, radius, b);
    lemma_open_map_view(b, radius, a);
    assert((a.0 - b.0) * (a.0 - b.0) == (b.0 - a.0) * (b.0 - a.0)) by (nonlinear_arith);
    assert((a.1 - b.1) * (a.1 - b.1) == (b.1 - a.1) * (b.1 - a.1)) by (nonlinear_arith);
}

/// The Bresenham line starts at `from`, ends at `to`, and has one point more than the
/// larger of the two coordinate distances.
pub proof fn lemma_line_ends(from: (int, int), to: (int, int))
    ensures
        bresenham_line(from, to).len() == major_span(span_x(from, to), span_y(from, to)) + 1,
        bresenham_line(from, to)[0] == from,
        bresenham_line(from, to).last() == to,
{
    let dx = span_x(from, to);
    let dy = span_y(from, to);
    let sx: int = if from.0 < to.0 {
        1
    } else {
        -1
    };
    let sy: int = if from.1 < to.1 {
        1
    } else {
        -1
    };
    assert(walk_inv(dx, dy, 0, 0));
    lemma_walk_reaches(from, to, dx, dy, sx, sy, 0, 0, false);
    assert(sx * 0 == 0 && sy * 0 == 0 && 0 * dx - 0 * dy == 0) by (nonlinear_arith);
}

/// Every tile is in sight of itself and of its eight neighbors, whatever is opaque.
pub proof fn lemma_neighbors_in_sight(
    from: (int, int),
    to: (int, int),
    opaque: spec_fn(int, int) -> bool,
)
    requires
        -1 <= to.0 - from.0 <= 1,
        -1 <= to.1 - from.1 <= 1,
    ensures
        line_is_clear(bresenham_line(from, to), opaque),
{
    lemma_line_ends(from, to);
}

/// With no opaque tile, every tile is in sight of every other.
pub proof fn lemma_open_map_in_sight(from: (int, int), to: (int, int))
    ensures
        line_is_clear(bresenham_line(from, to), no_walls()),
{
}

/// Every tile a row scan from `depth` on reveals lies at least `depth` from the origin.
proof fn lemma_row_deep(
    origin: (int, int),
    radius: int,
    octant: int,
    opaque: spec_fn(int, int) -> bool,
    depth: int,
    s: (int, int),
    e: (int, int),
)
    requires
        depth >= 0,
    ensures
        forall|p: (int, int)| #[trigger]
            fov_row(origin, radius, octant, opaque, depth, s, e).contains(p) ==> dist_sq(origin, p)
                >= depth * depth,
    decreases radius + 1 - depth, last_col(depth, e) - first_col(depth, s) + 2,
{
    if depth <= radius && first_col(depth, s) <= last_col(depth, e) {
        lemma_cols_deep(origin, radius, octant, opaque, depth, s, e, first_col(depth, s), last_col(depth, e), None, s);
        assert(fov_row(origin, radius, octant, opaque, depth, s, e) == fov_cols(
            origin, radius, octant, opaque, depth, s, e, first_col(depth, s), last_col(depth, e), None, s,
        ));
    } else {
        assert(fov_row(origin, radius, octant, opaque, depth, s, e) =~= Set::empty());
    }
}

proof fn lemma_cols_deep(
    origin: (int, int),
    radius: int,
    octant: int,
    opaque: spec_fn(int, int) -> bool,
    depth: int,
    s: (int, int),
    e: (int, int),
    col: int,
    end_col: int,
    prev: Option<bool>,
    cur: (int, int),
)
    requires
        depth >= 0,
    ensures
        forall|p: (int, int)| #[trigger]
            fov_cols(origin, radius, octant, opaque, depth, s, e, col, end_col, prev, cur).contains(p)
                ==> dist_sq(origin, p) >= depth * depth,
    decreases radius + 1 - depth, end_col + 1 - col,
{
    let whole = fov_cols(origin, radius, octant, opaque, depth, s, e, col, end_col, prev, cur);
    assert(depth * depth <= (depth + 1) * (depth + 1)) by (nonlinear_arith)
        requires
            depth >= 0,
    ;
    if depth > radius {
        assert(whole =~= Set::empty());
    } else if col > end_col {
        if prev == Some(false) {
            lemma_row_deep(origin, radius, octant, opaque, depth + 1, cur, e);
            assert(whole == fov_row(origin, radius, octant, opaque, depth + 1, cur, e));
            assert forall|q: (int, int)| #[trigger] whole.contains(q) implies dist_sq(origin, q) >= depth * depth by {
                assert(dist_sq(origin, q) >= (depth + 1) * (depth + 1));
            }
        } else {
            assert(whole =~= Set::empty());
        }
    } else {
        let d = octant_offset(col, depth, octant);
        let p = (origin.0 + d.0, origin.1 + d.1);
        let is_opaque = opaque(p.0, p.1);
        let next_cur = if prev == Some(true) && !is_opaque {
            edge_slope(col, depth)
        } else {
            cur
        };
        if prev == Some(false) && is_opaque {
            lemma_row_deep(origin, radius, octant, opaque, depth + 1, cur, edge_slope(col, depth));
        }
        lemma_cols_deep(origin, radius, octant, opaque, depth, s, e, col + 1, end_col, Some(is_opaque), next_cur);
        lemma_offset_sq(col, depth, octant);
        assert(col * col >= 0) by (nonlinear_arith);
        assert(dist_sq(origin, p) == d.0 * d.0 + d.1 * d.1);
        let here = if (is_opaque || symmetric_spec(depth, s, e, col)) && d.0 * d.0 + d.1 * d.1
            <= radius * radius {
            Set::empty().insert(p)
        } else {
            Set::empty()
        };
        let below = if prev == Some(false) && is_opaque {
            fov_row(origin, radius, octant, opaque, depth + 1, cur, edge_slope(col, depth))
        } else {
            Set::empty()
        };
        let rest = fov_cols(origin, radius, octant, opaque, depth, s, e, col + 1, end_col, Some(is_opaque), next_cur);
        assert(whole == here.union(below).union(rest));
        assert forall|q: (int, int)| #[trigger] whole.contains(q) implies dist_sq(origin, q) >= depth * depth by {
            if here.contains(q) {
                assert(q == p);
                assert(d.0 * d.0 + d.1 * d.1 == col * col + depth * depth);
            } else if below.contains(q) {
                assert(dist_sq(origin, q) >= (depth + 1) * (depth + 1));
            } else {
                assert(rest.contains(q));
            }
        }
    }
}

/// A row scan with a smaller radius reveals exactly the tiles of the larger scan that lie
/// within the smaller radius.
proof fn lemma_row_mono(
    origin: (int, int),
    r1: int,
    r2: int,
    octant: int,
    opaque: spec_fn(int, int) -> bool,
    depth: int,
    s: (int, int),
    e: (int, int),
)
    requires
        0 <= r1 <= r2,
        depth >= 1,
    ensures
        forall|p: (int, int)|
            #[trigger] fov_row(origin, r1, octant, opaque, depth, s, e).contains(p) <==> (fov_row(
                origin,
                r2,
                octant,
                opaque,
                depth,
                s,
                e,
            ).contains(p) && dist_sq(origin, p) <= r1 * r1),
    decreases r2 + 1 - depth, last_col(depth, e) - first_col(depth, s) + 2,
{
    if depth > r1 {
        lemma_row_deep(origin, r2, octant, opaque, depth, s, e);
        assert(r1 * r1 < depth * depth) by (nonlinear_arith)
            requires
                0 <= r1 < depth,
        ;
        assert(fov_row(origin, r1, octant, opaque, depth, s, e) =~= Set::empty());
        assert forall|q: (int, int)| #[trigger] fov_row(origin, r2, octant, opaque, depth, s, e).contains(q) implies dist_sq(origin, q) > r1 * r1 by {
            assert(dist_sq(origin, q) >= depth * depth);
        }
    } else if first_col(depth, s) > last_col(depth, e) {
        assert(fov_row(origin, r1, octant, opaque, depth, s, e) =~= Set::empty());
        assert(fov_row(origin, r2, octant, opaque, depth, s, e) =~= Set::empty());
    } else {
        lemma_cols_mono(origin, r1, r2, octant, opaque, depth, s, e, first_col(depth, s), last_col(depth, e), None, s);
        assert(fov_row(origin, r1, octant, opaque, depth, s, e) == fov_cols(
            origin, r1, octant, opaque, depth, s, e, first_col(depth, s), last_col(depth, e), None, s,
        ));
        assert(fov_row(origin, r2, octant, opaque, depth, s, e) == fov_cols(
            origin, r2, octant, opaque, depth, s, e, first_col(depth, s), last_col(depth, e), None, s,
        ));
    }
}

proof fn lemma_cols_mono(
    origin: (int, int),
    r1: int,
    r2: int,
    octant: int,
    opaque: spec_fn(int, int) -> bool,
    depth: int,
    s: (int, int),
    e: (int, int),
    col: int,
    end_col: int,
    prev: Option<bool>,
    cur: (int, int),
)
    requires
        0 <= r1 <= r2,
        1 <= depth <= r1,
    ensures
        forall|p: (int, int)|
            #[trigger] fov_cols(origin, r1, octant, opaque, depth, s, e, col, end_col, prev, cur).contains(p)
                <==> (fov_cols(origin, r2, octant, opaque, depth, s, e, col, end_col, prev, cur).contains(p)
                && dist_sq(origin, p) <= r1 * r1),
    decreases r2 + 1 - depth, end_col + 1 - col,
{
    let w1 = fov_cols(origin, r1, octant, opaque, depth, s, e, col, end_col, prev, cur);
    let w2 = fov_cols(origin, r2, octant, opaque, depth, s, e, col, end_col, prev, cur);
    assert(r1 * r1 <= r2 * r2) by (nonlinear_arith)
        requires
            0 <= r1 <= r2,
    ;
    if col > end_col {
        if prev == Some(false) {
            lemma_row_mono(origin, r1, r2, octant, opaque, depth + 1, cur, e);
            assert(w1 == fov_row(origin, r1, octant, opaque, depth + 1, cur, e));
            assert(w2 == fov_row(origin, r2, octant, opaque, depth + 1, cur, e));
        } else {
            assert(w1 =~= Set::empty());
            assert(w2 =~= Set::empty());
        }
    } else {
        let d = octant_offset(col, depth, octant);
        let p = (origin.0 + d.0, origin.1 + d.1);
        let is_opaque = opaque(p.0, p.1);
        let next_cur = if prev == Some(true) && !is_opaque {
            edge_slope(col, depth)
        } else {
            cur
        };
        if prev == Some(false) && is_opaque {
            lemma_row_mono(origin, r1, r2, octant, opaque, depth + 1, cur, edge_slope(col, depth));
        }
        lemma_cols_mono(origin, r1, r2, octant, opaque, depth, s, e, col + 1, end_col, Some(is_opaque), next_cur);
        lemma_offset_sq(col, depth, octant);
        assert(dist_sq(origin, p) == d.0 * d.0 + d.1 * d.1);
        let shown = is_opaque || symmetric_spec(depth, s, e, col);
        let here1 = if shown && d.0 * d.0 + d.1 * d.1 <= r1 * r1 {
            Set::empty().insert(p)
        } else {
            Set::empty()
        };
        let here2 = if shown && d.0 * d.0 + d.1 * d.1 <= r2 * r2 {
            Set::empty().insert(p)
        } else {
            Set::empty()
        };
        let below1 = if prev == Some(false) && is_opaque {
            fov_row(origin, r1, octant, opaque, depth + 1, cur, edge_slope(col, depth))
        } else {
            Set::empty()
        };
        let below2 = if prev == Some(false) && is_opaque {
            fov_row(origin, r2, octant, opaque, depth + 1, cur, edge_slope(col, depth))
        } else {
            Set::empty()
        };
        let rest1 = fov_cols(origin, r1, octant, opaque, depth, s, e, col + 1, end_col, Some(is_opaque), next_cur);
        let rest2 = fov_cols(origin, r2, octant, opaque, depth, s, e, col + 1, end_col, Some(is_opaque), next_cur);
        assert(w1 == here1.union(below1).union(rest1));
        assert(w2 == here2.union(below2).union(rest2));
        assert forall|q: (int, int)| #[trigger] w1.contains(q) <==> (w2.contains(q) && dist_sq(origin, q) <= r1 * r1) by {
            if q == p {
            }
            if below1.contains(q) || below2.contains(q) {
            }
            if rest1.contains(q) || rest2.contains(q) {
            }
        }
    }
}

/// A larger radius only adds tiles beyond the smaller one: the view within `r1` is the view
/// within `r2` cut to the disk of radius `r1`, whatever is opaque.
pub proof fn lemma_fov_radius_monotone(
    origin: (int, int),
    r1: int,
    r2: int,
    opaque: spec_fn(int, int) -> bool,
)
    requires
        0 <= r1 <= r2,
    ensures
        forall|p: (int, int)|
            #[trigger] fov_set(origin, r1, opaque).contains(p) <==> (fov_set(origin, r2, opaque).contains(p)
                && dist_sq(origin, p) <= r1 * r1),
{
    lemma_octants_mono(origin, r1, r2, opaque, 0);
    assert(dist_sq(origin, origin) == 0);
    assert forall|p: (int, int)| #[trigger] fov_set(origin, r1, opaque).contains(p) <==> (fov_set(origin, r2, opaque).contains(p)
        && dist_sq(origin, p) <= r1 * r1) by {
        assert(0 <= r1 * r1) by (nonlinear_arith)
            requires
                0 <= r1,
        ;
        if p == origin {
        }
    }
}

proof fn lemma_octants_mono(origin: (int, int), r1: int, r2: int, opaque: spec_fn(int, int) -> bool, octant: int)
    requires
        0 <= r1 <= r2,
        0 <= octant <= 8,
    ensures
        forall|p: (int, int)|
            #[trigger] fov_octants(origin, r1, opaque, octant).contains(p) <==> (fov_octants(origin, r2, opaque, octant).contains(p)
                && dist_sq(origin, p) <= r1 * r1),
    decreases 8 - octant,
{
    if octant < 8 {
        lemma_row_mono(origin, r1, r2, octant, opaque, 1, (-1, 1), (1, 1));
        lemma_octants_mono(origin, r1, r2, opaque, octant + 1);
        assert(fov_octants(origin, r1, opaque, octant) == fov_row(origin, r1, octant, opaque, 1, (-1, 1), (1, 1)).union(
            fov_octants(origin, r1, opaque, octant + 1)));
        assert(fov_octants(origin, r2, opaque, octant) == fov_row(origin, r2, octant, opaque, 1, (-1, 1), (1, 1)).union(
            fov_octants(origin, r2, opaque, octant + 1)));
    } else {
        assert(fov_octants(origin, r1, opaque, octant) =~= Set::empty());
        assert(fov_octants(origin, r2, opaque, octant) =~= Set::empty());
    }
}

} // verus!
