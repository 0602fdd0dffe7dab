//! Sight along a straight line of tiles (a row, a column or a diagonal), and its symmetry.
use crate::fov::{
    edge_slope, first_col, fov_cols, fov_octants, fov_row, fov_set, last_col, octant_offset,
    symmetric_spec,
};
use vstd::prelude::*;

verus! {

/// `j` times a unit `x` in `-1..=1`, written without multiplying.
pub open spec fn scale(j: int, x: int) -> int {
    if x == 1 {
        j
    } else if x == -1 {
        -j
    } else {
        0
    }
}

/// The tile at depth `d` of octant `octant` on the line of slope `k` (in `-1..=1`) out of
/// `origin`: column `k * d`.
pub open spec fn line_tile(origin: (int, int), octant: int, k: int, d: int) -> (int, int) {
    let o = octant_offset(scale(d, k), d, octant);
    (origin.0 + o.0, origin.1 + o.1)
}

/// Whether the tile at depth `d` on that line is opaque.
pub open spec fn line_blocked(
    origin: (int, int),
    octant: int,
    k: int,
    opaque: spec_fn(int, int) -> bool,
    d: int,
) -> bool {
    opaque(line_tile(origin, octant, k, d).0, line_tile(origin, octant, k, d).1)
}

/// No tile of the line at depths `a` up to (not including) `b` is opaque.
pub open spec fn line_clear(
    origin: (int, int),
    octant: int,
    k: int,
    opaque: spec_fn(int, int) -> bool,
    a: int,
    b: int,
) -> bool {
    forall|d: int| a <= d < b ==> !#[trigger] line_blocked(origin, octant, k, opaque, d)
}

/// The squared distance of the line's tile at depth `d` from the origin.
pub open spec fn line_sq(k: int, d: int) -> int {
    scale(d, k) * scale(d, k) + d * d
}

/// Where the line of slope `k` meets a row's columns, against the row's slopes.
proof fn lemma_line_bounds(depth: int, s: (int, int), e: (int, int), k: int)
    requires
        depth >= 1,
        s.1 > 0,
        e.1 > 0,
        -1 <= k <= 1,
    ensures
        s.0 <= scale(s.1, k) ==> first_col(depth, s) <= scale(depth, k),
        s.0 > scale(s.1, k) ==> first_col(depth, s) >= scale(depth, k),
        e.0 >= scale(e.1, k) ==> last_col(depth, e) >= scale(depth, k),
        e.0 < scale(e.1, k) ==> last_col(depth, e) <= scale(depth, k),
        symmetric_spec(depth, s, e, scale(depth, k)) <==> (s.0 <= scale(s.1, k) && e.0 >= scale(e.1, k)),
{
    let t = scale(depth, k);
    let n = depth * s.0;
    let m = depth * e.0;
    assert(t * s.1 == depth * scale(s.1, k)) by (nonlinear_arith)
        requires
            t == scale(depth, k),
            -1 <= k <= 1,
    ;
    assert(t * e.1 == depth * scale(e.1, k)) by (nonlinear_arith)
        requires
            t == scale(depth, k),
            -1 <= k <= 1,
    ;
    assert(s.0 <= scale(s.1, k) <==> n <= t * s.1) by (nonlinear_arith)
        requires
            depth >= 1,
            n == depth * s.0,
            t * s.1 == depth * scale(s.1, k),
    ;
    assert(s.0 > scale(s.1, k) ==> n >= t * s.1 + 1) by (nonlinear_arith)
        requires
            depth >= 1,
            n == depth * s.0,
            t * s.1 == depth * scale(s.1, k),
    ;
    assert(e.0 >= scale(e.1, k) <==> m >= t * e.1) by (nonlinear_arith)
        requires
            depth >= 1,
            m == depth * e.0,
            t * e.1 == depth * scale(e.1, k),
    ;
    assert(e.0 < scale(e.1, k) ==> m <= t * e.1 - 1) by (nonlinear_arith)
        requires
            depth >= 1,
            m == depth * e.0,
            t * e.1 == depth * scale(e.1, k),
    ;
    if n <= t * s.1 {
        assert((2 * n + s.1) / (2 * s.1) <= t) by (nonlinear_arith)
            requires
                n <= t * s.1,
                s.1 > 0,
        ;
    }
    if n >= t * s.1 + 1 {
        assert((2 * n + s.1) / (2 * s.1) >= t) by (nonlinear_arith)
            requires
                n >= t * s.1 + 1,
                s.1 > 0,
        ;
    }
    if m >= t * e.1 {
        assert((e.1 - 2 * m) / (2 * e.1) <= -t) by (nonlinear_arith)
            requires
                m >= t * e.1,
                e.1 > 0,
        ;
    }
    if m <= t * e.1 - 1 {
        assert((e.1 - 2 * m) / (2 * e.1) >= -t) by (nonlinear_arith)
            requires
                m <= t * e.1 - 1,
                e.1 > 0,
        ;
    }
}

/// The line's tile at depth `d` lies `line_sq(k, d)` (squared) from the origin.
proof fn lemma_line_sq(k: int, d: int, octant: int)
    ensures
        ({
            let o = octant_offset(scale(d, k), d, octant);
            o.0 * o.0 + o.1 * o.1 == line_sq(k, d)
        }),
        line_sq(k, d) >= d * d,
{
    let c = scale(d, k);
    assert((-c) * (-c) == c * c) by (nonlinear_arith);
    assert((-d) * (-d) == d * d) by (nonlinear_arith);
    assert(c * c >= 0) by (nonlinear_arith);
}

/// Along the line of slope `k` of an octant, a row scan whose sector holds the line sees a
/// tile of the line that is not opaque exactly when it lies within the radius and every tile
/// of the line from the row's depth up to it is clear; a sector off the line never shows it.
proof fn lemma_row_line(
    origin: (int, int),
    radius: int,
    octant: int,
    opaque: spec_fn(int, int) -> bool,
    depth: int,
    s: (int, int),
    e: (int, int),
    k: int,
    big_d: int,
)
    requires
        depth >= 1,
        s.1 > 0,
        e.1 > 0,
        -1 <= k <= 1,
        big_d >= 1,
        !line_blocked(origin, octant, k, opaque, big_d),
    ensures
        (s.0 <= scale(s.1, k) && scale(e.1, k) <= e.0) ==> (fov_row(origin, radius, octant, opaque, depth, s, e).contains(
            line_tile(origin, octant, k, big_d),
        ) <==> (depth <= big_d <= radius && line_sq(k, big_d) <= radius * radius && line_clear(
            origin,
            octant,
            k,
            opaque,
            depth,
            big_d,
        ))),
        (s.0 > scale(s.1, k) || e.0 < scale(e.1, k)) ==> !fov_row(origin, radius, octant, opaque, depth, s, e).contains(
            line_tile(origin, octant, k, big_d),
        ),
    decreases radius + 1 - depth, last_col(depth, e) - first_col(depth, s) + 2,
{
    lemma_line_bounds(depth, s, e, k);
    if depth <= radius && first_col(depth, s) <= last_col(depth, e) {
        lemma_cols_line(
            origin,
            radius,
            octant,
            opaque,
            depth,
            s,
            e,
            first_col(depth, s),
            last_col(depth, e),
            None,
            s,
            k,
            big_d,
        );
        assert(fov_row(origin, radius, octant, opaque, depth, s, e) == fov_cols(
            origin,
            radius,
            octant,
            opaque,
            depth,
            s,
            e,
            first_col(depth, s),
            last_col(depth, e),
            None,
            s,
        ));
    } else {
        assert(fov_row(origin, radius, octant, opaque, depth, s, e) =~= Set::empty());
    }
}

proof fn lemma_cols_line(
    origin: (int, int),
    radius: int,
    octant: int,
    opaque: spec_fn(int, int) -> bool,
    depth: int,
    s: (int, int),
    e: (int, int),
    col: int,
    end_col: int,
    prev: Option<bool>,
    cur: (int, int),
    k: int,
    big_d: int,
)
    requires
        depth >= 1,
        s.1 > 0,
        e.1 > 0,
        cur.1 > 0,
        -1 <= k <= 1,
        big_d >= 1,
        !line_blocked(origin, octant, k, opaque, big_d),
        end_col == last_col(depth, e),
    ensures
        (s.0 <= scale(s.1, k) && scale(e.1, k) <= e.0 && col <= scale(depth, k) && (prev != Some(
            true,
        ) ==> cur.0 <= scale(cur.1, k))) ==> (fov_cols(
            origin,
            radius,
            octant,
            opaque,
            depth,
            s,
            e,
            col,
            end_col,
            prev,
            cur,
        ).contains(line_tile(origin, octant, k, big_d)) <==> (depth <= big_d <= radius && line_sq(
            k,
            big_d,
        ) <= radius * radius && line_clear(origin, octant, k, opaque, depth, big_d))),
        (s.0 <= scale(s.1, k) && scale(e.1, k) <= e.0 && col >= scale(depth, k) + 1 && prev == Some(
            false,
        ) && cur.0 <= scale(cur.1, k)) ==> (fov_cols(
            origin,
            radius,
            octant,
            opaque,
            depth,
            s,
            e,
            col,
            end_col,
            prev,
            cur,
        ).contains(line_tile(origin, octant, k, big_d)) <==> (depth < big_d <= radius && line_sq(
            k,
            big_d,
        ) <= radius * radius && line_clear(origin, octant, k, opaque, depth + 1, big_d))),
        e.0 < scale(e.1, k) ==> !fov_cols(origin, radius, octant, opaque, depth, s, e, col, end_col, prev, cur).contains(
            line_tile(origin, octant, k, big_d),
        ),
        (col >= scale(depth, k) && (col == scale(depth, k) ==> prev is None && s.0 > scale(s.1, k))
            && (prev != Some(true) ==> cur.0 > scale(cur.1, k))) ==> !fov_cols(
            origin,
            radius,
            octant,
            opaque,
            depth,
            s,
            e,
            col,
            end_col,
            prev,
            cur,
        ).contains(line_tile(origin, octant, k, big_d)),
    decreases radius + 1 - depth, end_col + 1 - col,
{
    let b = line_tile(origin, octant, k, big_d);
    let t = scale(depth, k);
    let whole = fov_cols(origin, radius, octant, opaque, depth, s, e, col, end_col, prev, cur);
    lemma_line_bounds(depth, s, e, k);
    if depth > radius {
        assert(whole =~= Set::empty());
    } else if col > end_col {
        if prev == Some(false) {
            lemma_row_line(origin, radius, octant, opaque, depth + 1, cur, e, k, big_d);
            assert(whole == fov_row(origin, radius, octant, opaque, depth + 1, cur, e));
        } else {
            assert(whole =~= Set::empty());
        }
    } else {
        let d = octant_offset(col, depth, octant);
        let p = (origin.0 + d.0, origin.1 + d.1);
        let is_opaque = opaque(p.0, p.1);
        let next_cur = if prev == Some(true) && !is_opaque {
            edge_slope(col, depth)
        } else {
            cur
        };
        let here = if (is_opaque || symmetric_spec(depth, s, e, col)) && d.0 * d.0 + d.1 * d.1
            <= radius * radius {
            Set::empty().insert(p)
        } else {
            Set::empty()
        };
        let below = if prev == Some(false) && is_opaque {
            fov_row(origin, radius, octant, opaque, depth + 1, cur, edge_slope(col, depth))
        } else {
            Set::empty()
        };
        let rest = fov_cols(
            origin,
            radius,
            octant,
            opaque,
            depth,
            s,
            e,
            col + 1,
            end_col,
            Some(is_opaque),
            next_cur,
        );
        assert(whole == here.union(below).union(rest));
        assert(scale(2 * depth, k) == 2 * t);
        if prev == Some(false) && is_opaque {
            lemma_row_line(origin, radius, octant, opaque, depth + 1, cur, edge_slope(col, depth), k, big_d);
        }
        lemma_cols_line(
            origin,
            radius,
            octant,
            opaque,
            depth,
            s,
            e,
            col + 1,
            end_col,
            Some(is_opaque),
            next_cur,
            k,
            big_d,
        );
        lemma_line_sq(k, depth, octant);
        assert(p == b <==> (col == t && depth == big_d));
        if col == t {
            assert(p == line_tile(origin, octant, k, depth));
            assert(is_opaque == line_blocked(origin, octant, k, opaque, depth));
        }
        if s.0 <= scale(s.1, k) && scale(e.1, k) <= e.0 && col <= t && (prev != Some(true) ==> cur.0
            <= scale(cur.1, k)) {
            if col == t {
                if is_opaque {
                    assert(!line_clear(origin, octant, k, opaque, depth, big_d) || big_d <= depth);
                } else if big_d > depth && line_clear(origin, octant, k, opaque, depth + 1, big_d) {
                    assert forall|j: int| depth <= j < big_d implies !#[trigger] line_blocked(
                        origin,
                        octant,
                        k,
                        opaque,
                        j,
                    ) by {
                        if j > depth {
                            assert(!line_blocked(origin, octant, k, opaque, j));
                        }
                    }
                }
            }
        }
    }
}

/// `p` lies in octant `octant` of `origin`, at least `depth` rows out.
pub open spec fn in_octant_from(origin: (int, int), octant: int, depth: int, p: (int, int)) -> bool {
    exists|c: int, dd: int|
        dd >= depth && #[trigger] octant_offset(c, dd, octant) == (p.0 - origin.0, p.1 - origin.1)
}

/// Every tile a row scan reveals lies in its octant, at least the row's depth out.
proof fn lemma_row_shape(
    origin: (int, int),
    radius: int,
    octant: int,
    opaque: spec_fn(int, int) -> bool,
    depth: int,
    s: (int, int),
    e: (int, int),
)
    ensures
        forall|p: (int, int)| #[trigger]
            fov_row(origin, radius, octant, opaque, depth, s, e).contains(p) ==> in_octant_from(
                origin,
                octant,
                depth,
                p,
            ),
    decreases radius + 1 - depth, last_col(depth, e) - first_col(depth, s) + 2,
{
    if depth <= radius && first_col(depth, s) <= last_col(depth, e) {
        lemma_cols_shape(origin, radius, octant, opaque, depth, s, e, first_col(depth, s), last_col(depth, e), None, s);
        assert(fov_row(origin, radius, octant, opaque, depth, s, e) == fov_cols(
            origin,
            radius,
            octant,
            opaque,
            depth,
            s,
            e,
            first_col(depth, s),
            last_col(depth, e),
            None,
            s,
        ));
    } else {
        assert(fov_row(origin, radius, octant, opaque, depth, s, e) =~= Set::empty());
    }
}

proof fn lemma_cols_shape(
    origin: (int, int),
    radius: int,
    octant: int,
    opaque: spec_fn(int, int) -> bool,
    depth: int,
    s: (int, int),
    e: (int, int),
    col: int,
    end_col: int,
    prev: Option<bool>,
    cur: (int, int),
)
    ensures
        forall|p: (int, int)| #[trigger]
            fov_cols(origin, radius, octant, opaque, depth, s, e, col, end_col, prev, cur).contains(p)
                ==> in_octant_from(origin, octant, depth, p),
    decreases radius + 1 - depth, end_col + 1 - col,
{
    let whole = fov_cols(origin, radius, octant, opaque, depth, s, e, col, end_col, prev, cur);
    if depth > radius {
        assert(whole =~= Set::empty());
    } else if col > end_col {
        if prev == Some(false) {
            lemma_row_shape(origin, radius, octant, opaque, depth + 1, cur, e);
            assert(whole == fov_row(origin, radius, octant, opaque, depth + 1, cur, e));
            assert forall|p: (int, int)| #[trigger] whole.contains(p) implies in_octant_from(origin, octant, depth, p) by {
                assert(in_octant_from(origin, octant, depth + 1, p));
                let (c, dd) = choose|c: int, dd: int|
                    dd >= depth + 1 && #[trigger] octant_offset(c, dd, octant) == (p.0 - origin.0, p.1 - origin.1);
                assert(octant_offset(c, dd, octant) == (p.0 - origin.0, p.1 - origin.1));
            }
        } else {
            assert(whole =~= Set::empty());
        }
    } else {
        let d = octant_offset(col, depth, octant);
        let p = (origin.0 + d.0, origin.1 + d.1);
        let is_opaque = opaque(p.0, p.1);
        let next_cur = if prev == Some(true) && !is_opaque {
            edge_slope(col, depth)
        } else {
            cur
        };
        let here = if (is_opaque || symmetric_spec(depth, s, e, col)) && d.0 * d.0 + d.1 * d.1
            <= radius * radius {
            Set::empty().insert(p)
        } else {
            Set::empty()
        };
        let below = if prev == Some(false) && is_opaque {
            fov_row(origin, radius, octant, opaque, depth + 1, cur, edge_slope(col, depth))
        } else {
            Set::empty()
        };
        let rest = fov_cols(origin, radius, octant, opaque, depth, s, e, col + 1, end_col, Some(is_opaque), next_cur);
        assert(whole == here.union(below).union(rest));
        if prev == Some(false) && is_opaque {
            lemma_row_shape(origin, radius, octant, opaque, depth + 1, cur, edge_slope(col, depth));
        }
        lemma_cols_shape(origin, radius, octant, opaque, depth, s, e, col + 1, end_col, Some(is_opaque), next_cur);
        assert forall|q: (int, int)| #[trigger] whole.contains(q) implies in_octant_from(origin, octant, depth, q) by {
            if here.contains(q) {
                assert(q == p);
                assert(octant_offset(col, depth, octant) == (q.0 - origin.0, q.1 - origin.1));
            } else if below.contains(q) {
                assert(in_octant_from(origin, octant, depth + 1, q));
                let (c, dd) = choose|c: int, dd: int|
                    dd >= depth + 1 && #[trigger] octant_offset(c, dd, octant) == (q.0 - origin.0, q.1 - origin.1);
                assert(octant_offset(c, dd, octant) == (q.0 - origin.0, q.1 - origin.1));
            } else {
                assert(rest.contains(q));
            }
        }
    }
}

/// The octants of `fov_octants` from `k` on that show `p`.
proof fn lemma_octants_member(origin: (int, int), radius: int, opaque: spec_fn(int, int) -> bool, k: int, p: (int, int))
    requires
        0 <= k <= 8,
    ensures
        fov_octants(origin, radius, opaque, k).contains(p) <==> exists|o: int|
            k <= o < 8 && #[trigger] fov_row(origin, radius, o, opaque, 1, (-1, 1), (1, 1)).contains(p),
    decreases 8 - k,
{
    if k < 8 {
        lemma_octants_member(origin, radius, opaque, k + 1, p);
        assert(fov_octants(origin, radius, opaque, k) == fov_row(origin, radius, k, opaque, 1, (-1, 1), (1, 1)).union(
            fov_octants(origin, radius, opaque, k + 1),
        ));
    } else {
        assert(fov_octants(origin, radius, opaque, k) =~= Set::empty());
    }
}

/// The sign of `x`.
pub open spec fn sgn(x: int) -> int {
    if x > 0 {
        1
    } else if x < 0 {
        -1
    } else {
        0
    }
}

/// The Chebyshev distance between two tiles.
pub open spec fn cheb(a: (int, int), b: (int, int)) -> int {
    let dx = if a.0 >= b.0 { a.0 - b.0 } else { b.0 - a.0 };
    let dy = if a.1 >= b.1 { a.1 - b.1 } else { b.1 - a.1 };
    if dx >= dy { dx } else { dy }
}

/// Two tiles lie on one row, one column or one diagonal.
pub open spec fn on_common_line(a: (int, int), b: (int, int)) -> bool {
    let dx = if a.0 >= b.0 { a.0 - b.0 } else { b.0 - a.0 };
    let dy = if a.1 >= b.1 { a.1 - b.1 } else { b.1 - a.1 };
    a.0 == b.0 || a.1 == b.1 || dx == dy
}

/// `t` lies strictly between `a` and `b` on their common line.
pub open spec fn strictly_between(a: (int, int), b: (int, int), t: (int, int)) -> bool {
    let j = cheb(a, t);
    &&& 0 < j < cheb(a, b)
    &&& t.0 - a.0 == scale(j, sgn(b.0 - a.0))
    &&& t.1 - a.1 == scale(j, sgn(b.1 - a.1))
}

/// No tile strictly between `a` and `b` is opaque.
pub open spec fn between_clear(a: (int, int), b: (int, int), opaque: spec_fn(int, int) -> bool) -> bool {
    forall|t: (int, int)| #[trigger] strictly_between(a, b, t) ==> !opaque(t.0, t.1)
}

/// Squared distance between two tiles.
pub open spec fn sq_dist(a: (int, int), b: (int, int)) -> int {
    (b.0 - a.0) * (b.0 - a.0) + (b.1 - a.1) * (b.1 - a.1)
}

/// The line of an octant that a tile of the octant's area on a common line with the origin
/// lies on: its slope, and that the line's tiles step from `a` toward `b`.
proof fn lemma_line_octant(a: (int, int), b: (int, int), o: int, c: int, dd: int) -> (k: int)
    requires
        on_common_line(a, b),
        a != b,
        0 <= o < 8,
        dd >= 1,
        octant_offset(c, dd, o) == (b.0 - a.0, b.1 - a.1),
    ensures
        -1 <= k <= 1,
        dd == cheb(a, b),
        c == scale(dd, k),
        forall|j: int|
            #[trigger] line_tile(a, o, k, j) == (a.0 + scale(j, sgn(b.0 - a.0)), a.1 + scale(
                j,
                sgn(b.1 - a.1),
            )),
{
    let u0 = sgn(b.0 - a.0);
    let u1 = sgn(b.1 - a.1);
    if o == 0 || o == 7 {
        u0
    } else if o == 1 || o == 2 {
        u1
    } else if o == 3 || o == 4 {
        -u0
    } else {
        -u1
    }
}

/// The line of an octant that steps from `a` toward `b`.
proof fn lemma_octant_toward(a: (int, int), b: (int, int)) -> (ok: (int, int))
    requires
        on_common_line(a, b),
        a != b,
    ensures
        0 <= ok.0 < 8,
        -1 <= ok.1 <= 1,
        forall|j: int|
            #[trigger] line_tile(a, ok.0, ok.1, j) == (a.0 + scale(j, sgn(b.0 - a.0)), a.1 + scale(
                j,
                sgn(b.1 - a.1),
            )),
        line_tile(a, ok.0, ok.1, cheb(a, b)) == b,
{
    let u0 = sgn(b.0 - a.0);
    let u1 = sgn(b.1 - a.1);
    if u1 == 1 {
        (0, u0)
    } else if u1 == -1 {
        (7, u0)
    } else if u0 == 1 {
        (1, 0)
    } else {
        (2, 0)
    }
}

/// The line's tiles before `b` are clear exactly when nothing between `a` and `b` is opaque.
proof fn lemma_clear_is_between(a: (int, int), b: (int, int), o: int, k: int, opaque: spec_fn(int, int) -> bool)
    requires
        on_common_line(a, b),
        a != b,
        forall|j: int|
            #[trigger] line_tile(a, o, k, j) == (a.0 + scale(j, sgn(b.0 - a.0)), a.1 + scale(
                j,
                sgn(b.1 - a.1),
            )),
    ensures
        line_clear(a, o, k, opaque, 1, cheb(a, b)) <==> between_clear(a, b, opaque),
{
    let n = cheb(a, b);
    if line_clear(a, o, k, opaque, 1, n) {
        assert forall|t: (int, int)| #[trigger] strictly_between(a, b, t) implies !opaque(t.0, t.1) by {
            let j = cheb(a, t);
            assert(line_tile(a, o, k, j) == t);
            assert(!line_blocked(a, o, k, opaque, j));
        }
    }
    if between_clear(a, b, opaque) {
        assert forall|j: int| 1 <= j < n implies !#[trigger] line_blocked(a, o, k, opaque, j) by {
            let t = line_tile(a, o, k, j);
            assert(cheb(a, t) == j);
            assert(strictly_between(a, b, t));
        }
    }
}

/// From a tile, another tile on a common row, column or diagonal that is not opaque is in
/// view exactly when it lies within the radius and nothing opaque stands between them.
pub proof fn lemma_line_view(a: (int, int), b: (int, int), radius: int, opaque: spec_fn(int, int) -> bool)
    requires
        on_common_line(a, b),
        a != b,
        !opaque(b.0, b.1),
    ensures
        fov_set(a, radius, opaque).contains(b) <==> (cheb(a, b) <= radius && sq_dist(a, b) <= radius
            * radius && between_clear(a, b, opaque)),
{
    let n = cheb(a, b);
    assert(fov_set(a, radius, opaque) == Set::empty().insert(a).union(fov_octants(a, radius, opaque, 0)));
    lemma_octants_member(a, radius, opaque, 0, b);
    let ok = lemma_octant_toward(a, b);
    let (o, k) = ok;
    lemma_row_line(a, radius, o, opaque, 1, (-1, 1), (1, 1), k, n);
    lemma_clear_is_between(a, b, o, k, opaque);
    lemma_line_sq(k, n, o);
    assert(octant_offset(scale(n, k), n, o) == (b.0 - a.0, b.1 - a.1));
    if fov_set(a, radius, opaque).contains(b) {
        let o2 = choose|o2: int| 0 <= o2 < 8 && #[trigger] fov_row(a, radius, o2, opaque, 1, (-1, 1), (1, 1)).contains(b);
        lemma_row_shape(a, radius, o2, opaque, 1, (-1, 1), (1, 1));
        assert(in_octant_from(a, o2, 1, b));
        let (c, dd) = choose|c: int, dd: int|
            dd >= 1 && #[trigger] octant_offset(c, dd, o2) == (b.0 - a.0, b.1 - a.1);
        let k2 = lemma_line_octant(a, b, o2, c, dd);
        lemma_row_line(a, radius, o2, opaque, 1, (-1, 1), (1, 1), k2, n);
        lemma_clear_is_between(a, b, o2, k2, opaque);
        lemma_line_sq(k2, n, o2);
        assert(line_tile(a, o2, k2, n) == b);
    }
}

/// Sight along a row, a column or a diagonal is symmetric: of two tiles on one such line,
/// neither opaque, each is in view of the other exactly when the other is in view of it.
pub proof fn lemma_line_sight_symmetric(a: (int, int), b: (int, int), radius: int, opaque: spec_fn(int, int) -> bool)
    requires
        on_common_line(a, b),
        !opaque(a.0, a.1),
        !opaque(b.0, b.1),
    ensures
        fov_set(a, radius, opaque).contains(b) <==> fov_set(b, radius, opaque).contains(a),
{
    if a != b {
        lemma_line_view(a, b, radius, opaque);
        lemma_line_view(b, a, radius, opaque);
        assert(sq_dist(a, b) == sq_dist(b, a)) by (nonlinear_arith);
        if between_clear(a, b, opaque) {
            assert forall|t: (int, int)| #[trigger] strictly_between(b, a, t) implies !opaque(t.0, t.1) by {
                assert(strictly_between(a, b, t));
            }
        }
        if between_clear(b, a, opaque) {
            assert forall|t: (int, int)| #[trigger] strictly_between(a, b, t) implies !opaque(t.0, t.1) by {
                assert(strictly_between(b, a, t));
            }
        }
    }
}

} // verus!
