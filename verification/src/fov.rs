//! Symmetric shadowcasting field of view, and Bresenham line of sight.
use crate::fraction::Fraction;
use crate::point_set::PointSet;
use vstd::prelude::*;

verus! {

/// The largest radius for which every intermediate value of the scan fits in `i32`.
pub const MAX_FOV_RADIUS: i32 = 23169;

/// Integer division rounding toward zero (Rust's `/` on signed integers), for `b > 0`.
pub open spec fn trunc_div(a: int, b: int) -> int {
    if a >= 0 {
        a / b
    } else {
        -((-a) / b)
    }
}

/// A slope `num / den` as a pair of integers.
pub open spec fn slope_of(f: Fraction) -> (int, int) {
    (f.numerator as int, f.denominator as int)
}

/// `n / d` (for `d > 0`) rounded to the nearest integer, ties upward: `floor(n / d + 1/2)`.
pub open spec fn round_up_spec(n: int, d: int) -> int {
    (2 * n + d) / (2 * d)
}

/// `n / d` (for `d > 0`) rounded to the nearest integer, ties downward: `ceil(n / d - 1/2)`.
pub open spec fn round_down_spec(n: int, d: int) -> int {
    -((d - 2 * n) / (2 * d))
}

/// Floor division of a negative number by a positive one, through division of positives.
proof fn lemma_floor_of_negative(m: int, b: int)
    requires
        m > 0,
        b > 0,
    ensures
        (-m) / b == -((m + b - 1) / b),
{
    let q = m / b;
    let r = m % b;
    vstd::arithmetic::div_mod::lemma_fundamental_div_mod(m, b);
    assert(m == b * q + r && 0 <= r < b);
    assert(b * q == q * b) by (nonlinear_arith);
    if r == 0 {
        assert((-q) * b == -(q * b)) by (nonlinear_arith);
        vstd::arithmetic::div_mod::lemma_fundamental_div_mod_converse(-m, b, -q, 0);
        vstd::arithmetic::div_mod::lemma_fundamental_div_mod_converse(m + b - 1, b, q, b - 1);
    } else {
        assert((-q - 1) * b == -(q * b) - b) by (nonlinear_arith);
        assert((q + 1) * b == q * b + b) by (nonlinear_arith);
        vstd::arithmetic::div_mod::lemma_fundamental_div_mod_converse(-m, b, -q - 1, b - r);
        vstd::arithmetic::div_mod::lemma_fundamental_div_mod_converse(m + b - 1, b, q + 1, r - 1);
    }
}

/// `a / b` rounded down, for `b > 0`, by dividing nonnegative numbers only.
fn floor_div(a: i64, b: i64) -> (q: i64)
    requires
        b > 0,
        -0x1_0000_0000 < a < 0x1_0000_0000,
        b < 0x1_0000_0000,
    ensures
        q == a as int / b as int,
        -0x1_0000_0000 < q < 0x1_0000_0000,
{
    if a >= 0 {
        assert(a as int / b as int <= a as int) by (nonlinear_arith)
            requires
                a >= 0,
                b > 0,
        ;
        a / b
    } else {
        proof {
            lemma_floor_of_negative(-a as int, b as int);
        }
        assert(0 <= (-(a as int) + b as int - 1) / (b as int) <= -(a as int)) by (nonlinear_arith)
            requires
                -(a as int) >= 1,
                b > 0,
        ;
        -((-a + b - 1) / b)
    }
}

/// The first column a row at `depth` between slopes `s` and `e` scans.
pub open spec fn first_col(depth: int, s: (int, int)) -> int {
    round_up_spec(depth * s.0, s.1)
}

/// The last column a row at `depth` between slopes `s` and `e` scans.
pub open spec fn last_col(depth: int, e: (int, int)) -> int {
    round_down_spec(depth * e.0, e.1)
}

/// The slope through the left edge of tile `col` at `depth`.
pub open spec fn edge_slope(col: int, depth: int) -> (int, int) {
    (2 * col - 1, 2 * depth)
}

/// Whether the center of tile `col` lies within the sector between slopes `s` and `e`.
pub open spec fn symmetric_spec(depth: int, s: (int, int), e: (int, int), col: int) -> bool {
    col * s.1 >= depth * s.0 && col * e.1 <= depth * e.0
}

/// The offset of tile `(col, depth)` of octant `octant` from the origin.
pub open spec fn octant_offset(col: int, depth: int, octant: int) -> (int, int) {
    if octant == 0 {
        (col, depth)
    } else if octant == 1 {
        (depth, col)
    } else if octant == 2 {
        (-depth, col)
    } else if octant == 3 {
        (-col, depth)
    } else if octant == 4 {
        (-col, -depth)
    } else if octant == 5 {
        (-depth, -col)
    } else if octant == 6 {
        (depth, -col)
    } else {
        (col, -depth)
    }
}

/// The tiles that scanning a row at `depth` between slopes `s` and `e` reveals,
/// together with every row that the scan continues into.
pub open spec fn fov_row(
    origin: (int, int),
    radius: int,
    octant: int,
    opaque: spec_fn(int, int) -> bool,
    depth: int,
    s: (int, int),
    e: (int, int),
) -> Set<(int, int)>
    decreases radius + 1 - depth, last_col(depth, e) - first_col(depth, s) + 2,
{
    if depth > radius {
        Set::empty()
    } else if first_col(depth, s) > last_col(depth, e) {
        Set::empty()
    } else {
        fov_cols(
            origin,
            radius,
            octant,
            opaque,
            depth,
            s,
            e,
            first_col(depth, s),
            last_col(depth, e),
            None,
            s,
        )
    }
}

/// The tiles revealed by the scan of a row from column `col` through `end_col`,
/// where `prev` is whether the previous tile was opaque and `cur` the current start slope.
pub open spec fn fov_cols(
    origin: (int, int),
    radius: int,
    octant: int,
    opaque: spec_fn(int, int) -> bool,
    depth: int,
    s: (int, int),
    e: (int, int),
    col: int,
    end_col: int,
    prev: Option<bool>,
    cur: (int, int),
) -> Set<(int, int)>
    decreases radius + 1 - depth, end_col + 1 - col,
{
    if depth > radius {
        Set::empty()
    } else if col > end_col {
        if prev == Some(false) {
            fov_row(origin, radius, octant, opaque, depth + 1, cur, e)
        } else {
            Set::empty()
        }
    } else {
        let d = octant_offset(col, depth, octant);
        let p = (origin.0 + d.0, origin.1 + d.1);
        let is_opaque = opaque(p.0, p.1);
        let here = if (is_opaque || symmetric_spec(depth, s, e, col)) && d.0 * d.0 + d.1 * d.1
            <= radius * radius {
            Set::empty().insert(p)
        } else {
            Set::empty()
        };
        let below = if prev == Some(false) && is_opaque {
            fov_row(origin, radius, octant, opaque, depth + 1, cur, edge_slope(col, depth))
        } else {
            Set::empty()
        };
        let next_cur = if prev == Some(true) && !is_opaque {
            edge_slope(col, depth)
        } else {
            cur
        };
        here.union(below).union(
            fov_cols(
                origin,
                radius,
                octant,
                opaque,
                depth,
                s,
                e,
                col + 1,
                end_col,
                Some(is_opaque),
                next_cur,
            ),
        )
    }
}

/// The tiles revealed in octants `octant..8`.
pub open spec fn fov_octants(
    origin: (int, int),
    radius: int,
    opaque: spec_fn(int, int) -> bool,
    octant: int,
) -> Set<(int, int)>
    decreases 8 - octant,
{
    if octant >= 8 {
        Set::empty()
    } else {
        fov_row(origin, radius, octant, opaque, 1, (-1, 1), (1, 1)).union(
            fov_octants(origin, radius, opaque, octant + 1),
        )
    }
}

/// The field of view from `origin` with sight radius `radius`: the origin and
/// every tile that symmetric shadowcasting reveals in the eight octants.
pub open spec fn fov_set(origin: (int, int), radius: int, opaque: spec_fn(int, int) -> bool) -> Set<
    (int, int),
> {
    Set::empty().insert(origin).union(fov_octants(origin, radius, opaque, 0))
}

/// The opacity that a tile predicate `f` reports for each integer point.
pub open spec fn opacity<F: Fn(i32, i32) -> bool>(f: F) -> spec_fn(int, int) -> bool {
    |x: int, y: int| call_ensures(f, (x as i32, y as i32), true)
}

/// `f` may be called on every tile and gives one answer for each tile.
pub open spec fn is_tile_predicate<F: Fn(i32, i32) -> bool>(f: F) -> bool {
    &&& forall|x: i32, y: i32| call_requires(f, (x, y))
    &&& forall|x: i32, y: i32| !(call_ensures(f, (x, y), true) && call_ensures(f, (x, y), false))
}

/// The Chebyshev distance between two tiles.
pub open spec fn tile_distance(p: (int, int), q: (int, int)) -> int {
    let dx = if p.0 >= q.0 { p.0 - q.0 } else { q.0 - p.0 };
    let dy = if p.1 >= q.1 { p.1 - q.1 } else { q.1 - p.1 };
    if dx >= dy { dx } else { dy }
}

/// `f` may be called on every tile at Chebyshev distance `1..=radius` from `origin`, the
/// tiles a scan asks about, and gives one answer for each of them.
pub open spec fn is_predicate_around<F: Fn(i32, i32) -> bool>(f: F, origin: (i32, i32), radius: i32) -> bool {
    &&& forall|x: i32, y: i32|
        1 <= #[trigger] tile_distance((x as int, y as int), (origin.0 as int, origin.1 as int)) <= radius
            ==> call_requires(f, (x, y))
    &&& forall|x: i32, y: i32|
        1 <= #[trigger] tile_distance((x as int, y as int), (origin.0 as int, origin.1 as int)) <= radius
            ==> !(call_ensures(f, (x, y), true) && call_ensures(f, (x, y), false))
}

/// A slope that lies in `[-1, 1]` with a positive denominator small enough for the scan.
pub open spec fn slope_in_sector(f: (int, int)) -> bool {
    &&& 0 < f.1 <= 2 * MAX_FOV_RADIUS + 2
    &&& -f.1 <= f.0 <= f.1
}

/// `origin` is far enough from the `i32` limits that every tile within `radius` is representable.
pub open spec fn origin_fits(origin: (i32, i32), radius: i32) -> bool {
    radius < 1 || (i32::MIN + radius <= origin.0 && origin.0 <= i32::MAX - radius && i32::MIN
        + radius <= origin.1 && origin.1 <= i32::MAX - radius)
}

/// One row of one octant of a shadowcasting scan.
#[derive(Clone, Copy, Debug)]
pub struct Row {
    depth: i32,
    start_slope: Fraction,
    end_slope: Fraction,
}

impl Row {
    fn new(depth: i32, start_slope: Fraction, end_slope: Fraction) -> (r: Self)
        ensures
            r.depth == depth,
            r.start_slope == start_slope,
            r.end_slope == end_slope,
    {
        Self { depth, start_slope, end_slope }
    }

    fn next(self) -> (r: Self)
        requires
            self.depth < i32::MAX,
        ensures
            r.depth == self.depth + 1,
            r.start_slope == self.start_slope,
            r.end_slope == self.end_slope,
    {
        Self::new(self.depth + 1, self.start_slope, self.end_slope)
    }

    fn slope(col: i32, depth: i32) -> (f: Fraction)
        requires
            -0x4000_0000 < col < 0x4000_0000,
            -0x4000_0000 < depth < 0x4000_0000,
        ensures
            slope_of(f) == edge_slope(col as int, depth as int),
    {
        Fraction::new(2 * col - 1, 2 * depth)
    }

    fn round_ties_up(fraction: Fraction) -> (r: i32)
        requires
            0 < fraction.denominator < 0x1000_0000,
            -0x4000_0000 < fraction.numerator < 0x4000_0000,
        ensures
            r == round_up_spec(fraction.numerator as int, fraction.denominator as int),
    {
        let q = floor_div(2 * fraction.numerator as i64 + fraction.denominator as i64, 2 * fraction.denominator as i64);
        assert(-0x4000_0002 < q < 0x4000_0002) by (nonlinear_arith)
            requires
                q == (2 * fraction.numerator + fraction.denominator) / (2 * fraction.denominator),
                0 < fraction.denominator,
                -0x4000_0000 < fraction.numerator < 0x4000_0000,
        ;
        q as i32
    }

    fn round_ties_down(fraction: Fraction) -> (r: i32)
        requires
            0 < fraction.denominator < 0x1000_0000,
            -0x4000_0000 < fraction.numerator < 0x4000_0000,
        ensures
            r == round_down_spec(fraction.numerator as int, fraction.denominator as int),
    {
        let q = floor_div(fraction.denominator as i64 - 2 * fraction.numerator as i64, 2 * fraction.denominator as i64);
        assert(-0x4000_0002 < q < 0x4000_0002) by (nonlinear_arith)
            requires
                q == (fraction.denominator - 2 * fraction.numerator) / (2 * fraction.denominator),
                0 < fraction.denominator,
                -0x4000_0000 < fraction.numerator < 0x4000_0000,
        ;
        -(q as i32)
    }

    fn col_range(&self) -> (r: Option<(i32, i32)>)
        requires
            1 <= self.depth <= MAX_FOV_RADIUS,
            slope_in_sector(slope_of(self.start_slope)),
            slope_in_sector(slope_of(self.end_slope)),
        ensures
            ({
                let start = first_col(self.depth as int, slope_of(self.start_slope));
                let end = last_col(self.depth as int, slope_of(self.end_slope));
                match r {
                    Some((a, b)) => start <= end && a == start && b == end,
                    None => start > end,
                }
            }),
    {
        let d = self.depth;
        let sn = self.start_slope.numerator;
        let en = self.end_slope.numerator;
        assert(-MAX_FOV_RADIUS * (2 * MAX_FOV_RADIUS + 2) <= d * sn <= MAX_FOV_RADIUS * (2
            * MAX_FOV_RADIUS + 2)) by (nonlinear_arith)
            requires
                1 <= d <= MAX_FOV_RADIUS,
                -(2 * MAX_FOV_RADIUS + 2) <= sn <= 2 * MAX_FOV_RADIUS + 2,
        ;
        assert(-MAX_FOV_RADIUS * (2 * MAX_FOV_RADIUS + 2) <= d * en <= MAX_FOV_RADIUS * (2
            * MAX_FOV_RADIUS + 2)) by (nonlinear_arith)
            requires
                1 <= d <= MAX_FOV_RADIUS,
                -(2 * MAX_FOV_RADIUS + 2) <= en <= 2 * MAX_FOV_RADIUS + 2,
        ;
        let start = Self::round_ties_up(Fraction::new(d * sn, self.start_slope.denominator));
        let end = Self::round_ties_down(Fraction::new(d * en, self.end_slope.denominator));
        if start <= end {
            Some((start, end))
        } else {
            None
        }
    }

    fn is_symmetric(&self, col: i32) -> (b: bool)
        ensures
            b == symmetric_spec(
                self.depth as int,
                slope_of(self.start_slope),
                slope_of(self.end_slope),
                col as int,
            ),
    {
        assert(-0x8000_0000 * 0x8000_0000 <= col * self.start_slope.denominator <= 0x8000_0000
            * 0x8000_0000) by (nonlinear_arith);
        assert(-0x8000_0000 * 0x8000_0000 <= self.depth * self.start_slope.numerator
            <= 0x8000_0000 * 0x8000_0000) by (nonlinear_arith);
        assert(-0x8000_0000 * 0x8000_0000 <= col * self.end_slope.denominator <= 0x8000_0000
            * 0x8000_0000) by (nonlinear_arith);
        assert(-0x8000_0000 * 0x8000_0000 <= self.depth * self.end_slope.numerator <= 0x8000_0000
            * 0x8000_0000) by (nonlinear_arith);
        col as i64 * self.start_slope.denominator as i64 >= self.depth as i64
            * self.start_slope.numerator as i64 && col as i64 * self.end_slope.denominator as i64
            <= self.depth as i64 * self.end_slope.numerator as i64
    }
}

fn transform_octant(p: (i32, i32), octant: i32) -> (r: (i32, i32))
    requires
        0 <= octant < 8,
        p.0 > i32::MIN,
        p.1 > i32::MIN,
    ensures
        (r.0 as int, r.1 as int) == octant_offset(p.0 as int, p.1 as int, octant as int),
{
    let (x, y) = p;
    match octant {
        0 => (x, y),
        1 => (y, x),
        2 => (-y, x),
        3 => (-x, y),
        4 => (-x, -y),
        5 => (-y, -x),
        6 => (y, -x),
        _ => (x, -y),
    }
}


/// The tiles that symmetric shadowcasting reveals from `origin` within `radius`,
/// where `is_opaque(x, y)` tells whether tile `(x, y)` blocks sight.
/// The origin is always visible; opaque tiles that bound the view are visible too. Only the
/// tiles at Chebyshev distance `1..=radius` from the origin are asked about, so `is_opaque`
/// need answer only there.
pub fn compute_fov(origin: (i32, i32), radius: i32, is_opaque: impl Fn(i32, i32) -> bool) -> (visible:
    PointSet)
    requires
        radius <= MAX_FOV_RADIUS,
        origin_fits(origin, radius),
        is_predicate_around(is_opaque, origin, radius),
    ensures
        visible@ == fov_set((origin.0 as int, origin.1 as int), radius as int, opacity(is_opaque)),
        visible@.contains((origin.0 as int, origin.1 as int)),
{
    let ghost o = (origin.0 as int, origin.1 as int);
    let ghost op = opacity(is_opaque);
    let mut visible = PointSet::new();
    visible.insert(origin);
    let mut octant: i32 = 0;
    while octant < 8
        invariant
            0 <= octant <= 8,
            radius <= MAX_FOV_RADIUS,
            origin_fits(origin, radius),
            is_predicate_around(is_opaque, origin, radius),
            o == (origin.0 as int, origin.1 as int),
            op == opacity(is_opaque),
            visible@.union(fov_octants(o, radius as int, op, octant as int)) == fov_set(
                o,
                radius as int,
                op,
            ),
        decreases 8 - octant,
    {
        let ghost before = visible@;
        let first_row = Row::new(1, Fraction::new(-1, 1), Fraction::new(1, 1));
        scan_octant(origin, radius, octant, &is_opaque, &mut visible, first_row);
        proof {
            assert(fov_octants(o, radius as int, op, octant as int) == fov_row(
                o,
                radius as int,
                octant as int,
                op,
                1,
                (-1, 1),
                (1, 1),
            ).union(fov_octants(o, radius as int, op, octant + 1)));
            assert(visible@.union(fov_octants(o, radius as int, op, octant + 1)) =~= before.union(
                fov_octants(o, radius as int, op, octant as int),
            ));
        }
        octant += 1;
    }
    proof {
        crate::fov_laws::lemma_fov_origin_and_radius(o, radius as int, op);
    }
    visible
}

fn scan_octant<F: Fn(i32, i32) -> bool>(
    origin: (i32, i32),
    radius: i32,
    octant: i32,
    is_opaque: &F,
    visible: &mut PointSet,
    row: Row,
)
    requires
        0 <= octant < 8,
        radius <= MAX_FOV_RADIUS,
        origin_fits(origin, radius),
        is_predicate_around(*is_opaque, origin, radius),
        1 <= row.depth,
        slope_in_sector(slope_of(row.start_slope)),
        slope_in_sector(slope_of(row.end_slope)),
    ensures
        row.depth > radius ==> final(visible)@ == old(visible)@,
        final(visible)@ == old(visible)@.union(
            fov_row(
                (origin.0 as int, origin.1 as int),
                radius as int,
                octant as int,
                opacity(*is_opaque),
                row.depth as int,
                slope_of(row.start_slope),
                slope_of(row.end_slope),
            ),
        ),
    decreases (if row.depth > radius {
        0
    } else {
        radius + 1 - row.depth
    }),
{
    let ghost o = (origin.0 as int, origin.1 as int);
    let ghost op = opacity(*is_opaque);
    let ghost s = slope_of(row.start_slope);
    let ghost e = slope_of(row.end_slope);
    let ghost depth = row.depth as int;
    if row.depth > radius {
        assert(old(visible)@.union(fov_row(o, radius as int, octant as int, op, depth, s, e))
            =~= old(visible)@);
        return;
    }
    let (start_col, end_col) = match row.col_range() {
        Some(range) => range,
        None => {
            assert(old(visible)@.union(fov_row(o, radius as int, octant as int, op, depth, s, e))
                =~= old(visible)@);
            return;
        },
    };
    proof {
        lemma_col_bounds(depth, s, e);
    }
    assert(radius * radius <= MAX_FOV_RADIUS * MAX_FOV_RADIUS) by (nonlinear_arith)
        requires
            1 <= radius <= MAX_FOV_RADIUS,
    ;
    let radius_sq = radius * radius;
    let mut previous_opaque: Option<bool> = None;
    let mut start_slope = row.start_slope;
    let mut col = start_col;
    while col <= end_col
        invariant
            0 <= octant < 8,
            1 <= row.depth <= radius <= MAX_FOV_RADIUS,
            origin_fits(origin, radius),
            is_predicate_around(*is_opaque, origin, radius),
            radius_sq == radius * radius,
            start_col == first_col(depth, s),
            end_col == last_col(depth, e),
            -depth <= start_col <= col <= end_col + 1,
            end_col <= depth,
            col == start_col <==> previous_opaque is None,
            slope_in_sector(slope_of(start_slope)),
            slope_in_sector(slope_of(row.end_slope)),
            o == (origin.0 as int, origin.1 as int),
            op == opacity(*is_opaque),
            s == slope_of(row.start_slope),
            e == slope_of(row.end_slope),
            depth == row.depth as int,
            visible@.union(
                fov_cols(
                    o,
                    radius as int,
                    octant as int,
                    op,
                    depth,
                    s,
                    e,
                    col as int,
                    end_col as int,
                    previous_opaque,
                    slope_of(start_slope),
                ),
            ) == old(visible)@.union(fov_row(o, radius as int, octant as int, op, depth, s, e)),
        decreases end_col + 1 - col,
    {
        let ghost before = visible@;
        let ghost cur = slope_of(start_slope);
        let ghost prev_before = previous_opaque;
        let (dx, dy) = transform_octant((col, row.depth), octant);
        let x = origin.0 + dx;
        let y = origin.1 + dy;
        proof {
            assert(tile_distance((x as int, y as int), (origin.0 as int, origin.1 as int)) == depth);
        }
        let opaque = is_opaque(x, y);
        proof {
            if !opaque {
                assert(!call_ensures(*is_opaque, (x, y), true));
            }
            assert(opaque == op(x as int, y as int));
        }
        let symmetric = row.is_symmetric(col);
        assert(-depth <= dx <= depth && -depth <= dy <= depth);
        assert(0 <= dx * dx <= MAX_FOV_RADIUS * MAX_FOV_RADIUS) by (nonlinear_arith)
            requires
                -MAX_FOV_RADIUS <= dx <= MAX_FOV_RADIUS,
        ;
        assert(0 <= dy * dy <= MAX_FOV_RADIUS * MAX_FOV_RADIUS) by (nonlinear_arith)
            requires
                -MAX_FOV_RADIUS <= dy <= MAX_FOV_RADIUS,
        ;
        if (opaque || symmetric) && (dx * dx + dy * dy <= radius_sq) {
            visible.insert((x, y));
        }
        let ghost after_here = visible@;
        match previous_opaque {
            Some(prev_opaque) => {
                if prev_opaque && !opaque {
                    start_slope = Row::slope(col, row.depth);
                } else if !prev_opaque && opaque {
                    scan_octant(
                        origin,
                        radius,
                        octant,
                        is_opaque,
                        visible,
                        Row::new(row.next().depth, start_slope, Row::slope(col, row.depth)),
                    );
                }
            },
            None => {},
        }
        previous_opaque = Some(opaque);
        proof {
            assert(visible@.union(
                fov_cols(
                    o,
                    radius as int,
                    octant as int,
                    op,
                    depth,
                    s,
                    e,
                    col + 1,
                    end_col as int,
                    previous_opaque,
                    slope_of(start_slope),
                ),
            ) =~= before.union(
                fov_cols(
                    o,
                    radius as int,
                    octant as int,
                    op,
                    depth,
                    s,
                    e,
                    col as int,
                    end_col as int,
                    prev_before,
                    cur,
                ),
            ));
        }
        col += 1;
    }
    match previous_opaque {
        Some(false) => {
            scan_octant(
                origin,
                radius,
                octant,
                is_opaque,
                visible,
                Row::new(row.next().depth, start_slope, row.end_slope),
            );
        },
        _ => {},
    }
}

/// Every column of a row whose slopes lie in `[-1, 1]` lies within the octant.
proof fn lemma_col_bounds(depth: int, s: (int, int), e: (int, int))
    requires
        1 <= depth <= MAX_FOV_RADIUS,
        slope_in_sector(s),
        slope_in_sector(e),
    ensures
        first_col(depth, s) >= -depth,
        last_col(depth, e) <= depth,
{
    let n = 2 * (depth * s.0) + s.1;
    let d = 2 * s.1;
    assert(n >= -depth * d) by (nonlinear_arith)
        requires
            n == 2 * (depth * s.0) + s.1,
            d == 2 * s.1,
            s.0 >= -s.1,
            s.1 > 0,
            depth >= 1,
    ;
    vstd::arithmetic::div_mod::lemma_fundamental_div_mod(n, d);
    assert(n / d >= -depth) by (nonlinear_arith)
        requires
            n >= -depth * d,
            n == d * (n / d) + n % d,
            0 <= n % d < d,
            d > 0,
    ;
    let m = d2_num(depth, e);
    let d2 = 2 * e.1;
    assert(m >= -depth * d2) by (nonlinear_arith)
        requires
            m == e.1 - 2 * (depth * e.0),
            d2 == 2 * e.1,
            e.0 <= e.1,
            e.1 > 0,
            depth >= 1,
    ;
    vstd::arithmetic::div_mod::lemma_fundamental_div_mod(m, d2);
    assert(m / d2 >= -depth) by (nonlinear_arith)
        requires
            m >= -depth * d2,
            m == d2 * (m / d2) + m % d2,
            0 <= m % d2 < d2,
            d2 > 0,
    ;
}

/// The numerator of the last-column division.
spec fn d2_num(depth: int, e: (int, int)) -> int {
    e.1 - 2 * (depth * e.0)
}

/// The largest coordinate difference for which the line walk stays within `i32`.
pub const MAX_LOS_SPAN: i32 = 0x2aaa_aaaa;

/// The larger of the two coordinate distances.
pub open spec fn major_span(dx: int, dy: int) -> int {
    if dx >= dy {
        dx
    } else {
        dy
    }
}

/// One Bresenham step from `(x, y)` with error term `err`: the next point and error.
pub open spec fn line_step(
    x: int,
    y: int,
    err: int,
    dx: int,
    dy: int,
    sx: int,
    sy: int,
    inclusive: bool,
) -> (int, int, int) {
    let err1 = if steps_x(err, dy, inclusive) {
        err - dy
    } else {
        err
    };
    let x1 = if steps_x(err, dy, inclusive) {
        x + sx
    } else {
        x
    };
    let err2 = if steps_y(err, dx, inclusive) {
        err1 + dx
    } else {
        err1
    };
    let y1 = if steps_y(err, dx, inclusive) {
        y + sy
    } else {
        y
    };
    (x1, y1, err2)
}

/// Whether a walk step with error term `err` moves along x. The line of sight walk compares
/// strictly; the ray walk of the viewshed (`inclusive`) does not.
pub open spec fn steps_x(err: int, dy: int, inclusive: bool) -> bool {
    if inclusive {
        2 * err >= -dy
    } else {
        2 * err > -dy
    }
}

/// Whether a walk step with error term `err` moves along y.
pub open spec fn steps_y(err: int, dx: int, inclusive: bool) -> bool {
    if inclusive {
        2 * err <= dx
    } else {
        2 * err < dx
    }
}

/// The points of the Bresenham walk from `(x, y)` toward `to`, for at most `fuel` steps,
/// ending at the first visit of `to`.
pub open spec fn line_from(
    x: int,
    y: int,
    err: int,
    to: (int, int),
    dx: int,
    dy: int,
    sx: int,
    sy: int,
    inclusive: bool,
    fuel: nat,
) -> Seq<(int, int)>
    decreases fuel,
{
    if (x, y) == to || fuel == 0 {
        seq![(x, y)]
    } else {
        let n = line_step(x, y, err, dx, dy, sx, sy, inclusive);
        seq![(x, y)] + line_from(n.0, n.1, n.2, to, dx, dy, sx, sy, inclusive, (fuel - 1) as nat)
    }
}

/// The distance along each axis from `from` to `to`.
pub open spec fn span_x(from: (int, int), to: (int, int)) -> int {
    if to.0 >= from.0 {
        to.0 - from.0
    } else {
        from.0 - to.0
    }
}

pub open spec fn span_y(from: (int, int), to: (int, int)) -> int {
    if to.1 >= from.1 {
        to.1 - from.1
    } else {
        from.1 - to.1
    }
}

/// The Bresenham line from `from` to `to`, both ends included.
pub open spec fn bresenham_line(from: (int, int), to: (int, int)) -> Seq<(int, int)> {
    let dx = span_x(from, to);
    let dy = span_y(from, to);
    let sx: int = if from.0 < to.0 {
        1
    } else {
        -1
    };
    let sy: int = if from.1 < to.1 {
        1
    } else {
        -1
    };
    line_from(from.0, from.1, dx - dy, to, dx, dy, sx, sy, false, major_span(dx, dy) as nat)
}

/// No point strictly between the two ends of `line` is opaque.
pub open spec fn line_is_clear(line: Seq<(int, int)>, opaque: spec_fn(int, int) -> bool) -> bool {
    forall|k: int| 0 < k < line.len() - 1 ==> !opaque(#[trigger] line[k].0, line[k].1)
}

/// The coordinates of `from` and `to` are close enough for the walk's arithmetic.
pub open spec fn los_fits(from: (i32, i32), to: (i32, i32)) -> bool {
    &&& -MAX_LOS_SPAN <= to.0 - from.0 <= MAX_LOS_SPAN
    &&& -MAX_LOS_SPAN <= to.1 - from.1 <= MAX_LOS_SPAN
}

/// The invariant of the walk after `i` steps along x and `j` along y.
pub open spec fn walk_inv(dx: int, dy: int, i: int, j: int) -> bool {
    &&& 0 <= i <= dx
    &&& 0 <= j <= dy
    &&& -major_span(dx, dy) <= 2 * (j * dx - i * dy) <= major_span(dx, dy)
}

/// The steps taken along the longer axis.
pub open spec fn major_steps(dx: int, dy: int, i: int, j: int) -> int {
    if dx >= dy {
        i
    } else {
        j
    }
}

/// A step of the walk keeps it within the rectangle between the ends, and advances along the
/// longer axis.
proof fn lemma_walk_step(dx: int, dy: int, i: int, j: int, inclusive: bool)
    requires
        dx >= 0,
        dy >= 0,
        walk_inv(dx, dy, i, j),
        !(i == dx && j == dy),
    ensures
        ({
            let err = dx - dy + (j * dx - i * dy);
            let i2 = if steps_x(err, dy, inclusive) {
                i + 1
            } else {
                i
            };
            let j2 = if steps_y(err, dx, inclusive) {
                j + 1
            } else {
                j
            };
            &&& walk_inv(dx, dy, i2, j2)
            &&& major_steps(dx, dy, i2, j2) == major_steps(dx, dy, i, j) + 1
            &&& dx - dy + (j2 * dx - i2 * dy) == (if steps_x(err, dy, inclusive) {
                err - dy
            } else {
                err
            }) + (if steps_y(err, dx, inclusive) {
                dx
            } else {
                0
            })
        }),
{
    let d = j * dx - i * dy;
    let err = dx - dy + d;
    let i2 = if steps_x(err, dy, inclusive) {
        i + 1
    } else {
        i
    };
    let j2 = if steps_y(err, dx, inclusive) {
        j + 1
    } else {
        j
    };
    assert((j + 1) * dx == j * dx + dx) by (nonlinear_arith);
    assert((i + 1) * dy == i * dy + dy) by (nonlinear_arith);
    if dx >= dy {
        if dx == dy {
            assert(d == (j - i) * dx) by (nonlinear_arith)
                requires
                    d == j * dx - i * dy,
                    dx == dy,
            ;
            assert(j == i) by (nonlinear_arith)
                requires
                    d == (j - i) * dx,
                    -dx <= 2 * d <= dx,
                    dx > 0,
            ;
        }
        assert(steps_x(err, dy, inclusive));
        if i == dx {
            lemma_walk_end(dx, dy, i, j);
        }
        if j == dy {
            assert(d == dy * (dx - i)) by (nonlinear_arith)
                requires
                    d == j * dx - i * dy,
                    j == dy,
            ;
            assert(i < dx);
            assert(d >= dy) by (nonlinear_arith)
                requires
                    d == dy * (dx - i),
                    i < dx,
                    dy >= 0,
            ;
            assert(!(steps_y(err, dx, inclusive)));
        }
    } else {
        assert(steps_y(err, dx, inclusive));
        if j == dy {
            lemma_walk_end(dx, dy, i, j);
        }
        if i == dx {
            assert(d == dx * (j - dy)) by (nonlinear_arith)
                requires
                    d == j * dx - i * dy,
                    i == dx,
            ;
            assert(j < dy);
            assert(d <= -dx) by (nonlinear_arith)
                requires
                    d == dx * (j - dy),
                    j < dy,
                    dx >= 0,
            ;
            assert(!(steps_x(err, dy, inclusive)));
        }
    }
    assert(j2 * dx - i2 * dy == d + (if steps_y(err, dx, inclusive) {
        dx
    } else {
        0
    }) - (if steps_x(err, dy, inclusive) {
        dy
    } else {
        0
    }));
}

/// A walk that has taken as many steps along the longer axis as it is long is at its end.
pub(crate) proof fn lemma_walk_end(dx: int, dy: int, i: int, j: int)
    requires
        dx >= 0,
        dy >= 0,
        walk_inv(dx, dy, i, j),
        major_steps(dx, dy, i, j) == major_span(dx, dy),
    ensures
        i == dx,
        j == dy,
{
    let d = j * dx - i * dy;
    if dx >= dy {
        if dx > 0 {
            assert(d == dx * (j - dy)) by (nonlinear_arith)
                requires
                    d == j * dx - i * dy,
                    i == dx,
            ;
            assert(j == dy) by (nonlinear_arith)
                requires
                    d == dx * (j - dy),
                    -dx <= 2 * d <= dx,
                    dx > 0,
            ;
        }
    } else {
        assert(d == dy * (dx - i)) by (nonlinear_arith)
            requires
                d == j * dx - i * dy,
                j == dy,
        ;
        assert(i == dx) by (nonlinear_arith)
            requires
                d == dy * (dx - i),
                -dy <= 2 * d <= dy,
                dy > 0,
        ;
    }
}

/// The walk from step `(i, j)` visits `to` exactly at its last point.
pub(crate) proof fn lemma_walk_reaches(
    from: (int, int),
    to: (int, int),
    dx: int,
    dy: int,
    sx: int,
    sy: int,
    i: int,
    j: int,
    inclusive: bool,
)
    requires
        dx == span_x(from, to),
        dy == span_y(from, to),
        sx == (if from.0 < to.0 {
            1int
        } else {
            -1int
        }),
        sy == (if from.1 < to.1 {
            1int
        } else {
            -1int
        }),
        walk_inv(dx, dy, i, j),
    ensures
        ({
            let line = line_from(
                from.0 + sx * i,
                from.1 + sy * j,
                dx - dy + (j * dx - i * dy),
                to,
                dx,
                dy,
                sx,
                sy,
                inclusive,
                (major_span(dx, dy) - major_steps(dx, dy, i, j)) as nat,
            );
            &&& line.len() == major_span(dx, dy) - major_steps(dx, dy, i, j) + 1
            &&& line.last() == to
        }),
    decreases major_span(dx, dy) - major_steps(dx, dy, i, j),
{
    let x = from.0 + sx * i;
    let y = from.1 + sy * j;
    assert(to.0 == from.0 + sx * dx) by (nonlinear_arith)
        requires
            dx == span_x(from, to),
            sx == (if from.0 < to.0 {
                1int
            } else {
                -1int
            }),
    ;
    assert(to.1 == from.1 + sy * dy) by (nonlinear_arith)
        requires
            dy == span_y(from, to),
            sy == (if from.1 < to.1 {
                1int
            } else {
                -1int
            }),
    ;
    if i == dx && j == dy {
        assert(sx * i == sx * dx);
        assert(sy * j == sy * dy);
        assert((x, y) == to);
        if major_steps(dx, dy, i, j) != major_span(dx, dy) {
            assert(false);
        }
    } else {
        if major_steps(dx, dy, i, j) == major_span(dx, dy) {
            lemma_walk_end(dx, dy, i, j);
        }
        assert((x, y) != to) by {
            if i != dx {
                assert(sx * i != sx * dx) by (nonlinear_arith)
                    requires
                        i != dx,
                        sx == 1 || sx == -1,
                ;
            } else {
                assert(sy * j != sy * dy) by (nonlinear_arith)
                    requires
                        j != dy,
                        sy == 1 || sy == -1,
                ;
            }
        }
        lemma_walk_step(dx, dy, i, j, inclusive);
        let err = dx - dy + (j * dx - i * dy);
        let i2 = if steps_x(err, dy, inclusive) {
            i + 1
        } else {
            i
        };
        let j2 = if steps_y(err, dx, inclusive) {
            j + 1
        } else {
            j
        };
        assert(sx * i2 == sx * i + (if steps_x(err, dy, inclusive) {
            sx
        } else {
            0
        })) by (nonlinear_arith)
            requires
                i2 == (if steps_x(err, dy, inclusive) {
                    i + 1
                } else {
                    i
                }),
        ;
        assert(sy * j2 == sy * j + (if steps_y(err, dx, inclusive) {
            sy
        } else {
            0
        })) by (nonlinear_arith)
            requires
                j2 == (if steps_y(err, dx, inclusive) {
                    j + 1
                } else {
                    j
                }),
        ;
        lemma_walk_reaches(from, to, dx, dy, sx, sy, i2, j2, inclusive);
    }
}

/// One step of the walk from step `(i, j)`: the next point, error term and step counts.
pub(crate) proof fn lemma_walk_next(
    from: (int, int),
    to: (int, int),
    dx: int,
    dy: int,
    sx: int,
    sy: int,
    i: int,
    j: int,
    inclusive: bool,
)
    requires
        dx == span_x(from, to),
        dy == span_y(from, to),
        sx == (if from.0 < to.0 {
            1int
        } else {
            -1int
        }),
        sy == (if from.1 < to.1 {
            1int
        } else {
            -1int
        }),
        walk_inv(dx, dy, i, j),
        !(i == dx && j == dy),
    ensures
        ({
            let err = dx - dy + (j * dx - i * dy);
            let i2 = if steps_x(err, dy, inclusive) {
                i + 1
            } else {
                i
            };
            let j2 = if steps_y(err, dx, inclusive) {
                j + 1
            } else {
                j
            };
            let n = line_step(from.0 + sx * i, from.1 + sy * j, err, dx, dy, sx, sy, inclusive);
            &&& walk_inv(dx, dy, i2, j2)
            &&& major_steps(dx, dy, i2, j2) == major_steps(dx, dy, i, j) + 1
            &&& n == (from.0 + sx * i2, from.1 + sy * j2, dx - dy + (j2 * dx - i2 * dy))
        }),
{
    lemma_walk_step(dx, dy, i, j, inclusive);
    let err = dx - dy + (j * dx - i * dy);
    let i2 = if steps_x(err, dy, inclusive) {
        i + 1
    } else {
        i
    };
    let j2 = if steps_y(err, dx, inclusive) {
        j + 1
    } else {
        j
    };
    assert(sx * i2 == sx * i + (if steps_x(err, dy, inclusive) {
        sx
    } else {
        0
    })) by (nonlinear_arith)
        requires
            i2 == (if steps_x(err, dy, inclusive) {
                i + 1
            } else {
                i
            }),
    ;
    assert(sy * j2 == sy * j + (if steps_y(err, dx, inclusive) {
        sy
    } else {
        0
    })) by (nonlinear_arith)
        requires
            j2 == (if steps_y(err, dx, inclusive) {
                j + 1
            } else {
                j
            }),
    ;
}

/// A point of the walk lies between the two ends.
pub(crate) proof fn lemma_walk_bounds(from: (int, int), to: (int, int), dx: int, dy: int, sx: int, sy: int, i: int, j: int)
    requires
        dx == span_x(from, to),
        dy == span_y(from, to),
        sx == (if from.0 < to.0 {
            1int
        } else {
            -1int
        }),
        sy == (if from.1 < to.1 {
            1int
        } else {
            -1int
        }),
        0 <= i <= dx,
        0 <= j <= dy,
    ensures
        from.0 - dx <= from.0 + sx * i <= from.0 + dx,
        from.1 - dy <= from.1 + sy * j <= from.1 + dy,
{
    assert(-dx <= sx * i <= dx) by (nonlinear_arith)
        requires
            0 <= i <= dx,
            sx == 1 || sx == -1,
    ;
    assert(-dy <= sy * j <= dy) by (nonlinear_arith)
        requires
            0 <= j <= dy,
            sy == 1 || sy == -1,
    ;
}

/// After a step along the longer axis the walk is no longer at its start.
pub(crate) proof fn lemma_walk_left_start(dx: int, dy: int, sx: int, sy: int, i: int, j: int)
    requires
        sx == 1 || sx == -1,
        sy == 1 || sy == -1,
        walk_inv(dx, dy, i, j),
        major_steps(dx, dy, i, j) > 0,
    ensures
        sx * i != 0 || sy * j != 0,
{
    if dx >= dy {
        assert(sx * i != 0) by (nonlinear_arith)
            requires
                i > 0,
                sx == 1 || sx == -1,
        ;
    } else {
        assert(sy * j != 0) by (nonlinear_arith)
            requires
                j > 0,
                sy == 1 || sy == -1,
        ;
    }
}

/// `is_opaque` may be called on every point strictly inside `line` and answers `op` there.
pub open spec fn answers_along<F: Fn(i32, i32) -> bool>(
    is_opaque: F,
    op: spec_fn(int, int) -> bool,
    line: Seq<(int, int)>,
) -> bool {
    forall|k: int|
        #![trigger line[k]]
        0 < k < line.len() - 1 ==> {
            &&& call_requires(is_opaque, (line[k].0 as i32, line[k].1 as i32))
            &&& forall|r: bool|
                #[trigger] call_ensures(is_opaque, (line[k].0 as i32, line[k].1 as i32), r) ==> r == op(
                    (line[k].0 as i32) as int,
                    (line[k].1 as i32) as int,
                )
        }
}

/// `f` may be called on every point strictly between `from` and `to` on their Bresenham line
/// and gives one answer for each of them.
pub open spec fn is_predicate_along<F: Fn(i32, i32) -> bool>(f: F, from: (i32, i32), to: (i32, i32)) -> bool {
    let line = bresenham_line((from.0 as int, from.1 as int), (to.0 as int, to.1 as int));
    forall|k: int|
        #![trigger line[k]]
        0 < k < line.len() - 1 ==> {
            &&& call_requires(f, (line[k].0 as i32, line[k].1 as i32))
            &&& !(call_ensures(f, (line[k].0 as i32, line[k].1 as i32), true) && call_ensures(
                f,
                (line[k].0 as i32, line[k].1 as i32),
                false,
            ))
        }
}

/// Whether no tile strictly between `from` and `to` on the Bresenham line satisfies `op`,
/// asking `is_opaque`, which answers `op`, along the line.
#[verifier::rlimit(40)]
pub(crate) fn line_clear_by<F: Fn(i32, i32) -> bool>(
    from: (i32, i32),
    to: (i32, i32),
    is_opaque: &F,
    Ghost(op): Ghost<spec_fn(int, int) -> bool>,
) -> (r: bool)
    requires
        los_fits(from, to),
        answers_along(*is_opaque, op, bresenham_line((from.0 as int, from.1 as int), (to.0 as int, to.1 as int))),
    ensures
        r == line_is_clear(bresenham_line((from.0 as int, from.1 as int), (to.0 as int, to.1 as int)), op),
{
    let ghost f = (from.0 as int, from.1 as int);
    let ghost t = (to.0 as int, to.1 as int);
    let ghost line = bresenham_line(f, t);
    let (mut x0, mut y0) = from;
    let (x1, y1) = to;
    let dx = if x1 >= x0 {
        x1 - x0
    } else {
        x0 - x1
    };
    let dy = if y1 >= y0 {
        y1 - y0
    } else {
        y0 - y1
    };
    let sx: i32 = if x0 < x1 {
        1
    } else {
        -1
    };
    let sy: i32 = if y0 < y1 {
        1
    } else {
        -1
    };
    let mut err = dx - dy;
    let ghost mut i: int = 0;
    let ghost mut j: int = 0;
    proof {
        lemma_walk_reaches(f, t, dx as int, dy as int, sx as int, sy as int, 0, 0, false);
        assert(sx * 0 == 0 && sy * 0 == 0) by (nonlinear_arith);
    }
    loop
        invariant
            los_fits(from, to),
            answers_along(*is_opaque, op, line),
            f == (from.0 as int, from.1 as int),
            t == (to.0 as int, to.1 as int),
            line == bresenham_line(f, t),
            x1 == to.0,
            y1 == to.1,
            dx == span_x(f, t),
            dy == span_y(f, t),
            sx == (if f.0 < t.0 {
                1int
            } else {
                -1int
            }),
            sy == (if f.1 < t.1 {
                1int
            } else {
                -1int
            }),
            walk_inv(dx as int, dy as int, i, j),
            x0 == f.0 + sx * i,
            y0 == f.1 + sy * j,
            err == dx - dy + (j * dx - i * dy),
            line.len() == major_span(dx as int, dy as int) + 1,
            line.last() == t,
            line_from(
                x0 as int,
                y0 as int,
                err as int,
                t,
                dx as int,
                dy as int,
                sx as int,
                sy as int,
                false,
                (major_span(dx as int, dy as int) - major_steps(dx as int, dy as int, i, j)) as nat,
            ) == line.subrange(major_steps(dx as int, dy as int, i, j), line.len() as int),
            forall|k: int|
                0 < k < major_steps(dx as int, dy as int, i, j) ==> !op(
                    #[trigger] line[k].0,
                    line[k].1,
                ),
        decreases major_span(dx as int, dy as int) - major_steps(dx as int, dy as int, i, j),
    {
        let ghost k = major_steps(dx as int, dy as int, i, j);
        let ghost rest = line_from(
            x0 as int,
            y0 as int,
            err as int,
            t,
            dx as int,
            dy as int,
            sx as int,
            sy as int,
            false,
            (major_span(dx as int, dy as int) - k) as nat,
        );
        let ghost px = x0 as int;
        let ghost py = y0 as int;
        proof {
            lemma_walk_reaches(f, t, dx as int, dy as int, sx as int, sy as int, i, j, false);
            assert(rest[0] == line[k]);
            assert(rest[0] == (px, py));
        }
        if x0 == x1 && y0 == y1 {
            proof {
                assert(rest.len() == 1);
                assert(k == line.len() - 1);
            }
            return true;
        }
        proof {
            if k == major_span(dx as int, dy as int) {
                lemma_walk_end(dx as int, dy as int, i, j);
                assert(sx * i == sx * dx && sy * j == sy * dy);
            }
            assert(k < line.len() - 1);
            if k > 0 {
                assert(line[k] == (x0 as int, y0 as int));
                assert((line[k].0 as i32, line[k].1 as i32) == (x0, y0));
            }
        }
        if (x0 != from.0 || y0 != from.1) && is_opaque(x0, y0) {
            proof {
                assert(op(x0 as int, y0 as int));
                assert(k > 0);
                assert(op(line[k].0, line[k].1));
            }
            return false;
        }
        proof {
            if k > 0 {
                lemma_walk_left_start(dx as int, dy as int, sx as int, sy as int, i, j);
                assert(!op(x0 as int, y0 as int));
            }
            lemma_walk_next(f, t, dx as int, dy as int, sx as int, sy as int, i, j, false);
        }
        let ghost n = line_step(px, py, err as int, dx as int, dy as int, sx as int, sy as int, false);
        let e2 = 2 * err;
        if e2 > -dy {
            err -= dy;
            proof {
                i = i + 1;
                lemma_walk_bounds(f, t, dx as int, dy as int, sx as int, sy as int, i, j);
            }
            x0 += sx;
        }
        if e2 < dx {
            err += dx;
            proof {
                j = j + 1;
                lemma_walk_bounds(f, t, dx as int, dy as int, sx as int, sy as int, i, j);
            }
            y0 += sy;
        }
        proof {
            assert((x0 as int, y0 as int, err as int) == n);
            assert(rest.subrange(1, rest.len() as int) =~= line.subrange(k + 1, line.len() as int));
            assert forall|m: int|
                0 < m < major_steps(dx as int, dy as int, i, j) implies !op(
                #[trigger] line[m].0,
                line[m].1,
            ) by {
                if m == k {
                    assert(line[m] == (px, py));
                }
            }
        }
    }
}

/// Whether `to` can be seen from `from`: no tile strictly between them on the Bresenham
/// line is opaque. The tile at `to` itself may be opaque. Only the tiles strictly between
/// them on the line are asked about, so `is_opaque` need answer only there.
pub fn has_los(from: (i32, i32), to: (i32, i32), is_opaque: impl Fn(i32, i32) -> bool) -> (r: bool)
    requires
        los_fits(from, to),
        is_predicate_along(is_opaque, from, to),
    ensures
        r == line_is_clear(
            bresenham_line((from.0 as int, from.1 as int), (to.0 as int, to.1 as int)),
            opacity(is_opaque),
        ),
{
    let ghost line = bresenham_line((from.0 as int, from.1 as int), (to.0 as int, to.1 as int));
    proof {
        assert forall|k: int| 0 < k < line.len() - 1 implies {
            &&& call_requires(is_opaque, (#[trigger] line[k].0 as i32, line[k].1 as i32))
            &&& forall|r: bool|
                #[trigger] call_ensures(is_opaque, (line[k].0 as i32, line[k].1 as i32), r) ==> r == opacity(is_opaque)(
                    (line[k].0 as i32) as int,
                    (line[k].1 as i32) as int,
                )
        } by {
            let x = line[k].0 as i32;
            let y = line[k].1 as i32;
            assert((x as int) as i32 == x && (y as int) as i32 == y);
        }
    }
    line_clear_by(from, to, &is_opaque, Ghost(opacity(is_opaque)))
}

} // verus!
