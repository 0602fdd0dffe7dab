//! Where NPCs step: tile costs, and the choice of a direction among the eight king moves.
use crate::fov::trunc_div;
use crate::grid_vec::{chebyshev_spec, direction_spec, is_king_step, king_step_spec, GridVec};
use crate::point_set::PointMap;
use crate::systems::ai::{turn_hash, turn_hash_spec};
use crate::systems::pathfinding::{
    a_star_first_step, a_star_spec, cost_of, cost_oracle, costs_of, enterable, holds_at,
    min_index, near_origin, path_exists, pop_min, pt, shifted, tile_oracle, OpenEntry,
    MAX_PATH_COORD, MAX_TILE_COST, STEP_COST,
};
use vstd::prelude::*;

verus! {

/// Extra cost of a burning tile.
pub const FIRE_COST: i32 = 70;

/// Extra cost of a tile next to fire.
pub const NEAR_FIRE_COST: i32 = 28;

/// Extra cost of a tile next to a cactus.
pub const NEAR_CACTUS_COST: i32 = 10;

/// Extra cost of a tile in a sand cloud.
pub const SAND_CLOUD_COST: i32 = 16;

/// Cost taken off per neighboring wall, for the cover it gives.
pub const COVER_PER_WALL: i32 = 2;

/// Extra cost of a tile with no cover around it.
pub const EXPOSED_COST: i32 = 4;

/// How far a patrolling NPC strays from its post.
pub const PATROL_RADIUS: i32 = 18;

/// The salt of the per-direction patrol noise.
pub const PATROL_SALT: u64 = 0x9E37;

/// What the cost rules read of a map tile.
#[derive(Clone, Copy, Debug, PartialEq, Eq, Structural)]
pub struct TileInfo {
    /// The tile can be walked on (passable and not water).
    pub walkable: bool,
    /// The floor is burning.
    pub fire: bool,
    /// The floor is a sand cloud.
    pub sand_cloud: bool,
    /// A cactus stands on the tile.
    pub cactus: bool,
    /// A prop on the tile blocks movement.
    pub blocking_prop: bool,
}

/// The extra cost of the tile's own floor: fire, else sand cloud.
pub open spec fn floor_cost(t: TileInfo) -> int {
    if t.fire {
        FIRE_COST as int
    } else if t.sand_cloud {
        SAND_CLOUD_COST as int
    } else {
        0
    }
}

/// How many of the neighbors (off-map ones are `None`) satisfy `p`.
pub open spec fn count_where(ns: Seq<Option<TileInfo>>, p: spec_fn(TileInfo) -> bool) -> nat
    decreases ns.len(),
{
    if ns.len() == 0 {
        0
    } else {
        count_where(ns.drop_last(), p) + match ns.last() {
            Some(t) => if p(t) {
                1nat
            } else {
                0nat
            },
            None => 0nat,
        }
    }
}

/// The cost of stepping onto a tile for an NPC that looks for cover: none when the tile
/// cannot be walked; else 10 plus its floor, 28 more next to fire, 10 more next to a cactus,
/// then 2 less per neighboring wall (to no less than 1), or 4 more with no wall around.
pub open spec fn base_cost_spec(here: Option<TileInfo>, neighbors: Seq<Option<TileInfo>>) -> Option<int> {
    match here {
        Some(t) if t.walkable => {
            let walls = count_where(neighbors, |n: TileInfo| n.blocking_prop) as int;
            let v = STEP_COST + floor_cost(t) + (if count_where(neighbors, |n: TileInfo| n.fire) > 0 {
                NEAR_FIRE_COST as int
            } else {
                0
            }) + (if count_where(neighbors, |n: TileInfo| n.cactus) > 0 {
                NEAR_CACTUS_COST as int
            } else {
                0
            });
            if walls > 0 {
                Some(v - (if walls * COVER_PER_WALL < v - 1 {
                    walls * COVER_PER_WALL
                } else {
                    v - 1
                }))
            } else {
                Some(v + EXPOSED_COST)
            }
        },
        _ => None,
    }
}

/// The cost of stepping onto a tile for an NPC in pursuit: none when the tile cannot be
/// walked; else 10 plus its floor, 28 more per burning neighbor, 10 more per cactus neighbor.
pub open spec fn chase_cost_spec(here: Option<TileInfo>, neighbors: Seq<Option<TileInfo>>) -> Option<int> {
    match here {
        Some(t) if t.walkable => Some(
            STEP_COST + floor_cost(t) + NEAR_FIRE_COST * count_where(neighbors, |n: TileInfo| n.fire)
                + NEAR_CACTUS_COST * count_where(neighbors, |n: TileInfo| n.cactus),
        ),
        _ => None,
    }
}

/// The cost of a tile for an NPC: none when another blocking entity stands there; else the
/// pursuit cost when `chase`, the cover-seeking cost otherwise. `neighbors` are the eight
/// tiles around it (`None` off the map).
pub fn tile_cost_for_ai(
    occupied: bool,
    here: Option<TileInfo>,
    neighbors: &Vec<Option<TileInfo>>,
    chase: bool,
) -> (c: Option<i32>)
    requires
        neighbors@.len() <= 8,
    ensures
        c == (if occupied {
            None
        } else if chase {
            match chase_cost_spec(here, neighbors@) {
                Some(v) => Some(v as i32),
                None => None,
            }
        } else {
            match base_cost_spec(here, neighbors@) {
                Some(v) => Some(v as i32),
                None => None,
            }
        }),
        c matches Some(v) ==> 1 <= v <= MAX_TILE_COST,
{
    let t = match here {
        Some(t) => t,
        None => return None,
    };
    if occupied || !t.walkable {
        return None;
    }
    let mut fires: i32 = 0;
    let mut cacti: i32 = 0;
    let mut walls: i32 = 0;
    let mut i: usize = 0;
    while i < neighbors.len()
        invariant
            i <= neighbors@.len() <= 8,
            fires == count_where(neighbors@.subrange(0, i as int), |n: TileInfo| n.fire),
            cacti == count_where(neighbors@.subrange(0, i as int), |n: TileInfo| n.cactus),
            walls == count_where(neighbors@.subrange(0, i as int), |n: TileInfo| n.blocking_prop),
            fires <= i,
            cacti <= i,
            walls <= i,
        decreases neighbors@.len() - i,
    {
        proof {
            assert(neighbors@.subrange(0, i + 1).drop_last() == neighbors@.subrange(0, i as int));
            assert(neighbors@.subrange(0, i + 1).last() == neighbors@[i as int]);
        }
        if let Some(n) = neighbors[i] {
            if n.fire {
                fires += 1;
            }
            if n.cactus {
                cacti += 1;
            }
            if n.blocking_prop {
                walls += 1;
            }
        }
        i += 1;
    }
    proof {
        assert(neighbors@.subrange(0, neighbors@.len() as int) == neighbors@);
    }
    let mut value: i32 = STEP_COST;
    if t.fire {
        value += FIRE_COST;
    } else if t.sand_cloud {
        value += SAND_CLOUD_COST;
    }
    if chase {
        value += NEAR_FIRE_COST * fires + NEAR_CACTUS_COST * cacti;
        return Some(value);
    }
    if fires > 0 {
        value += NEAR_FIRE_COST;
    }
    if cacti > 0 {
        value += NEAR_CACTUS_COST;
    }
    if walls > 0 {
        let cover = walls * COVER_PER_WALL;
        value -= if cover < value - 1 {
            cover
        } else {
            value - 1
        };
    } else {
        value += EXPOSED_COST;
    }
    Some(value)
}

/// Asks the cost oracle, and ties the answer to `cost_of`.
fn ask_cost<F: Fn(GridVec) -> Option<i32>>(f: &F, p: GridVec) -> (r: Option<i32>)
    requires
        cost_oracle(*f),
    ensures
        r == cost_of(*f, p),
        r matches Some(c) ==> 1 <= c <= MAX_TILE_COST,
{
    let r = f(p);
    proof {
        assert(call_ensures(*f, (p,), r));
        let q = cost_of(*f, p);
        assert(call_ensures(*f, (p,), q));
    }
    r
}

/// Asks the tile oracle, and ties the answer to `holds_at`.
fn ask_tile<G: Fn(GridVec) -> bool>(g: &G, p: GridVec) -> (r: bool)
    requires
        tile_oracle(*g),
    ensures
        r == holds_at(*g, p),
{
    g(p)
}

/// Index `i` holds the first of the highest scores among the eight directions; `None`
/// scores are ruled out.
pub open spec fn first_best(score: spec_fn(int) -> Option<int>, i: int) -> bool {
    &&& 0 <= i < 8
    &&& score(i) is Some
    &&& forall|j: int| 0 <= j < 8 && #[trigger] score(j) is Some ==> score(j)->0 <= score(i)->0
    &&& forall|j: int| 0 <= j < i && #[trigger] score(j) is Some ==> score(j)->0 < score(i)->0
}

/// The direction a scoring picks: `None` when no direction is scored, else the king move
/// of the first highest score.
pub open spec fn picks(score: spec_fn(int) -> Option<int>, d: Option<GridVec>) -> bool {
    match d {
        Some(v) => exists|i: int| first_best(score, i) && (v.x as int, v.y as int) == direction_spec(i),
        None => forall|j: int| 0 <= j < 8 ==> #[trigger] score(j) is None,
    }
}

/// The tile reached from `p` by the `i`-th king move.
pub open spec fn neighbor(p: GridVec, i: int) -> GridVec {
    GridVec { x: (p.x + direction_spec(i).0) as i32, y: (p.y + direction_spec(i).1) as i32 }
}

/// A position far from the edge of `i32`.
pub open spec fn inner(p: GridVec) -> bool {
    -0x100_0000 <= p.x <= 0x100_0000 && -0x100_0000 <= p.y <= 0x100_0000
}

/// The score of backing off by direction `i`: twenty per tile of distance from the threat,
/// less the tile's cost; ruled out where the tile cannot be entered or, when `preserve_los`,
/// where the threat cannot be seen from it.
pub open spec fn retreat_score<F: Fn(GridVec) -> Option<i32>, G: Fn(GridVec) -> bool>(
    f: F,
    sight: G,
    my_pos: GridVec,
    threat: GridVec,
    preserve_los: bool,
) -> spec_fn(int) -> Option<int> {
    |i: int| {
        let c = neighbor(my_pos, i);
        match cost_of(f, c) {
            Some(cost) => if preserve_los && !holds_at(sight, c) {
                None
            } else {
                Some(chebyshev_spec(c, threat) * 20 - cost)
            },
            None => None,
        }
    }
}

/// Backs away from a threat, keeping it in sight when `preserve_los`; `sight` tells from
/// which tiles the threat is in clear view.
pub fn retreat_direction<F: Fn(GridVec) -> Option<i32>, G: Fn(GridVec) -> bool>(
    my_pos: GridVec,
    threat_pos: GridVec,
    cost: &F,
    sight: &G,
    preserve_los: bool,
) -> (d: Option<GridVec>)
    requires
        inner(my_pos),
        inner(threat_pos),
        cost_oracle(*cost),
        tile_oracle(*sight),
    ensures
        picks(retreat_score(*cost, *sight, my_pos, threat_pos, preserve_los), d),
{
    let ghost score = retreat_score(*cost, *sight, my_pos, threat_pos, preserve_los);
    let mut best: Option<usize> = None;
    let mut best_score: i32 = i32::MIN;
    let mut i: usize = 0;
    while i < 8
        invariant
            i <= 8,
            inner(my_pos),
            inner(threat_pos),
            cost_oracle(*cost),
            tile_oracle(*sight),
            score == retreat_score(*cost, *sight, my_pos, threat_pos, preserve_los),
            best is None ==> best_score == i32::MIN && forall|j: int| 0 <= j < i ==> #[trigger] score(j) is None,
            best matches Some(b) ==> b < i && score(b as int) == Some(best_score as int)
                && (forall|j: int| 0 <= j < i && #[trigger] score(j) is Some ==> score(j)->0 <= best_score)
                && (forall|j: int| 0 <= j < b && #[trigger] score(j) is Some ==> score(j)->0 < best_score),
        decreases 8 - i,
    {
        let dir = GridVec::direction(i);
        let candidate = my_pos.plus(dir);
        proof {
            assert(candidate == neighbor(my_pos, i as int));
        }
        match ask_cost(cost, candidate) {
            Some(tile_cost) => {
                let seen = if preserve_los {
                    ask_tile(sight, candidate)
                } else {
                    true
                };
                if seen {
                    let s = candidate.chebyshev_distance(threat_pos) * 20 - tile_cost;
                    if s > best_score {
                        best_score = s;
                        best = Some(i);
                    }
                }
            },
            None => {},
        }
        i += 1;
    }
    match best {
        Some(b) => {
            proof {
                assert(first_best(score, b as int));
            }
            Some(GridVec::direction(b))
        },
        None => None,
    }
}

/// The first step from `start` toward `goal`: the step A* takes, or, when it finds none, the
/// direct king move toward the goal if that tile can be entered.
pub open spec fn first_step_spec(start: GridVec, goal: GridVec, costs: spec_fn(GridVec) -> Option<i32>) -> Option<GridVec> {
    match a_star_spec(start, goal, costs) {
        Some(v) => Some(v),
        None => {
            let k = to_vec(king_step_spec(GridVec { x: (goal.x - start.x) as i32, y: (goal.y - start.y) as i32 }));
            if k.x == 0 && k.y == 0 {
                None
            } else if costs(shifted(start, k)) is Some {
                Some(k)
            } else {
                None
            }
        },
    }
}

/// The first step from `start` toward `goal`: the first step of the path that A* finds, or,
/// when it finds none, the direct king move toward the goal if that tile can be entered.
pub fn first_step_toward<F: Fn(GridVec) -> Option<i32>>(start: GridVec, goal: GridVec, cost: &F) -> (d: Option<GridVec>)
    requires
        near_origin(start),
        near_origin(goal),
        cost_oracle(*cost),
    ensures
        d == first_step_spec(start, goal, costs_of(*cost)),
        start == goal ==> d is None,
        d matches Some(v) ==> is_king_step(v) && (path_exists(shifted(start, v), goal, enterable(*cost))
            || ((v.x as int, v.y as int) == king_step_spec(GridVec { x: (goal.x - start.x) as i32, y: (goal.y - start.y) as i32 })
                && cost_of(*cost, shifted(start, v)) is Some)),
        d is None ==> start == goal || cost_of(*cost, shifted(start, to_vec(king_step_spec(GridVec { x: (goal.x - start.x) as i32, y: (goal.y - start.y) as i32 })))) is None,
{
    let step = a_star_first_step(start, goal, cost);
    proof {
        assert(cost_oracle(cost));
        assert(step == a_star_spec(start, goal, costs_of(cost)));
        assert(costs_of(cost) == costs_of(*cost));
    }
    match step {
        Some(v) => Some(v),
        None => {
            let direct = goal.minus(start).king_step();
            if direct.is_zero() {
                return None;
            }
            let next = start.plus(direct);
            proof {
                assert(next == shifted(start, direct));
                assert(direct == to_vec(king_step_spec(GridVec { x: (goal.x - start.x) as i32, y: (goal.y - start.y) as i32 })));
            }
            if ask_cost(cost, next).is_some() {
                Some(direct)
            } else {
                None
            }
        },
    }
}

/// The grid vector of a pair of small integers.
pub open spec fn to_vec(d: (int, int)) -> GridVec {
    GridVec { x: d.0 as i32, y: d.1 as i32 }
}

/// The noise that a patrolling NPC adds to direction `i` on a turn: its per-turn hash, salted
/// by the direction, modulo 13.
pub open spec fn patrol_noise(entity_bits: u64, turn: u32, i: int) -> int {
    (turn_hash_spec(entity_bits, turn, (i + PATROL_SALT) as u64) % 13) as int
}

/// The score of patrolling by direction `i`: three times the noise, less the tile's cost,
/// less twice the distance from the post; ruled out where the tile cannot be entered or lies
/// beyond the patrol radius.
pub open spec fn patrol_score<F: Fn(GridVec) -> Option<i32>>(
    f: F,
    entity_bits: u64,
    turn: u32,
    my_pos: GridVec,
    origin: GridVec,
) -> spec_fn(int) -> Option<int> {
    |i: int| {
        let c = neighbor(my_pos, i);
        match cost_of(f, c) {
            Some(cost) => if chebyshev_spec(c, origin) > PATROL_RADIUS {
                None
            } else {
                Some(patrol_noise(entity_bits, turn, i) * 3 - cost - chebyshev_spec(c, origin) * 2)
            },
            None => None,
        }
    }
}

/// Where a patrolling NPC steps: back toward its post when it strayed beyond the patrol
/// radius, else the best-scored direction that keeps it within the radius.
pub fn patrol_direction<F: Fn(GridVec) -> Option<i32>>(
    entity_bits: u64,
    turn: u32,
    my_pos: GridVec,
    origin: GridVec,
    cost: &F,
) -> (d: Option<GridVec>)
    requires
        near_origin(my_pos),
        near_origin(origin),
        cost_oracle(*cost),
    ensures
        chebyshev_spec(my_pos, origin) <= PATROL_RADIUS ==> picks(patrol_score(*cost, entity_bits, turn, my_pos, origin), d),
        chebyshev_spec(my_pos, origin) > PATROL_RADIUS ==> d == first_step_spec(my_pos, origin, costs_of(*cost)),
        chebyshev_spec(my_pos, origin) > PATROL_RADIUS ==> (d matches Some(v) ==> is_king_step(v) && (path_exists(shifted(my_pos, v), origin, enterable(*cost))
            || ((v.x as int, v.y as int) == king_step_spec(GridVec { x: (origin.x - my_pos.x) as i32, y: (origin.y - my_pos.y) as i32 })
                && cost_of(*cost, shifted(my_pos, v)) is Some))),
{
    if my_pos.chebyshev_distance(origin) > PATROL_RADIUS {
        return first_step_toward(my_pos, origin, cost);
    }
    let ghost score = patrol_score(*cost, entity_bits, turn, my_pos, origin);
    let mut best: Option<usize> = None;
    let mut best_score: i32 = i32::MIN;
    let mut i: usize = 0;
    while i < 8
        invariant
            i <= 8,
            near_origin(my_pos),
            near_origin(origin),
            cost_oracle(*cost),
            score == patrol_score(*cost, entity_bits, turn, my_pos, origin),
            best is None ==> best_score == i32::MIN && forall|j: int| 0 <= j < i ==> #[trigger] score(j) is None,
            best matches Some(b) ==> b < i && score(b as int) == Some(best_score as int)
                && (forall|j: int| 0 <= j < i && #[trigger] score(j) is Some ==> score(j)->0 <= best_score)
                && (forall|j: int| 0 <= j < b && #[trigger] score(j) is Some ==> score(j)->0 < best_score),
        decreases 8 - i,
    {
        let dir = GridVec::direction(i);
        let candidate = my_pos.plus(dir);
        proof {
            assert(candidate == neighbor(my_pos, i as int));
        }
        match ask_cost(cost, candidate) {
            Some(tile_cost) => {
                let radius = candidate.chebyshev_distance(origin);
                if radius <= PATROL_RADIUS {
                    let noise = (turn_hash(entity_bits, turn, i as u64 + PATROL_SALT) % 13) as i32;
                    let s = noise * 3 - tile_cost - radius * 2;
                    if s > best_score {
                        best_score = s;
                        best = Some(i);
                    }
                }
            },
            None => {},
        }
        i += 1;
    }
    match best {
        Some(b) => {
            proof {
                assert(first_best(score, b as int));
            }
            Some(GridVec::direction(b))
        },
        None => None,
    }
}

/// The largest distance a distance map may hold.
pub const MAX_MAP_DISTANCE: i32 = 1_000_000_000;

/// A distance map whose values are all in `0..=MAX_MAP_DISTANCE`.
pub open spec fn distances_ok(m: Map<(int, int), i32>) -> bool {
    forall|k: (int, int)| #[trigger] m.contains_key(k) ==> 0 <= m[k] <= MAX_MAP_DISTANCE
}

/// The distance of tile `p` in the map, or `default` when it has none.
pub open spec fn distance_or(m: Map<(int, int), i32>, p: GridVec, default: int) -> int {
    if m.contains_key((p.x as int, p.y as int)) {
        m[(p.x as int, p.y as int)] as int
    } else {
        default
    }
}

/// The score of fleeing by direction `i`: twice the tile's distance from the threat (four
/// steps more than here when the map has none), less the tile's cost; ruled out where the
/// tile cannot be entered.
pub open spec fn flee_score<F: Fn(GridVec) -> Option<i32>>(
    f: F,
    my_pos: GridVec,
    dist: Map<(int, int), i32>,
) -> spec_fn(int) -> Option<int> {
    |i: int| {
        let c = neighbor(my_pos, i);
        match cost_of(f, c) {
            Some(cost) => Some(distance_or(dist, c, distance_or(dist, my_pos, 0) + STEP_COST * 4) * 2 - cost),
            None => None,
        }
    }
}

/// The direction that best gains distance from a threat, by a map of distances from it.
pub fn flee_choice<F: Fn(GridVec) -> Option<i32>>(my_pos: GridVec, dist: &PointMap<i32>, cost: &F) -> (d: Option<GridVec>)
    requires
        inner(my_pos),
        cost_oracle(*cost),
        distances_ok(dist@),
    ensures
        picks(flee_score(*cost, my_pos, dist@), d),
{
    let ghost score = flee_score(*cost, my_pos, dist@);
    let my_distance: i32 = match dist.get(&(my_pos.x, my_pos.y)) {
        Some(v) => v,
        None => 0,
    };
    let mut best: Option<usize> = None;
    let mut best_score: i32 = i32::MIN;
    let mut i: usize = 0;
    while i < 8
        invariant
            i <= 8,
            inner(my_pos),
            cost_oracle(*cost),
            distances_ok(dist@),
            my_distance == distance_or(dist@, my_pos, 0),
            score == flee_score(*cost, my_pos, dist@),
            best is None ==> best_score == i32::MIN && forall|j: int| 0 <= j < i ==> #[trigger] score(j) is None,
            best matches Some(b) ==> b < i && score(b as int) == Some(best_score as int)
                && (forall|j: int| 0 <= j < i && #[trigger] score(j) is Some ==> score(j)->0 <= best_score)
                && (forall|j: int| 0 <= j < b && #[trigger] score(j) is Some ==> score(j)->0 < best_score),
        decreases 8 - i,
    {
        let dir = GridVec::direction(i);
        let candidate = my_pos.plus(dir);
        proof {
            assert(candidate == neighbor(my_pos, i as int));
        }
        match ask_cost(cost, candidate) {
            Some(tile_cost) => {
                let there: i32 = match dist.get(&(candidate.x, candidate.y)) {
                    Some(v) => v,
                    None => my_distance + STEP_COST * 4,
                };
                let s = there * 2 - tile_cost;
                if s > best_score {
                    best_score = s;
                    best = Some(i);
                }
            },
            None => {},
        }
        i += 1;
    }
    match best {
        Some(b) => {
            proof {
                assert(first_best(score, b as int));
            }
            Some(GridVec::direction(b))
        },
        None => None,
    }
}

/// Tile `k` of the fire check around `p`: `p` itself, then its eight neighbors.
pub open spec fn fire_tile(p: GridVec, k: int) -> GridVec {
    if k == 0 {
        p
    } else {
        neighbor(p, k - 1)
    }
}

/// How many of the first `k` tiles around `p` burn, and the sums of their coordinates.
pub open spec fn fire_tally<G: Fn(GridVec) -> bool>(g: G, p: GridVec, k: int) -> (int, int, int)
    decreases k,
{
    if k <= 0 {
        (0, 0, 0)
    } else {
        let t = fire_tally(g, p, k - 1);
        let q = fire_tile(p, k - 1);
        if holds_at(g, q) {
            (t.0 + 1, t.1 + q.x, t.2 + q.y)
        } else {
            t
        }
    }
}

/// The center of the fire on and around `p`: none when nothing burns, else the mean of the
/// burning tiles, each coordinate divided with truncation toward zero.
pub open spec fn fire_center_spec<G: Fn(GridVec) -> bool>(g: G, p: GridVec) -> Option<(int, int)> {
    let t = fire_tally(g, p, 9);
    if t.0 == 0 {
        None
    } else {
        Some((trunc_div(t.1, t.0), trunc_div(t.2, t.0)))
    }
}

/// Finds the center of the fire that an NPC at `my_pos` stands in or next to.
pub fn nearest_fire_threat<G: Fn(GridVec) -> bool>(my_pos: GridVec, on_fire: &G) -> (c: Option<GridVec>)
    requires
        inner(my_pos),
        tile_oracle(*on_fire),
    ensures
        c matches Some(v) ==> fire_center_spec(*on_fire, my_pos) == Some((v.x as int, v.y as int)),
        c is None ==> fire_center_spec(*on_fire, my_pos) is None,
{
    let mut count: i64 = 0;
    let mut sx: i64 = 0;
    let mut sy: i64 = 0;
    let mut k: usize = 0;
    while k < 9
        invariant
            k <= 9,
            inner(my_pos),
            tile_oracle(*on_fire),
            (count as int, sx as int, sy as int) == fire_tally(*on_fire, my_pos, k as int),
            0 <= count <= k,
            -0x200_0000 * k <= sx <= 0x200_0000 * k,
            -0x200_0000 * k <= sy <= 0x200_0000 * k,
        decreases 9 - k,
    {
        let tile = if k == 0 {
            my_pos
        } else {
            my_pos.plus(GridVec::direction(k - 1))
        };
        proof {
            assert(tile == fire_tile(my_pos, k as int));
        }
        if ask_tile(on_fire, tile) {
            count += 1;
            sx += tile.x as i64;
            sy += tile.y as i64;
        }
        k += 1;
    }
    if count == 0 {
        return None;
    }
    let ax: i64 = if sx >= 0 {
        sx
    } else {
        -sx
    };
    let ay: i64 = if sy >= 0 {
        sy
    } else {
        -sy
    };
    let qx = ax / count;
    let qy = ay / count;
    proof {
        assert(qx <= ax) by (nonlinear_arith)
            requires
                qx == ax / count,
                1 <= count,
                0 <= ax,
        ;
        assert(qy <= ay) by (nonlinear_arith)
            requires
                qy == ay / count,
                1 <= count,
                0 <= ay,
        ;
    }
    let x: i64 = if sx >= 0 {
        qx
    } else {
        -qx
    };
    let y: i64 = if sy >= 0 {
        qy
    } else {
        -qy
    };
    Some(GridVec::new(x as i32, y as i32))
}

/// How many tiles a distance map expands at most.
pub const MAX_DIJKSTRA_NODES: usize = 640;

/// `b` is one king move from `a`.
pub open spec fn is_step(a: GridVec, b: GridVec) -> bool {
    exists|i: int| 0 <= i < 8 && b == #[trigger] neighbor(a, i)
}

/// The price of walking `path`: the oracle's costs of every tile after the first, summed;
/// none when a step is not a king move or a tile cannot be entered.
pub open spec fn walk_price<F: Fn(GridVec) -> Option<i32>>(f: F, path: Seq<GridVec>) -> Option<int>
    decreases path.len(),
{
    if path.len() <= 1 {
        Some(0)
    } else {
        match walk_price(f, path.drop_last()) {
            Some(a) => if is_step(path[path.len() - 2], path.last()) {
                match cost_of(f, path.last()) {
                    Some(c) => Some(a + c),
                    None => None,
                }
            } else {
                None
            },
            None => None,
        }
    }
}

/// Some walk from one of the sources to tile `p` has price `d`.
pub open spec fn priced_walk<F: Fn(GridVec) -> Option<i32>>(f: F, sources: Seq<GridVec>, p: (int, int), d: int) -> bool {
    exists|path: Seq<GridVec>|
        path.len() >= 1 && sources.contains(path[0]) && (path.last().x as int, path.last().y as int) == p
            && #[trigger] walk_price(f, path) == Some(d)
}

/// The bookkeeping of the distance map: every tile has a value in range that some walk from
/// a source costs, sources stay at zero, and every open entry is no cheaper than its tile.
pub open spec fn dijkstra_inv<F: Fn(GridVec) -> Option<i32>>(
    f: F,
    sources: Seq<GridVec>,
    dist: Map<(int, int), i32>,
    open: Seq<OpenEntry>,
    explored: int,
) -> bool {
    &&& 0 <= explored <= MAX_DIJKSTRA_NODES
    &&& forall|i: int| 0 <= i < sources.len() ==> #[trigger] dist.contains_key((sources[i].x as int, sources[i].y as int))
        && dist[(sources[i].x as int, sources[i].y as int)] == 0
    &&& forall|k: (int, int)| #[trigger] dist.contains_key(k) ==> {
        &&& 0 <= dist[k] <= explored * MAX_TILE_COST
        &&& -MAX_PATH_COORD - explored <= k.0 <= MAX_PATH_COORD + explored
        &&& -MAX_PATH_COORD - explored <= k.1 <= MAX_PATH_COORD + explored
        &&& priced_walk(f, sources, k, dist[k] as int)
    }
    &&& forall|i: int| 0 <= i < open.len() ==> {
        let e = #[trigger] open[i];
        &&& dist.contains_key((e.2.x as int, e.2.y as int))
        &&& dist[(e.2.x as int, e.2.y as int)] <= e.0
    }
}

/// The open list and distances with the sources seeded at zero, in list order.
pub open spec fn seeded(sources: Seq<GridVec>) -> (Seq<OpenEntry>, Map<(int, int), i32>)
    decreases sources.len(),
{
    if sources.len() == 0 {
        (Seq::empty(), Map::empty())
    } else {
        let r = seeded(sources.drop_last());
        (r.0.push((0i32, 0i32, sources.last())), r.1.insert(pt(sources.last()), 0i32))
    }
}

/// The seeded open list holds one entry per source.
proof fn lemma_seeded_len(sources: Seq<GridVec>)
    ensures
        seeded(sources).0.len() == sources.len(),
    decreases sources.len(),
{
    if sources.len() > 0 {
        lemma_seeded_len(sources.drop_last());
    }
}

/// A distance map being grown: the open list, the distances, the tiles expanded.
pub type MapState = (Seq<OpenEntry>, Map<(int, int), i32>, int);

/// The map after offering the neighbors `d..8` of `current`, which lies at distance `cd`:
/// each neighbor that can be entered and is reached more cheaply than before gets the new
/// distance and an open entry.
pub open spec fn spread(st: MapState, costs: spec_fn(GridVec) -> Option<i32>, current: GridVec, cd: int, d: int) -> MapState
    decreases 8 - d,
{
    if d < 0 || d >= 8 {
        st
    } else {
        let nb = neighbor(current, d);
        let next = match costs(nb) {
            Some(c) => {
                let nd = cd + c;
                if !st.1.contains_key(pt(nb)) || nd < st.1[pt(nb)] {
                    (st.0.push((nd as i32, 0i32, nb)), st.1.insert(pt(nb), nd as i32), st.2)
                } else {
                    st
                }
            },
            None => st,
        };
        spread(next, costs, current, cd, d + 1)
    }
}

/// Growing the map from `st` for at most `fuel` rounds: take the least open entry; skip it
/// when its tile is known closer; else stop after `MAX_DIJKSTRA_NODES` expansions or
/// offer its neighbors.
pub open spec fn grow(st: MapState, costs: spec_fn(GridVec) -> Option<i32>, fuel: nat) -> Map<(int, int), i32>
    decreases fuel,
{
    if fuel == 0 || st.0.len() == 0 {
        st.1
    } else {
        let i = min_index(st.0);
        let e = st.0[i];
        let open = st.0.remove(i);
        let known = if st.1.contains_key(pt(e.2)) {
            st.1[pt(e.2)] as int
        } else {
            i32::MAX as int
        };
        if e.0 > known {
            grow((open, st.1, st.2), costs, (fuel - 1) as nat)
        } else if st.2 + 1 >= MAX_DIJKSTRA_NODES {
            st.1
        } else {
            grow(spread((open, st.1, st.2 + 1), costs, e.2, e.0 as int, 0), costs, (fuel - 1) as nat)
        }
    }
}

/// The distance map grown from the sources by the costs.
pub open spec fn dijkstra_spec(sources: Seq<GridVec>, costs: spec_fn(GridVec) -> Option<i32>) -> Map<(int, int), i32> {
    let s = seeded(sources);
    grow((s.0, s.1, 0), costs, (MAX_DIJKSTRA_NODES * 9 + sources.len()) as nat)
}

/// Offers the eight neighbors of `current`, at distance `current_dist`, to the map.
fn spread_from<F: Fn(GridVec) -> Option<i32>>(
    sources: &Vec<GridVec>,
    cost: &F,
    current: GridVec,
    current_dist: i32,
    explored: usize,
    dist: &mut PointMap<i32>,
    open: &mut Vec<OpenEntry>,
)
    requires
        cost_oracle(*cost),
        1 <= explored < MAX_DIJKSTRA_NODES,
        old(dist)@.contains_key((current.x as int, current.y as int)),
        old(dist)@[(current.x as int, current.y as int)] == current_dist,
        0 <= current_dist <= (explored - 1) * MAX_TILE_COST,
        -MAX_PATH_COORD - (explored - 1) <= current.x <= MAX_PATH_COORD + (explored - 1),
        -MAX_PATH_COORD - (explored - 1) <= current.y <= MAX_PATH_COORD + (explored - 1),
        priced_walk(*cost, sources@, (current.x as int, current.y as int), current_dist as int),
        dijkstra_inv(*cost, sources@, old(dist)@, old(open)@, explored as int),
    ensures
        dijkstra_inv(*cost, sources@, final(dist)@, final(open)@, explored as int),
        final(open)@.len() <= old(open)@.len() + 8,
        (final(open)@, final(dist)@, explored as int) == spread(
            (old(open)@, old(dist)@, explored as int),
            costs_of(*cost),
            current,
            current_dist as int,
            0,
        ),
{
    let ghost target = spread((open@, dist@, explored as int), costs_of(*cost), current, current_dist as int, 0);
    let mut d: usize = 0;
    let ghost base_len = open@.len();
    while d < 8
        invariant
            d <= 8,
            cost_oracle(*cost),
            1 <= explored < MAX_DIJKSTRA_NODES,
            dist@.contains_key((current.x as int, current.y as int)),
            dist@[(current.x as int, current.y as int)] == current_dist,
            0 <= current_dist <= (explored - 1) * MAX_TILE_COST,
            -MAX_PATH_COORD - (explored - 1) <= current.x <= MAX_PATH_COORD + (explored - 1),
            -MAX_PATH_COORD - (explored - 1) <= current.y <= MAX_PATH_COORD + (explored - 1),
            priced_walk(*cost, sources@, (current.x as int, current.y as int), current_dist as int),
            dijkstra_inv(*cost, sources@, dist@, open@, explored as int),
            open@.len() <= base_len + d,
            spread((open@, dist@, explored as int), costs_of(*cost), current, current_dist as int, d as int) == target,
        decreases 8 - d,
    {
        let neighbor_tile = current.plus(GridVec::direction(d));
        proof {
            assert(neighbor_tile == neighbor(current, d as int));
        }
        match ask_cost(cost, neighbor_tile) {
            Some(edge_cost) => {
                let next_dist = current_dist + edge_cost;
                let better = match dist.get(&(neighbor_tile.x, neighbor_tile.y)) {
                    Some(v) => next_dist < v,
                    None => true,
                };
                if better {
                    proof {
                        let path = choose|path: Seq<GridVec>|
                            path.len() >= 1 && sources@.contains(path[0]) && (path.last().x as int, path.last().y as int) == (current.x as int, current.y as int)
                                && #[trigger] walk_price(*cost, path) == Some(current_dist as int);
                        assert(path.last() == current);
                        let longer = path.push(neighbor_tile);
                        assert(longer.drop_last() == path);
                        assert(longer[longer.len() - 2] == current);
                        assert(is_step(current, neighbor_tile));
                        assert(walk_price(*cost, longer) == Some(next_dist as int));
                        assert(longer[0] == path[0]);
                        assert(priced_walk(*cost, sources@, (neighbor_tile.x as int, neighbor_tile.y as int), next_dist as int));
                        assert forall|i: int| 0 <= i < sources@.len() implies (sources@[i].x as int, sources@[i].y as int) != (neighbor_tile.x as int, neighbor_tile.y as int) by {
                            assert(dist@.contains_key((sources@[i].x as int, sources@[i].y as int)));
                        }
                    }
                    dist.insert((neighbor_tile.x, neighbor_tile.y), next_dist);
                    open.push((next_dist, 0, neighbor_tile));
                    proof {
                        assert forall|j: int| 0 <= j < open@.len() implies {
                            let e = #[trigger] open@[j];
                            &&& dist@.contains_key((e.2.x as int, e.2.y as int))
                            &&& dist@[(e.2.x as int, e.2.y as int)] <= e.0
                        } by {}
                    }
                }
            },
            None => {},
        }
        d += 1;
    }
}

/// One round of growing the map: takes the least open entry; returns whether growing stops.
fn grow_round<F: Fn(GridVec) -> Option<i32>>(
    sources: &Vec<GridVec>,
    cost: &F,
    dist: &mut PointMap<i32>,
    open: &mut Vec<OpenEntry>,
    explored: &mut usize,
    Ghost(fuel): Ghost<nat>,
) -> (stop: bool)
    requires
        cost_oracle(*cost),
        old(open)@.len() > 0,
        *old(explored) < MAX_DIJKSTRA_NODES,
        dijkstra_inv(*cost, sources@, old(dist)@, old(open)@, *old(explored) as int),
        fuel >= (MAX_DIJKSTRA_NODES - *old(explored)) * 9 + old(open)@.len(),
    ensures
        dijkstra_inv(*cost, sources@, final(dist)@, final(open)@, *final(explored) as int),
        stop ==> final(dist)@ == grow((old(open)@, old(dist)@, *old(explored) as int), costs_of(*cost), fuel),
        !stop ==> {
            &&& *final(explored) < MAX_DIJKSTRA_NODES
            &&& (MAX_DIJKSTRA_NODES - *final(explored)) * 9 + final(open)@.len()
                < (MAX_DIJKSTRA_NODES - *old(explored)) * 9 + old(open)@.len()
            &&& grow((final(open)@, final(dist)@, *final(explored) as int), costs_of(*cost), (fuel - 1) as nat)
                == grow((old(open)@, old(dist)@, *old(explored) as int), costs_of(*cost), fuel)
        },
{
    let ghost open_before = open@;
    let entry = pop_min(open);
    let current_dist = entry.0;
    let current = entry.2;
    proof {
        let i = min_index(open_before);
        assert(open_before[i] == entry);
        assert forall|j: int| 0 <= j < open@.len() implies {
            let e = #[trigger] open@[j];
            &&& dist@.contains_key((e.2.x as int, e.2.y as int))
            &&& dist@[(e.2.x as int, e.2.y as int)] <= e.0
        } by {
            if j < i {
                assert(open@[j] == open_before[j]);
            } else {
                assert(open@[j] == open_before[j + 1]);
            }
        }
    }
    let known = match dist.get(&(current.x, current.y)) {
        Some(v) => v,
        None => i32::MAX,
    };
    if current_dist > known {
        return false;
    }
    *explored = *explored + 1;
    if *explored >= MAX_DIJKSTRA_NODES {
        return true;
    }
    proof {
        assert(known == current_dist);
    }
    spread_from(sources, cost, current, current_dist, *explored, dist, open);
    false
}

/// A map of walking distances from the nearest source, grown in order of distance until
/// `MAX_DIJKSTRA_NODES` tiles are expanded; `cost` prices entering each tile. Every source
/// maps to zero, and every tile's value is the price of some walk to it from a source.
pub fn dijkstra_map<F: Fn(GridVec) -> Option<i32>>(sources: &Vec<GridVec>, cost: &F) -> (dist: PointMap<i32>)
    requires
        forall|i: int| 0 <= i < sources@.len() ==> near_origin(#[trigger] sources@[i]),
        cost_oracle(*cost),
    ensures
        forall|i: int| 0 <= i < sources@.len() ==> #[trigger] dist@.contains_key((sources@[i].x as int, sources@[i].y as int))
            && dist@[(sources@[i].x as int, sources@[i].y as int)] == 0,
        distances_ok(dist@),
        forall|k: (int, int)| #[trigger] dist@.contains_key(k) ==> priced_walk(*cost, sources@, k, dist@[k] as int),
        dist@ == dijkstra_spec(sources@, costs_of(*cost)),
{
    let mut dist: PointMap<i32> = PointMap::new();
    let mut open: Vec<OpenEntry> = Vec::new();
    let mut s: usize = 0;
    while s < sources.len()
        invariant
            s <= sources@.len(),
            forall|i: int| 0 <= i < sources@.len() ==> near_origin(#[trigger] sources@[i]),
            dijkstra_inv(*cost, sources@.subrange(0, s as int), dist@, open@, 0),
            forall|k: (int, int)| #[trigger] dist@.contains_key(k) ==> exists|i: int| 0 <= i < s && k == (sources@[i].x as int, sources@[i].y as int),
            (open@, dist@) == seeded(sources@.subrange(0, s as int)),
        decreases sources@.len() - s,
    {
        let source = sources[s];
        let ghost before = sources@.subrange(0, s as int);
        let ghost after = sources@.subrange(0, s + 1);
        proof {
            assert(after == before.push(source));
            assert(after.drop_last() == before);
        }
        dist.insert((source.x, source.y), 0);
        open.push((0, 0, source));
        proof {
            assert forall|k: (int, int)| #[trigger] dist@.contains_key(k) implies {
                &&& 0 <= dist@[k] <= 0 * MAX_TILE_COST
                &&& -MAX_PATH_COORD - 0 <= k.0 <= MAX_PATH_COORD + 0
                &&& -MAX_PATH_COORD - 0 <= k.1 <= MAX_PATH_COORD + 0
                &&& priced_walk(*cost, after, k, dist@[k] as int)
            } by {
                let i = choose|i: int| 0 <= i < s + 1 && k == (sources@[i].x as int, sources@[i].y as int);
                assert(near_origin(sources@[i]));
                let path = seq![sources@[i]];
                assert(after[i] == sources@[i]);
                assert(after.contains(path[0]));
                assert(walk_price(*cost, path) == Some(0int));
            }
            assert forall|k: (int, int)| #[trigger] dist@.contains_key(k) implies exists|i: int| 0 <= i < s + 1 && k == (sources@[i].x as int, sources@[i].y as int) by {
                if k != (source.x as int, source.y as int) {
                    let i = choose|i: int| 0 <= i < s && k == (sources@[i].x as int, sources@[i].y as int);
                }
            }
            assert forall|i: int| 0 <= i < open@.len() implies {
                let e = #[trigger] open@[i];
                &&& dist@.contains_key((e.2.x as int, e.2.y as int))
                &&& dist@[(e.2.x as int, e.2.y as int)] <= e.0
            } by {
                if i < open@.len() - 1 {
                    let e = open@[i];
                    assert(dist@.contains_key((e.2.x as int, e.2.y as int)));
                }
            }
        }
        s += 1;
    }
    proof {
        assert(sources@.subrange(0, sources@.len() as int) == sources@);
    }
    let mut explored: usize = 0;
    let ghost mut fuel: nat = (MAX_DIJKSTRA_NODES * 9 + sources@.len()) as nat;
    proof {
        lemma_seeded_len(sources@);
    }
    while open.len() > 0
        invariant_except_break
            explored < MAX_DIJKSTRA_NODES,
            fuel >= (MAX_DIJKSTRA_NODES - explored) * 9 + open@.len(),
            grow((open@, dist@, explored as int), costs_of(*cost), fuel) == dijkstra_spec(sources@, costs_of(*cost)),
        invariant
            cost_oracle(*cost),
            dijkstra_inv(*cost, sources@, dist@, open@, explored as int),
        ensures
            dist@ == dijkstra_spec(sources@, costs_of(*cost)),
        decreases (MAX_DIJKSTRA_NODES - explored) * 9 + open@.len(),
    {
        if grow_round(sources, cost, &mut dist, &mut open, &mut explored, Ghost(fuel)) {
            break;
        }
        proof {
            fuel = (fuel - 1) as nat;
        }
    }
    proof {
        assert forall|k: (int, int)| #[trigger] dist@.contains_key(k) implies 0 <= dist@[k] <= MAX_MAP_DISTANCE by {
            assert(explored * MAX_TILE_COST <= MAX_MAP_DISTANCE);
        }
    }
    dist
}

/// Flees from a threat: maps walking distances from the threat, then steps to the neighbor
/// that best gains distance for its cost.
pub fn flee_direction<F: Fn(GridVec) -> Option<i32>>(my_pos: GridVec, threat_pos: GridVec, cost: &F) -> (d: Option<GridVec>)
    requires
        near_origin(my_pos),
        near_origin(threat_pos),
        cost_oracle(*cost),
    ensures
        picks(flee_score(*cost, my_pos, dijkstra_spec(seq![threat_pos], costs_of(*cost))), d),
{
    let sources = vec![threat_pos];
    proof {
        assert(sources@ == seq![threat_pos]);
        assert(sources@[0] == threat_pos);
    }
    let threat_map = dijkstra_map(&sources, cost);
    let d = flee_choice(my_pos, &threat_map, cost);
    proof {
        assert(threat_map@.contains_key((sources@[0].x as int, sources@[0].y as int)));
    }
    d
}

} // verus!
