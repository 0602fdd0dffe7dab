//! A* search for the first step of a path on the grid.
use crate::grid_vec::{chebyshev_spec, direction_spec, is_king_step, GridVec};
use crate::point_set::{in_i32_range, PointMap, PointSet};
use vstd::prelude::*;

verus! {

/// The cost of one step onto an ordinary tile.
pub const STEP_COST: i32 = 10;

/// How many tiles the search expands at most.
pub const MAX_A_STAR_NODES: usize = 640;

/// The largest cost a tile may have.
pub const MAX_TILE_COST: i32 = 1_000_000;

/// How far from the origin the start and goal of a search may lie, per coordinate.
pub const MAX_PATH_COORD: i32 = 0x100_0000;

/// A grid vector as a pair of integers.
pub open spec fn pt(v: GridVec) -> (int, int) {
    (v.x as int, v.y as int)
}

/// The grid vector of an in-range pair of integers.
pub open spec fn gv(q: (int, int)) -> GridVec {
    GridVec { x: q.0 as i32, y: q.1 as i32 }
}

/// Two tiles are one king move apart.
pub open spec fn adjacent(a: GridVec, b: GridVec) -> bool {
    chebyshev_spec(a, b) == 1
}

/// `path` walks from `from` to `to` by king moves, and every tile of it before `to` satisfies `ok`.
pub open spec fn valid_path(
    path: Seq<GridVec>,
    from: GridVec,
    to: GridVec,
    ok: spec_fn(GridVec) -> bool,
) -> bool {
    &&& path.len() >= 1
    &&& path[0] == from
    &&& path.last() == to
    &&& forall|i: int|
        0 <= i < path.len() - 1 ==> adjacent(#[trigger] path[i], path[i + 1]) && ok(path[i])
}

/// Some path walks from `from` to `to` through tiles that satisfy `ok`.
pub open spec fn path_exists(from: GridVec, to: GridVec, ok: spec_fn(GridVec) -> bool) -> bool {
    exists|path: Seq<GridVec>| #[trigger] valid_path(path, from, to, ok)
}

/// The tiles on which a cost function can return a cost (it can be entered).
pub open spec fn enterable<F: Fn(GridVec) -> Option<i32>>(f: F) -> spec_fn(GridVec) -> bool {
    |p: GridVec| exists|c: i32| call_ensures(f, (p,), Some(c))
}

/// A cost function that may be called on every tile and returns costs in `1..=MAX_TILE_COST`.
pub open spec fn is_cost_fn<F: Fn(GridVec) -> Option<i32>>(f: F) -> bool {
    &&& forall|p: GridVec| call_requires(f, (p,))
    &&& forall|p: GridVec, c: i32| call_ensures(f, (p,), Some(c)) ==> 1 <= c <= MAX_TILE_COST
}

/// A tile close enough to the origin for the search's arithmetic.
pub open spec fn near_origin(v: GridVec) -> bool {
    -MAX_PATH_COORD <= v.x <= MAX_PATH_COORD && -MAX_PATH_COORD <= v.y <= MAX_PATH_COORD
}

/// A cost function that may be called on every tile, prices tiles in `1..=MAX_TILE_COST`,
/// and answers the same for the same tile.
pub open spec fn cost_oracle<F: Fn(GridVec) -> Option<i32>>(f: F) -> bool {
    &&& is_cost_fn(f)
    &&& forall|p: GridVec, a: Option<i32>, b: Option<i32>|
        #[trigger] call_ensures(f, (p,), a) && #[trigger] call_ensures(f, (p,), b) ==> a == b
}

/// The answer of a cost oracle for tile `p`.
pub open spec fn cost_of<F: Fn(GridVec) -> Option<i32>>(f: F, p: GridVec) -> Option<i32> {
    choose|r: Option<i32>| call_ensures(f, (p,), r)
}

/// A yes-or-no question about tiles that may be asked of every tile and answers the same for
/// the same tile.
pub open spec fn tile_oracle<G: Fn(GridVec) -> bool>(g: G) -> bool {
    &&& forall|p: GridVec| call_requires(g, (p,))
    &&& forall|p: GridVec| !(call_ensures(g, (p,), true) && #[trigger] call_ensures(g, (p,), false))
}

/// The answer of a tile oracle for tile `p`.
pub open spec fn holds_at<G: Fn(GridVec) -> bool>(g: G, p: GridVec) -> bool {
    call_ensures(g, (p,), true)
}

/// The tile reached from `a` by the offset `d`.
pub open spec fn shifted(a: GridVec, d: GridVec) -> GridVec {
    GridVec { x: (a.x + d.x) as i32, y: (a.y + d.y) as i32 }
}

/// An entry of the open list: estimated total cost, heuristic, tile.
pub type OpenEntry = (i32, i32, GridVec);

/// The open-list order: by estimated total cost, then heuristic, then x, then y.
pub open spec fn entry_le(a: OpenEntry, b: OpenEntry) -> bool {
    a.0 < b.0 || (a.0 == b.0 && (a.1 < b.1 || (a.1 == b.1 && (a.2.x < b.2.x || (a.2.x == b.2.x
        && a.2.y <= b.2.y)))))
}

fn entry_before(a: &OpenEntry, b: &OpenEntry) -> (r: bool)
    ensures
        r == (entry_le(*a, *b) && *a != *b),
{
    if a.0 != b.0 {
        a.0 < b.0
    } else if a.1 != b.1 {
        a.1 < b.1
    } else if a.2.x != b.2.x {
        a.2.x < b.2.x
    } else {
        a.2.y < b.2.y
    }
}

/// The first index of the least entry of a nonempty open list.
pub open spec fn min_index(open: Seq<OpenEntry>) -> int
    decreases open.len(),
{
    if open.len() <= 1 {
        0
    } else {
        let b = min_index(open.drop_last());
        if entry_le(open.last(), open[b]) && open.last() != open[b] {
            open.len() - 1
        } else {
            b
        }
    }
}

/// Removes and returns the least entry of the open list (its first occurrence).
pub(crate) fn pop_min(open: &mut Vec<OpenEntry>) -> (e: OpenEntry)
    requires
        old(open)@.len() > 0,
    ensures
        0 <= min_index(old(open)@) < old(open)@.len(),
        e == old(open)@[min_index(old(open)@)],
        final(open)@ == old(open)@.remove(min_index(old(open)@)),
        exists|i: int|
            0 <= i < old(open)@.len() && old(open)@[i] == e && final(open)@ == old(open)@.remove(i),
        forall|i: int| 0 <= i < old(open)@.len() ==> entry_le(e, #[trigger] old(open)@[i]),
{
    let mut best: usize = 0;
    let mut i: usize = 1;
    proof {
        assert(open@.subrange(0, 1).len() == 1);
    }
    while i < open.len()
        invariant
            0 <= best < i <= open@.len(),
            open@ == old(open)@,
            forall|k: int| 0 <= k < i ==> entry_le(open@[best as int], #[trigger] open@[k]),
            best == min_index(open@.subrange(0, i as int)),
        decreases open@.len() - i,
    {
        proof {
            let s = open@.subrange(0, i + 1);
            assert(s.drop_last() == open@.subrange(0, i as int));
            assert(s.last() == open@[i as int]);
            assert(s[best as int] == open@[best as int]);
        }
        if entry_before(&open[i], &open[best]) {
            best = i;
        }
        i += 1;
    }
    proof {
        assert(open@.subrange(0, open@.len() as int) == open@);
    }
    open.remove(best)
}

/// The search's bookkeeping: tiles keep costs in range and near the start, every tile on the
/// open list has a cost and a parent (but the start), every parent is closed, one step
/// away and cheaper, and every tile with a parent is the goal or can be entered.
pub open spec fn search_inv<F: Fn(GridVec) -> Option<i32>>(
    start: GridVec,
    goal: GridVec,
    f: F,
    open: Seq<OpenEntry>,
    came_from: Map<(int, int), GridVec>,
    g: Map<(int, int), i32>,
    closed: Set<(int, int)>,
    explored: int,
) -> bool {
    &&& 0 <= explored <= MAX_A_STAR_NODES
    &&& g.contains_key(pt(start)) && g[pt(start)] == 0
    &&& forall|q: (int, int)|
        #[trigger] g.contains_key(q) ==> 0 <= g[q] <= explored * MAX_TILE_COST && start.x
            - explored - 1 <= q.0 <= start.x + explored + 1 && start.y - explored - 1 <= q.1
            <= start.y + explored + 1 && in_i32_range(q)
    &&& forall|i: int|
        0 <= i < open.len() ==> g.contains_key(pt(#[trigger] open[i].2)) && (open[i].2 == start
            || came_from.contains_key(pt(open[i].2)))
    &&& forall|q: (int, int)| #[trigger]
        closed.contains(q) ==> g.contains_key(q) && (q == pt(start) || came_from.contains_key(q))
    &&& !came_from.contains_key(pt(start))
    &&& forall|q: (int, int)|
        #[trigger] came_from.contains_key(q) ==> {
            let p = came_from[q];
            &&& closed.contains(pt(p))
            &&& adjacent(p, gv(q))
            &&& g.contains_key(q)
            &&& g.contains_key(pt(p))
            &&& g[pt(p)] < g[q]
            &&& (q == pt(goal) || enterable(f)(gv(q)))
            &&& in_i32_range(q)
        }
}

/// The state of a search: open list, parents, costs so far, closed tiles, tiles expanded.
pub type SearchState = (Seq<OpenEntry>, Map<(int, int), GridVec>, Map<(int, int), i32>, Set<(int, int)>, int);

/// The tile `current` plus king move number `d`.
pub open spec fn neighbor_of(current: GridVec, d: int) -> GridVec {
    let dd = direction_spec(d);
    GridVec { x: (current.x + dd.0) as i32, y: (current.y + dd.1) as i32 }
}

/// `f` answers `costs(p)` whenever it answers for tile `p`.
pub open spec fn computes<F: Fn(GridVec) -> Option<i32>>(f: F, costs: spec_fn(GridVec) -> Option<i32>) -> bool {
    forall|p: GridVec, r: Option<i32>| #[trigger] call_ensures(f, (p,), r) ==> r == costs(p)
}

/// The costs a cost oracle gives, as a function of the tile.
pub open spec fn costs_of<F: Fn(GridVec) -> Option<i32>>(f: F) -> spec_fn(GridVec) -> Option<i32> {
    |p: GridVec| cost_of(f, p)
}

/// The cost of entering `nb`: the goal always costs `STEP_COST`.
pub open spec fn edge_cost(costs: spec_fn(GridVec) -> Option<i32>, goal: GridVec, nb: GridVec) -> Option<i32> {
    if nb == goal {
        Some(STEP_COST)
    } else {
        costs(nb)
    }
}

/// The search after offering the neighbors `d..8` of `current` (whose cost is `cg`): each
/// open neighbor that can be entered, and is reached more cheaply than before, gets
/// `current` as its parent, its new cost, and an open entry.
pub open spec fn relax(
    st: SearchState,
    costs: spec_fn(GridVec) -> Option<i32>,
    goal: GridVec,
    current: GridVec,
    cg: int,
    d: int,
) -> SearchState
    decreases 8 - d,
{
    if d < 0 || d >= 8 {
        st
    } else {
        let nb = neighbor_of(current, d);
        let next = if st.3.contains(pt(nb)) {
            st
        } else {
            match edge_cost(costs, goal, nb) {
                Some(e) => {
                    let cand = cg + e;
                    let better = if st.2.contains_key(pt(nb)) {
                        cand < st.2[pt(nb)]
                    } else {
                        cand < i32::MAX
                    };
                    if better {
                        let h = chebyshev_spec(nb, goal) * STEP_COST;
                        (
                            st.0.push(((cand + h) as i32, h as i32, nb)),
                            st.1.insert(pt(nb), current),
                            st.2.insert(pt(nb), cand as i32),
                            st.3,
                            st.4,
                        )
                    } else {
                        st
                    }
                },
                None => st,
            }
        };
        relax(next, costs, goal, current, cg, d + 1)
    }
}

/// Following the parents back from `step`: the move out of `start` onto the first tile of
/// the path, if the parents lead back to `start` within `fuel` tiles.
pub open spec fn trace(came_from: Map<(int, int), GridVec>, step: GridVec, start: GridVec, fuel: nat) -> Option<GridVec>
    decreases fuel,
{
    if fuel == 0 || !came_from.contains_key(pt(step)) {
        None
    } else {
        let prev = came_from[pt(step)];
        if prev == start {
            Some(GridVec { x: (step.x - start.x) as i32, y: (step.y - start.y) as i32 })
        } else {
            trace(came_from, prev, start, (fuel - 1) as nat)
        }
    }
}

/// The search from state `st`, for at most `fuel` rounds: take the least open entry; at the
/// goal, trace back the first step; skip a closed tile; else close it, stop after
/// `MAX_A_STAR_NODES` expansions, and offer its neighbors.
pub open spec fn search_run(
    st: SearchState,
    start: GridVec,
    goal: GridVec,
    costs: spec_fn(GridVec) -> Option<i32>,
    fuel: nat,
) -> Option<GridVec>
    decreases fuel,
{
    if fuel == 0 || st.0.len() == 0 {
        None
    } else {
        let i = min_index(st.0);
        let cur = st.0[i].2;
        let open = st.0.remove(i);
        if cur == goal {
            trace(st.1, goal, start, (st.2[pt(goal)] + 1) as nat)
        } else if st.3.contains(pt(cur)) {
            search_run((open, st.1, st.2, st.3, st.4), start, goal, costs, (fuel - 1) as nat)
        } else if st.4 + 1 >= MAX_A_STAR_NODES {
            None
        } else if !st.2.contains_key(pt(cur)) {
            None
        } else {
            search_run(
                relax((open, st.1, st.2, st.3.insert(pt(cur)), st.4 + 1), costs, goal, cur, st.2[pt(cur)] as int, 0),
                start,
                goal,
                costs,
                (fuel - 1) as nat,
            )
        }
    }
}

/// The search's state at the outset: the start open at its heuristic, with cost zero.
pub open spec fn initial_search(start: GridVec, goal: GridVec) -> SearchState {
    let h = (chebyshev_spec(start, goal) * STEP_COST) as i32;
    (seq![(h, h, start)], Map::empty(), Map::empty().insert(pt(start), 0i32), Set::empty(), 0)
}

/// Enough rounds for any search: each round expands a tile or drops an open entry.
pub open spec fn a_star_fuel() -> nat {
    (MAX_A_STAR_NODES * 9 + 1) as nat
}

/// The first step A* takes from `start` toward `goal`: none at the goal; straight onto an
/// adjacent goal that can be entered; else the first step of the path the search finds.
pub open spec fn a_star_spec(start: GridVec, goal: GridVec, costs: spec_fn(GridVec) -> Option<i32>) -> Option<GridVec> {
    if start == goal {
        None
    } else if chebyshev_spec(start, goal) == 1 && costs(goal) is Some {
        Some(GridVec { x: (goal.x - start.x) as i32, y: (goal.y - start.y) as i32 })
    } else {
        search_run(initial_search(start, goal), start, goal, costs, a_star_fuel())
    }
}

/// Offers the eight neighbors of the tile just closed, `current` of cost `current_g`, to the
/// search, in the order of `GridVec::direction`.
fn offer_neighbors<F: Fn(GridVec) -> Option<i32>>(
    start: GridVec,
    goal: GridVec,
    cost_fn: &F,
    current: GridVec,
    current_g: i32,
    explored: usize,
    open: &mut Vec<OpenEntry>,
    came_from: &mut PointMap<GridVec>,
    g_score: &mut PointMap<i32>,
    closed: &PointSet,
    Ghost(costs): Ghost<spec_fn(GridVec) -> Option<i32>>,
)
    requires
        near_origin(start),
        near_origin(goal),
        start != goal,
        is_cost_fn(*cost_fn),
        1 <= explored < MAX_A_STAR_NODES,
        closed@.contains(pt(start)),
        closed@.contains(pt(current)),
        old(g_score)@.contains_key(pt(current)),
        current_g == old(g_score)@[pt(current)],
        current_g <= (explored - 1) * MAX_TILE_COST,
        start.x - explored <= current.x <= start.x + explored,
        start.y - explored <= current.y <= start.y + explored,
        search_inv(start, goal, *cost_fn, old(open)@, old(came_from)@, old(g_score)@, closed@, explored as int),
    ensures
        final(open)@.len() <= old(open)@.len() + 8,
        search_inv(start, goal, *cost_fn, final(open)@, final(came_from)@, final(g_score)@, closed@, explored as int),
        computes(*cost_fn, costs) ==> (final(open)@, final(came_from)@, final(g_score)@, closed@, explored as int) == relax(
            (old(open)@, old(came_from)@, old(g_score)@, closed@, explored as int),
            costs,
            goal,
            current,
            current_g as int,
            0,
        ),
{
    let ghost target = relax(
        (open@, came_from@, g_score@, closed@, explored as int),
        costs,
        goal,
        current,
        current_g as int,
        0,
    );
    let ghost base_len = open@.len();
    let mut d: usize = 0;
    while d < 8
        invariant
            near_origin(start),
            near_origin(goal),
            start != goal,
            is_cost_fn(*cost_fn),
            d <= 8,
            1 <= explored < MAX_A_STAR_NODES,
            closed@.contains(pt(start)),
            closed@.contains(pt(current)),
            g_score@.contains_key(pt(current)),
            current_g == g_score@[pt(current)],
            current_g <= (explored - 1) * MAX_TILE_COST,
            start.x - explored <= current.x <= start.x + explored,
            start.y - explored <= current.y <= start.y + explored,
            open@.len() <= base_len + d,
            search_inv(start, goal, *cost_fn, open@, came_from@, g_score@, closed@, explored as int),
            computes(*cost_fn, costs) ==> relax(
                (open@, came_from@, g_score@, closed@, explored as int),
                costs,
                goal,
                current,
                current_g as int,
                d as int,
            ) == target,
        decreases 8 - d,
    {
        let ghost st = (open@, came_from@, g_score@, closed@, explored as int);
        let dir = GridVec::direction(d);
        let neighbor = current.plus(dir);
        proof {
            assert(neighbor == neighbor_of(current, d as int));
        }
        if !closed.contains(&(neighbor.x, neighbor.y)) {
            let edge: Option<i32> = if neighbor == goal {
                Some(STEP_COST)
            } else {
                let c = cost_fn(neighbor);
                proof {
                    assert(call_ensures(*cost_fn, (neighbor,), c));
                }
                c
            };
            proof {
                if computes(*cost_fn, costs) {
                    assert(edge == edge_cost(costs, goal, neighbor));
                }
            }
            match edge {
                Some(edge_cost) => {
                    let candidate = current_g + edge_cost;
                    let better = match g_score.get(&(neighbor.x, neighbor.y)) {
                        Some(g) => candidate < g,
                        None => candidate < i32::MAX,
                    };
                    if better {
                        proof {
                            assert(gv(pt(neighbor)) == neighbor);
                            assert(adjacent(current, neighbor));
                            if neighbor != goal {
                                assert(enterable(*cost_fn)(neighbor));
                            }
                            assert(neighbor != start);
                        }
                        came_from.insert((neighbor.x, neighbor.y), current);
                        g_score.insert((neighbor.x, neighbor.y), candidate);
                        let h = neighbor.chebyshev_distance(goal) * STEP_COST;
                        open.push((candidate + h, h, neighbor));
                    }
                },
                None => {},
            }
        }
        d += 1;
    }
}

/// Follows the parents back from the goal to the move out of `start`.
fn trace_back<F: Fn(GridVec) -> Option<i32>>(
    start: GridVec,
    goal: GridVec,
    cost_fn: &F,
    open: &Vec<OpenEntry>,
    came_from: &PointMap<GridVec>,
    g_score: &PointMap<i32>,
    closed: &PointSet,
    explored: usize,
) -> (step: Option<GridVec>)
    requires
        near_origin(start),
        start != goal,
        search_inv(start, goal, *cost_fn, open@, came_from@, g_score@, closed@, explored as int),
        came_from@.contains_key(pt(goal)),
    ensures
        step == trace(came_from@, goal, start, (g_score@[pt(goal)] + 1) as nat),
        step matches Some(d) ==> is_king_step(d) && path_exists(shifted(start, d), goal, enterable(*cost_fn)),
{
    let mut step = goal;
    let ghost mut path: Seq<GridVec> = seq![goal];
    let ghost mut fuel: nat = (g_score@[pt(goal)] + 1) as nat;
    loop
        invariant
            near_origin(start),
            start != goal,
            search_inv(start, goal, *cost_fn, open@, came_from@, g_score@, closed@, explored as int),
            came_from@.contains_key(pt(step)),
            valid_path(path, step, goal, enterable(*cost_fn)),
            g_score@.contains_key(pt(goal)),
            g_score@[pt(step)] <= g_score@[pt(goal)],
            step != goal ==> g_score@[pt(step)] < g_score@[pt(goal)],
            fuel > g_score@[pt(step)] >= 0,
            trace(came_from@, step, start, fuel) == trace(came_from@, goal, start, (g_score@[pt(goal)] + 1) as nat),
        decreases g_score@[pt(step)],
    {
        match came_from.get(&(step.x, step.y)) {
            Some(prev) => {
                proof {
                    assert(gv(pt(step)) == step);
                }
                if prev == start {
                    let d = step.minus(start);
                    proof {
                        assert(shifted(start, d) == step);
                    }
                    return Some(d);
                }
                proof {
                    assert(closed@.contains(pt(prev)));
                    assert(came_from@.contains_key(pt(prev)));
                    assert(gv(pt(prev)) == prev);
                    assert(prev != goal);
                    let new_path = seq![prev] + path;
                    assert forall|k: int| 0 <= k < new_path.len() - 1 implies adjacent(
                        #[trigger] new_path[k],
                        new_path[k + 1],
                    ) && enterable(*cost_fn)(new_path[k]) by {
                        if k > 0 {
                            assert(new_path[k] == path[k - 1]);
                            assert(new_path[k + 1] == path[k]);
                        }
                    }
                    path = new_path;
                    fuel = (fuel - 1) as nat;
                }
                step = prev;
            },
            None => {
                return None;
            },
        }
    }
}

/// One round of the search: takes the least open entry; returns the outcome when the search
/// ends this round, and nothing when it goes on.
fn search_round<F: Fn(GridVec) -> Option<i32>>(
    start: GridVec,
    goal: GridVec,
    cost_fn: &F,
    open: &mut Vec<OpenEntry>,
    came_from: &mut PointMap<GridVec>,
    g_score: &mut PointMap<i32>,
    closed: &mut PointSet,
    explored: &mut usize,
    Ghost(fuel): Ghost<nat>,
    Ghost(costs): Ghost<spec_fn(GridVec) -> Option<i32>>,
) -> (outcome: Option<Option<GridVec>>)
    requires
        near_origin(start),
        near_origin(goal),
        start != goal,
        is_cost_fn(*cost_fn),
        old(open)@.len() > 0,
        *old(explored) < MAX_A_STAR_NODES,
        search_inv(start, goal, *cost_fn, old(open)@, old(came_from)@, old(g_score)@, old(closed)@, *old(explored) as int),
        *old(explored) == 0 ==> old(closed)@ == Set::<(int, int)>::empty() && old(open)@.len() == 1
            && old(open)@[0].2 == start,
        *old(explored) > 0 ==> old(closed)@.contains(pt(start)),
        fuel >= (MAX_A_STAR_NODES - *old(explored)) * 9 + old(open)@.len(),
    ensures
        outcome matches Some(Some(d)) ==> is_king_step(d) && path_exists(shifted(start, d), goal, enterable(*cost_fn)),
        computes(*cost_fn, costs) && outcome is Some ==> outcome->0 == search_run(
            (old(open)@, old(came_from)@, old(g_score)@, old(closed)@, *old(explored) as int),
            start,
            goal,
            costs,
            fuel,
        ),
        outcome is None ==> {
            &&& 0 < *final(explored) < MAX_A_STAR_NODES
            &&& search_inv(start, goal, *cost_fn, final(open)@, final(came_from)@, final(g_score)@, final(closed)@, *final(explored) as int)
            &&& final(closed)@.contains(pt(start))
            &&& (MAX_A_STAR_NODES - *final(explored)) * 9 + final(open)@.len()
                < (MAX_A_STAR_NODES - *old(explored)) * 9 + old(open)@.len()
            &&& (computes(*cost_fn, costs) ==> search_run(
                (final(open)@, final(came_from)@, final(g_score)@, final(closed)@, *final(explored) as int),
                start,
                goal,
                costs,
                (fuel - 1) as nat,
            ) == search_run(
                (old(open)@, old(came_from)@, old(g_score)@, old(closed)@, *old(explored) as int),
                start,
                goal,
                costs,
                fuel,
            ))
        },
{
    let ghost open_before = open@;
    let entry = pop_min(open);
    let current = entry.2;
    proof {
        let i = min_index(open_before);
        assert(g_score@.contains_key(pt(open_before[i].2)));
        assert forall|j: int| 0 <= j < open@.len() implies g_score@.contains_key(
            pt(#[trigger] open@[j].2),
        ) && (open@[j].2 == start || came_from@.contains_key(pt(open@[j].2))) by {
            if j < i {
                assert(open@[j] == open_before[j]);
            } else {
                assert(open@[j] == open_before[j + 1]);
            }
        }
        if *explored == 0 {
            assert(current == start);
        }
    }
    if current == goal {
        proof {
            assert(came_from@.contains_key(pt(goal)));
        }
        return Some(trace_back(start, goal, cost_fn, open, came_from, g_score, closed, *explored));
    }
    if !closed.contains(&(current.x, current.y)) {
        closed.insert((current.x, current.y));
        *explored = *explored + 1;
        if *explored >= MAX_A_STAR_NODES {
            return Some(None);
        }
        let current_g = match g_score.get(&(current.x, current.y)) {
            Some(g) => g,
            None => {
                return Some(None);
            },
        };
        offer_neighbors(start, goal, cost_fn, current, current_g, *explored, open, came_from, g_score, closed, Ghost(costs));
    }
    None
}

/// The search behind `a_star_first_step`; when `cost_fn` computes `costs`, it takes the
/// step `a_star_spec` gives for them.
#[verifier::spinoff_prover]
fn a_star_search<F: Fn(GridVec) -> Option<i32>>(
    start: GridVec,
    goal: GridVec,
    cost_fn: F,
    Ghost(costs): Ghost<spec_fn(GridVec) -> Option<i32>>,
) -> (step: Option<GridVec>)
    requires
        near_origin(start),
        near_origin(goal),
        is_cost_fn(cost_fn),
    ensures
        start == goal ==> step is None,
        step matches Some(d) ==> is_king_step(d) && path_exists(
            shifted(start, d),
            goal,
            enterable(cost_fn),
        ),
        computes(cost_fn, costs) ==> step == a_star_spec(start, goal, costs),
{
    if start == goal {
        return None;
    }
    if start.chebyshev_distance(goal) == 1 {
        let goal_cost = cost_fn(goal);
        proof {
            assert(call_ensures(cost_fn, (goal,), goal_cost));
        }
        if goal_cost.is_some() {
            let d = goal.minus(start);
            proof {
                assert(shifted(start, d) == goal);
                assert(valid_path(seq![goal], goal, goal, enterable(cost_fn)));
            }
            return Some(d);
        }
    }
    let mut open: Vec<OpenEntry> = Vec::new();
    let mut came_from: PointMap<GridVec> = PointMap::new();
    let mut g_score: PointMap<i32> = PointMap::new();
    let mut closed = PointSet::new();
    let start_h = start.chebyshev_distance(goal) * STEP_COST;
    g_score.insert((start.x, start.y), 0);
    open.push((start_h, start_h, start));
    let mut explored: usize = 0;
    let ghost result = search_run(initial_search(start, goal), start, goal, costs, a_star_fuel());
    let ghost mut fuel: nat = a_star_fuel();
    proof {
        assert((open@, came_from@, g_score@, closed@, explored as int) == initial_search(start, goal));
        assert(computes(cost_fn, costs) ==> result == a_star_spec(start, goal, costs));
    }
    while open.len() > 0
        invariant
            near_origin(start),
            near_origin(goal),
            start != goal,
            is_cost_fn(cost_fn),
            explored < MAX_A_STAR_NODES,
            search_inv(start, goal, cost_fn, open@, came_from@, g_score@, closed@, explored as int),
            explored == 0 ==> closed@ == Set::<(int, int)>::empty() && open@.len() == 1
                && open@[0].2 == start,
            explored > 0 ==> closed@.contains(pt(start)),
            fuel >= (MAX_A_STAR_NODES - explored) * 9 + open@.len(),
            computes(cost_fn, costs) ==> search_run(
                (open@, came_from@, g_score@, closed@, explored as int),
                start,
                goal,
                costs,
                fuel,
            ) == result,
            computes(cost_fn, costs) ==> result == a_star_spec(start, goal, costs),
        decreases (MAX_A_STAR_NODES - explored) * 9 + open@.len(),
    {
        match search_round(start, goal, &cost_fn, &mut open, &mut came_from, &mut g_score, &mut closed, &mut explored, Ghost(fuel), Ghost(costs)) {
            Some(outcome) => {
                return outcome;
            },
            None => {
                proof {
                    fuel = (fuel - 1) as nat;
                }
            },
        }
    }
    None
}

/// A cost oracle computes the costs it answers.
proof fn lemma_oracle_computes<F: Fn(GridVec) -> Option<i32>>(f: F)
    requires
        cost_oracle(f),
    ensures
        computes(f, costs_of(f)),
{
    assert forall|p: GridVec, r: Option<i32>| #[trigger] call_ensures(f, (p,), r) implies r == costs_of(f)(p) by {
        let q = cost_of(f, p);
        assert(call_ensures(f, (p,), q));
    }
}

/// The first step from `start` toward `goal` of a path that A* finds within
/// `MAX_A_STAR_NODES` expansions, where `cost_fn` gives the cost of entering a tile (`None`
/// for an impassable tile; the goal is always enterable at `STEP_COST`). The open list is
/// taken in the order of `entry_le`, and neighbors in the order of `GridVec::direction`.
/// For a cost function that answers the same for the same tile, the step is `a_star_spec`.
pub fn a_star_first_step<F: Fn(GridVec) -> Option<i32>>(
    start: GridVec,
    goal: GridVec,
    cost_fn: F,
) -> (step: Option<GridVec>)
    requires
        near_origin(start),
        near_origin(goal),
        is_cost_fn(cost_fn),
    ensures
        start == goal ==> step is None,
        step matches Some(d) ==> is_king_step(d) && path_exists(
            shifted(start, d),
            goal,
            enterable(cost_fn),
        ),
        cost_oracle(cost_fn) ==> step == a_star_spec(start, goal, costs_of(cost_fn)),
{
    proof {
        if cost_oracle(cost_fn) {
            lemma_oracle_computes(cost_fn);
        }
    }
    a_star_search(start, goal, cost_fn, Ghost(costs_of(cost_fn)))
}

/// The tiles on which `is_walkable` can answer `true`.
pub open spec fn walkable<W: Fn(GridVec) -> bool>(is_walkable: W) -> spec_fn(GridVec) -> bool {
    |p: GridVec| call_ensures(is_walkable, (p,), true)
}

/// A path through tiles that satisfy `ok` also goes through tiles that satisfy a weaker `ok2`.
proof fn lemma_path_weaken(
    from: GridVec,
    to: GridVec,
    ok: spec_fn(GridVec) -> bool,
    ok2: spec_fn(GridVec) -> bool,
)
    requires
        path_exists(from, to, ok),
        forall|p: GridVec| #[trigger] ok(p) ==> ok2(p),
    ensures
        path_exists(from, to, ok2),
{
    let path = choose|path: Seq<GridVec>| #[trigger] valid_path(path, from, to, ok);
    assert(valid_path(path, from, to, ok2));
}

/// The costs of walking: `STEP_COST` onto every tile where `is_walkable` holds.
pub open spec fn walk_costs<W: Fn(GridVec) -> bool>(is_walkable: W) -> spec_fn(GridVec) -> Option<i32> {
    |p: GridVec| if holds_at(is_walkable, p) {
        Some(STEP_COST)
    } else {
        None
    }
}

/// The first step from `start` toward `goal` of a path that A* finds through tiles where
/// `is_walkable` holds, every step costing the same. For a walkability question that answers
/// the same for the same tile, the step is `a_star_spec` for the walking costs.
pub fn a_star_first_step_pub(
    start: GridVec,
    goal: GridVec,
    is_walkable: impl Fn(GridVec) -> bool,
) -> (step: Option<GridVec>)
    requires
        near_origin(start),
        near_origin(goal),
        forall|p: GridVec| call_requires(is_walkable, (p,)),
    ensures
        start == goal ==> step is None,
        step matches Some(d) ==> is_king_step(d) && path_exists(
            shifted(start, d),
            goal,
            walkable(is_walkable),
        ),
        tile_oracle(is_walkable) ==> step == a_star_spec(start, goal, walk_costs(is_walkable)),
{
    let walk = &is_walkable;
    let cost = |pos: GridVec| -> (r: Option<i32>)
        requires
            call_requires(walk, (pos,)),
        ensures
            r matches Some(c) ==> c == STEP_COST && call_ensures(walk, (pos,), true),
            r is None ==> call_ensures(walk, (pos,), false),
        {
            if walk(pos) {
                Some(STEP_COST)
            } else {
                None
            }
        };
    proof {
        if tile_oracle(is_walkable) {
            assert forall|p: GridVec, r: Option<i32>| #[trigger] call_ensures(cost, (p,), r) implies r == walk_costs(is_walkable)(p) by {
                if r is None {
                    assert(call_ensures(is_walkable, (p,), false));
                }
            }
        }
    }
    let step = a_star_search(start, goal, cost, Ghost(walk_costs(is_walkable)));
    proof {
        if let Some(d) = step {
            assert forall|p: GridVec| #[trigger] enterable(cost)(p) implies walkable(is_walkable)(
                p,
            ) by {
                let c = choose|c: i32| call_ensures(cost, (p,), Some(c));
            }
            lemma_path_weaken(shifted(start, d), goal, enterable(cost), walkable(is_walkable));
        }
    }
    step
}

} // verus!
