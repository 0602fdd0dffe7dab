//! Why the step A* takes begins a cheapest path, when no tile costs less than a plain step.
use crate::grid_vec::{chebyshev_spec, direction_spec, GridVec};
use crate::point_set::in_i32_range;
use crate::systems::pathfinding::{
    a_star_spec, adjacent, edge_cost, entry_le, gv, initial_search, min_index, near_origin,
    neighbor_of, pt, relax, search_run, shifted, trace, walk_costs, OpenEntry, SearchState, MAX_A_STAR_NODES,
    MAX_PATH_COORD, MAX_TILE_COST, STEP_COST,
};
use vstd::prelude::*;

verus! {

/// The search's estimate of the cost still to go from `q` to `goal`.
pub open spec fn estimate(q: GridVec, goal: GridVec) -> int {
    chebyshev_spec(q, goal) * STEP_COST
}

/// What stepping onto `q` costs, or nothing when it cannot be entered.
pub open spec fn step_price(costs: spec_fn(GridVec) -> Option<i32>, goal: GridVec, q: GridVec) -> int {
    match edge_cost(costs, goal, q) {
        Some(e) => e as int,
        None => 0,
    }
}

/// The cost of walking `path`: the price of every tile after the first.
pub open spec fn walk_cost(costs: spec_fn(GridVec) -> Option<i32>, goal: GridVec, path: Seq<GridVec>) -> int
    decreases path.len(),
{
    if path.len() <= 1 {
        0
    } else {
        walk_cost(costs, goal, path.drop_last()) + step_price(costs, goal, path.last())
    }
}

/// `path` leads from `from` to `to` by king moves, onto tiles that can be entered.
pub open spec fn is_walk(
    costs: spec_fn(GridVec) -> Option<i32>,
    goal: GridVec,
    path: Seq<GridVec>,
    from: GridVec,
    to: GridVec,
) -> bool {
    &&& path.len() >= 1
    &&& path[0] == from
    &&& path.last() == to
    &&& forall|i: int| 0 <= i < path.len() - 1 ==> adjacent(#[trigger] path[i], path[i + 1])
    &&& forall|i: int| 1 <= i < path.len() ==> (#[trigger] edge_cost(costs, goal, path[i])) is Some
}

/// Every tile that can be entered costs at least a plain step, and no more than the limit.
pub open spec fn no_cheap_tiles(costs: spec_fn(GridVec) -> Option<i32>) -> bool {
    forall|p: GridVec|
        (#[trigger] costs(p)) is Some ==> STEP_COST <= costs(p)->0 <= MAX_TILE_COST
}

/// Stepping `d` out of `start` begins a walk to `goal` that no other walk from `start` to
/// `goal` undercuts.
pub open spec fn cheapest_first_step(
    start: GridVec,
    goal: GridVec,
    costs: spec_fn(GridVec) -> Option<i32>,
    d: GridVec,
) -> bool {
    exists|best: Seq<GridVec>|
        {
            &&& #[trigger] is_walk(costs, goal, best, start, goal)
            &&& best.len() >= 2
            &&& best[1] == shifted(start, d)
            &&& forall|p: Seq<GridVec>|
                #[trigger] is_walk(costs, goal, p, start, goal) ==> walk_cost(costs, goal, best)
                    <= walk_cost(costs, goal, p)
        }
}

/// The least entry of an open list comes first in the open-list order.
proof fn lemma_min_index_least(open: Seq<OpenEntry>)
    requires
        open.len() > 0,
    ensures
        0 <= min_index(open) < open.len(),
        forall|k: int| 0 <= k < open.len() ==> entry_le(open[min_index(open)], #[trigger] open[k]),
    decreases open.len(),
{
    if open.len() > 1 {
        let rest = open.drop_last();
        lemma_min_index_least(rest);
        let b = min_index(rest);
        assert forall|k: int| 0 <= k < open.len() implies entry_le(open[min_index(open)], #[trigger] open[k]) by {
            if k < open.len() - 1 {
                assert(open[k] == rest[k]);
                assert(entry_le(rest[b], rest[k]));
            }
        }
    }
}

/// One king move changes the distance to any tile by at most one.
proof fn lemma_estimate_step(a: GridVec, b: GridVec, goal: GridVec)
    requires
        adjacent(a, b),
    ensures
        estimate(a, goal) <= STEP_COST + estimate(b, goal),
{
}

/// Along a walk whose tiles each cost at least a plain step, the estimate at the start is
/// no more than the walk's cost plus the estimate at its end.
proof fn lemma_estimate_along(costs: spec_fn(GridVec) -> Option<i32>, goal: GridVec, path: Seq<GridVec>)
    requires
        no_cheap_tiles(costs),
        path.len() >= 1,
        forall|i: int| 0 <= i < path.len() - 1 ==> adjacent(#[trigger] path[i], path[i + 1]),
        forall|i: int| 1 <= i < path.len() ==> (#[trigger] edge_cost(costs, goal, path[i])) is Some,
    ensures
        estimate(path[0], goal) <= walk_cost(costs, goal, path) + estimate(path.last(), goal),
    decreases path.len(),
{
    if path.len() > 1 {
        let rest = path.drop_last();
        assert forall|i: int| 0 <= i < rest.len() - 1 implies adjacent(#[trigger] rest[i], rest[i + 1]) by {
            assert(rest[i] == path[i] && rest[i + 1] == path[i + 1]);
        }
        assert forall|i: int| 1 <= i < rest.len() implies (#[trigger] edge_cost(costs, goal, rest[i])) is Some by {
            assert(rest[i] == path[i]);
        }
        lemma_estimate_along(costs, goal, rest);
        let n = path.len() - 1;
        assert(adjacent(path[n - 1], path[n]));
        lemma_estimate_step(path[n - 1], path[n], goal);
        assert(edge_cost(costs, goal, path[n]) is Some);
        if path[n] != goal {
            assert(costs(path[n]) is Some);
        }
    }
}

/// A walk's cost is never negative.
proof fn lemma_walk_cost_nonneg(costs: spec_fn(GridVec) -> Option<i32>, goal: GridVec, path: Seq<GridVec>)
    requires
        no_cheap_tiles(costs),
    ensures
        walk_cost(costs, goal, path) >= 0,
    decreases path.len(),
{
    if path.len() > 1 {
        lemma_walk_cost_nonneg(costs, goal, path.drop_last());
        if path.last() != goal && costs(path.last()) is Some {
            assert(costs(path.last()) is Some);
        }
    }
}

/// A walk's cost splits at any tile into the cost up to it and the cost from it.
proof fn lemma_walk_cost_split(costs: spec_fn(GridVec) -> Option<i32>, goal: GridVec, path: Seq<GridVec>, j: int)
    requires
        0 <= j < path.len(),
    ensures
        walk_cost(costs, goal, path) == walk_cost(costs, goal, path.take(j + 1)) + walk_cost(
            costs,
            goal,
            path.skip(j),
        ),
    decreases path.len(),
{
    if j == path.len() - 1 {
        assert(path.take(j + 1) == path);
        assert(path.skip(j).len() == 1);
    } else {
        let rest = path.drop_last();
        lemma_walk_cost_split(costs, goal, rest, j);
        assert(rest.take(j + 1) == path.take(j + 1));
        assert(rest.skip(j) == path.skip(j).drop_last());
        assert(path.skip(j).last() == path.last());
    }
}

/// Each of the eight king moves leads to an adjacent tile, and each adjacent tile is reached
/// by one of them.
proof fn lemma_neighbor_adjacent(c: GridVec, d: int)
    requires
        0 <= d < 8,
        i32::MIN < c.x < i32::MAX,
        i32::MIN < c.y < i32::MAX,
    ensures
        adjacent(c, neighbor_of(c, d)),
        neighbor_of(c, d).x == c.x + direction_spec(d).0,
        neighbor_of(c, d).y == c.y + direction_spec(d).1,
{
}

/// The king move from `a` onto an adjacent tile `b`.
proof fn lemma_adjacent_neighbor(a: GridVec, b: GridVec) -> (d: int)
    requires
        adjacent(a, b),
    ensures
        0 <= d < 8,
        neighbor_of(a, d) == b,
{
    let dx = b.x - a.x;
    let dy = b.y - a.y;
    let d: int = if dx == 0 && dy == 1 {
        0
    } else if dx == 1 && dy == 1 {
        1
    } else if dx == 1 && dy == 0 {
        2
    } else if dx == 1 && dy == -1 {
        3
    } else if dx == 0 && dy == -1 {
        4
    } else if dx == -1 && dy == -1 {
        5
    } else if dx == -1 && dy == 0 {
        6
    } else {
        7
    };
    d
}

/// After `cur` is closed, its `k`-th neighbor, if open and enterable, carries a cost no more
/// than the cost through `cur`.
pub open spec fn relaxed_at(
    st: SearchState,
    costs: spec_fn(GridVec) -> Option<i32>,
    goal: GridVec,
    q: (int, int),
    k: int,
) -> bool {
    let n = neighbor_of(gv(q), k);
    (!st.3.contains(pt(n)) && edge_cost(costs, goal, n) is Some) ==> st.2.contains_key(pt(n))
        && st.2[pt(n)] <= st.2[q] + edge_cost(costs, goal, n)->0
}

/// What holds of the search between rounds (with the neighbors of `cur` offered up to
/// `dlim`): costs in range near the start; closed tiles have costs and the goal is never
/// closed; each parent is closed, one step away, and cheaper by the price of the step; each
/// open entry estimates no less than its tile's cost plus the estimate; each costed tile that
/// is not closed has an open entry that estimates no more; the neighbors of closed tiles are
/// offered; and a closed tile's cost is that of a cheapest walk to it.
pub open spec fn opt_inv(
    st: SearchState,
    start: GridVec,
    goal: GridVec,
    costs: spec_fn(GridVec) -> Option<i32>,
    cur: (int, int),
    dlim: int,
) -> bool {
    &&& 0 <= st.4 < MAX_A_STAR_NODES
    &&& st.2.contains_key(pt(start)) && st.2[pt(start)] == 0
    &&& !st.1.contains_key(pt(start))
    &&& forall|q: (int, int)|
        #[trigger] st.2.contains_key(q) ==> 0 <= st.2[q] <= st.4 * MAX_TILE_COST && start.x - st.4
            - 1 <= q.0 <= start.x + st.4 + 1 && start.y - st.4 - 1 <= q.1 <= start.y + st.4 + 1
            && in_i32_range(q)
    &&& forall|q: (int, int)| #[trigger] st.3.contains(q) ==> st.2.contains_key(q)
    &&& !st.3.contains(pt(goal))
    &&& forall|q: (int, int)|
        #[trigger] st.1.contains_key(q) ==> {
            let p = st.1[q];
            &&& st.3.contains(pt(p))
            &&& adjacent(p, gv(q))
            &&& st.2.contains_key(q)
            &&& edge_cost(costs, goal, gv(q)) is Some
            &&& st.2[q] == st.2[pt(p)] + edge_cost(costs, goal, gv(q))->0
        }
    &&& forall|i: int|
        0 <= i < st.0.len() ==> st.2.contains_key(pt((#[trigger] st.0[i]).2)) && st.0[i].0
            >= st.2[pt(st.0[i].2)] + estimate(st.0[i].2, goal)
    &&& forall|q: (int, int)|
        #[trigger] st.2.contains_key(q) && !st.3.contains(q) ==> exists|i: int|
            0 <= i < st.0.len() && (#[trigger] st.0[i]).2 == gv(q) && st.0[i].0 <= st.2[q]
                + estimate(gv(q), goal)
    &&& forall|q: (int, int), k: int|
        st.3.contains(q) && 0 <= k < 8 && (q != cur || k < dlim) ==> #[trigger] relaxed_at(
            st,
            costs,
            goal,
            q,
            k,
        )
    &&& forall|q: (int, int), path: Seq<GridVec>|
        st.3.contains(q) && #[trigger] is_walk(costs, goal, path, start, gv(q)) ==> st.2[q]
            <= walk_cost(costs, goal, path)
}

/// The first tile of `path` from index `k` on that is not closed.
proof fn lemma_first_open(path: Seq<GridVec>, closed: Set<(int, int)>, k: int) -> (j: int)
    requires
        0 <= k < path.len(),
        forall|i: int| 0 <= i < k ==> closed.contains(pt(#[trigger] path[i])),
        !closed.contains(pt(path.last())),
    ensures
        k <= j < path.len(),
        !closed.contains(pt(path[j])),
        forall|i: int| 0 <= i < j ==> closed.contains(pt(#[trigger] path[i])),
    decreases path.len() - k,
{
    if !closed.contains(pt(path[k])) {
        k
    } else {
        lemma_first_open(path, closed, k + 1)
    }
}

/// The tile of the least open entry, when it is not closed, costs no more than any walk to it.
proof fn lemma_popped_is_cheapest(
    st: SearchState,
    start: GridVec,
    goal: GridVec,
    costs: spec_fn(GridVec) -> Option<i32>,
    c0: (int, int),
    path: Seq<GridVec>,
)
    requires
        no_cheap_tiles(costs),
        opt_inv(st, start, goal, costs, c0, 8),
        st.0.len() > 0,
        !st.3.contains(pt(st.0[min_index(st.0)].2)),
        is_walk(costs, goal, path, start, st.0[min_index(st.0)].2),
    ensures
        st.2[pt(st.0[min_index(st.0)].2)] <= walk_cost(costs, goal, path),
{
    let m = min_index(st.0);
    let u = st.0[m].2;
    lemma_min_index_least(st.0);
    let j = lemma_first_open(path, st.3, 0);
    let pj = path[j];
    assert(gv(pt(pj)) == pj);
    lemma_walk_cost_split(costs, goal, path, j);
    let suffix = path.skip(j);
    assert forall|i: int| 0 <= i < suffix.len() - 1 implies adjacent(#[trigger] suffix[i], suffix[i + 1]) by {
        assert(suffix[i] == path[j + i] && suffix[i + 1] == path[j + i + 1]);
    }
    assert forall|i: int| 1 <= i < suffix.len() implies (#[trigger] edge_cost(costs, goal, suffix[i])) is Some by {
        assert(suffix[i] == path[j + i]);
    }
    lemma_estimate_along(costs, goal, suffix);
    assert(suffix[0] == pj);
    assert(suffix.last() == u);
    if j == 0 {
        assert(pj == start);
        assert(walk_cost(costs, goal, path.take(1)) == 0);
    } else {
        let pm = path[j - 1];
        assert(st.3.contains(pt(pm)));
        assert(gv(pt(pm)) == pm);
        let prefix = path.take(j);
        assert forall|i: int| 0 <= i < prefix.len() - 1 implies adjacent(#[trigger] prefix[i], prefix[i + 1]) by {
            assert(prefix[i] == path[i] && prefix[i + 1] == path[i + 1]);
        }
        assert forall|i: int| 1 <= i < prefix.len() implies (#[trigger] edge_cost(costs, goal, prefix[i])) is Some by {
            assert(prefix[i] == path[i]);
        }
        assert(is_walk(costs, goal, prefix, start, gv(pt(pm))));
        assert(st.2[pt(pm)] <= walk_cost(costs, goal, prefix));
        assert(path.take(j + 1).drop_last() == prefix);
        assert(path.take(j + 1).last() == pj);
        assert(adjacent(path[j - 1], path[j]));
        let k = lemma_adjacent_neighbor(pm, pj);
        assert(relaxed_at(st, costs, goal, pt(pm), k));
        assert(edge_cost(costs, goal, path[j]) is Some);
    }
    assert(st.2.contains_key(pt(pj)));
    let w = choose|i: int|
        0 <= i < st.0.len() && (#[trigger] st.0[i]).2 == gv(pt(pj)) && st.0[i].0 <= st.2[pt(pj)]
            + estimate(gv(pt(pj)), goal);
    assert(entry_le(st.0[m], st.0[w]));
}

/// The search after offering neighbor `d` of `current` alone, as one round of `relax` does.
pub open spec fn relax_one(
    st: SearchState,
    costs: spec_fn(GridVec) -> Option<i32>,
    goal: GridVec,
    current: GridVec,
    cg: int,
    d: int,
) -> SearchState {
    let nb = neighbor_of(current, d);
    if st.3.contains(pt(nb)) {
        st
    } else {
        match edge_cost(costs, goal, nb) {
            Some(e) => {
                let cand = cg + e;
                let better = if st.2.contains_key(pt(nb)) {
                    cand < st.2[pt(nb)]
                } else {
                    cand < i32::MAX
                };
                if better {
                    let h = chebyshev_spec(nb, goal) * STEP_COST;
                    (
                        st.0.push(((cand + h) as i32, h as i32, nb)),
                        st.1.insert(pt(nb), current),
                        st.2.insert(pt(nb), cand as i32),
                        st.3,
                        st.4,
                    )
                } else {
                    st
                }
            },
            None => st,
        }
    }
}

/// Offering one neighbor of the closed tile `cur` keeps the search's bookkeeping.
proof fn lemma_relax_one(
    st: SearchState,
    start: GridVec,
    goal: GridVec,
    costs: spec_fn(GridVec) -> Option<i32>,
    cur: GridVec,
    cg: int,
    d: int,
)
    requires
        near_origin(start),
        near_origin(goal),
        no_cheap_tiles(costs),
        0 <= d < 8,
        opt_inv(st, start, goal, costs, pt(cur), d),
        st.3.contains(pt(cur)),
        st.2[pt(cur)] == cg,
        1 <= st.4,
        start.x - st.4 <= cur.x <= start.x + st.4,
        start.y - st.4 <= cur.y <= start.y + st.4,
        cg <= (st.4 - 1) * MAX_TILE_COST,
    ensures
        opt_inv(relax_one(st, costs, goal, cur, cg, d), start, goal, costs, pt(cur), d + 1),
        relax_one(st, costs, goal, cur, cg, d).3 == st.3,
        relax_one(st, costs, goal, cur, cg, d).4 == st.4,
        relax_one(st, costs, goal, cur, cg, d).2[pt(cur)] == cg,
{
    let next = relax_one(st, costs, goal, cur, cg, d);
    let nb = neighbor_of(cur, d);
    lemma_neighbor_adjacent(cur, d);
    assert(gv(pt(nb)) == nb);
    assert(gv(pt(cur)) == cur);
    if st.3.contains(pt(nb)) {
        assert forall|q: (int, int), k: int|
            next.3.contains(q) && 0 <= k < 8 && (q != pt(cur) || k < d + 1) implies #[trigger] relaxed_at(
            next,
            costs,
            goal,
            q,
            k,
        ) by {
            if q != pt(cur) || k < d {
                assert(relaxed_at(st, costs, goal, q, k));
            }
        }
    } else {
        match edge_cost(costs, goal, nb) {
            Some(e) => {
                if nb != goal {
                    assert(costs(nb) is Some);
                }
                let cand = cg + e;
                assert(cand < i32::MAX);
                let better = if st.2.contains_key(pt(nb)) {
                    cand < st.2[pt(nb)]
                } else {
                    cand < i32::MAX
                };
                if better {
                    let h = chebyshev_spec(nb, goal) * STEP_COST;
                    assert(h == estimate(nb, goal));
                    assert(0 <= h <= STEP_COST * (2 * MAX_PATH_COORD + MAX_A_STAR_NODES + 1));
                    assert(((cand + h) as i32) == cand + h);
                    assert(pt(nb) != pt(start));
                    let q0 = pt(nb);
                    assert forall|q: (int, int)| #[trigger] next.2.contains_key(q) implies 0 <= next.2[q]
                        <= next.4 * MAX_TILE_COST && start.x - next.4 - 1 <= q.0 <= start.x + next.4
                        + 1 && start.y - next.4 - 1 <= q.1 <= start.y + next.4 + 1 && in_i32_range(
                        q,
                    ) by {
                        if q != q0 {
                            assert(st.2.contains_key(q));
                        }
                    }
                    assert forall|q: (int, int)| #[trigger] next.1.contains_key(q) implies {
                        let p = next.1[q];
                        &&& next.3.contains(pt(p))
                        &&& adjacent(p, gv(q))
                        &&& next.2.contains_key(q)
                        &&& edge_cost(costs, goal, gv(q)) is Some
                        &&& next.2[q] == next.2[pt(p)] + edge_cost(costs, goal, gv(q))->0
                    } by {
                        if q != q0 {
                            assert(st.1.contains_key(q));
                            let p = st.1[q];
                            assert(st.3.contains(pt(p)));
                            assert(pt(p) != q0);
                        }
                    }
                    assert forall|i: int| 0 <= i < next.0.len() implies next.2.contains_key(
                        pt((#[trigger] next.0[i]).2),
                    ) && next.0[i].0 >= next.2[pt(next.0[i].2)] + estimate(next.0[i].2, goal) by {
                        if i < st.0.len() {
                            assert(next.0[i] == st.0[i]);
                            assert(st.2.contains_key(pt(st.0[i].2)));
                        }
                    }
                    assert forall|q: (int, int)| #[trigger]
                        next.2.contains_key(q) && !next.3.contains(q) implies exists|i: int|
                        0 <= i < next.0.len() && (#[trigger] next.0[i]).2 == gv(q) && next.0[i].0
                            <= next.2[q] + estimate(gv(q), goal) by {
                        if q == q0 {
                            let i = st.0.len() as int;
                            assert(next.0[i].2 == gv(q));
                        } else {
                            assert(st.2.contains_key(q));
                            let i = choose|i: int|
                                0 <= i < st.0.len() && (#[trigger] st.0[i]).2 == gv(q) && st.0[i].0
                                    <= st.2[q] + estimate(gv(q), goal);
                            assert(next.0[i] == st.0[i]);
                        }
                    }
                    assert forall|q: (int, int), k: int|
                        next.3.contains(q) && 0 <= k < 8 && (q != pt(cur) || k < d + 1) implies #[trigger] relaxed_at(
                        next,
                        costs,
                        goal,
                        q,
                        k,
                    ) by {
                        assert(q != q0);
                        if q != pt(cur) || k < d {
                            assert(relaxed_at(st, costs, goal, q, k));
                        }
                    }
                    assert forall|q: (int, int), path: Seq<GridVec>|
                        next.3.contains(q) && #[trigger] is_walk(costs, goal, path, start, gv(q)) implies next.2[q]
                        <= walk_cost(costs, goal, path) by {
                        assert(q != q0);
                    }
                } else {
                    assert forall|q: (int, int), k: int|
                        next.3.contains(q) && 0 <= k < 8 && (q != pt(cur) || k < d + 1) implies #[trigger] relaxed_at(
                        next,
                        costs,
                        goal,
                        q,
                        k,
                    ) by {
                        if q != pt(cur) || k < d {
                            assert(relaxed_at(st, costs, goal, q, k));
                        }
                    }
                }
            },
            None => {
                assert forall|q: (int, int), k: int|
                    next.3.contains(q) && 0 <= k < 8 && (q != pt(cur) || k < d + 1) implies #[trigger] relaxed_at(
                    next,
                    costs,
                    goal,
                    q,
                    k,
                ) by {
                    if q != pt(cur) || k < d {
                        assert(relaxed_at(st, costs, goal, q, k));
                    }
                }
            },
        }
    }
}

/// Offering the neighbors `d..8` of the closed tile `cur` keeps the search's bookkeeping,
/// with every neighbor of `cur` offered at the end.
proof fn lemma_relax(
    st: SearchState,
    start: GridVec,
    goal: GridVec,
    costs: spec_fn(GridVec) -> Option<i32>,
    cur: GridVec,
    cg: int,
    d: int,
)
    requires
        near_origin(start),
        near_origin(goal),
        no_cheap_tiles(costs),
        0 <= d <= 8,
        opt_inv(st, start, goal, costs, pt(cur), d),
        st.3.contains(pt(cur)),
        st.2[pt(cur)] == cg,
        1 <= st.4,
        start.x - st.4 <= cur.x <= start.x + st.4,
        start.y - st.4 <= cur.y <= start.y + st.4,
        cg <= (st.4 - 1) * MAX_TILE_COST,
    ensures
        opt_inv(relax(st, costs, goal, cur, cg, d), start, goal, costs, pt(cur), 8),
    decreases 8 - d,
{
    if d < 8 {
        let next = relax_one(st, costs, goal, cur, cg, d);
        lemma_relax_one(st, start, goal, costs, cur, cg, d);
        assert(relax(st, costs, goal, cur, cg, d) == relax(next, costs, goal, cur, cg, d + 1));
        lemma_relax(next, start, goal, costs, cur, cg, d + 1);
    }
}

/// The bookkeeping holds whatever tile is being offered once every neighbor is offered.
proof fn lemma_inv_any_cur(
    st: SearchState,
    start: GridVec,
    goal: GridVec,
    costs: spec_fn(GridVec) -> Option<i32>,
    c1: (int, int),
    c2: (int, int),
)
    requires
        opt_inv(st, start, goal, costs, c1, 8),
    ensures
        opt_inv(st, start, goal, costs, c2, 8),
{
}

/// Dropping the open entry of a closed tile keeps the bookkeeping.
proof fn lemma_drop_closed_entry(
    st: SearchState,
    start: GridVec,
    goal: GridVec,
    costs: spec_fn(GridVec) -> Option<i32>,
    c0: (int, int),
    i: int,
)
    requires
        opt_inv(st, start, goal, costs, c0, 8),
        0 <= i < st.0.len(),
        st.3.contains(pt(st.0[i].2)),
    ensures
        opt_inv((st.0.remove(i), st.1, st.2, st.3, st.4), start, goal, costs, c0, 8),
{
    let next = (st.0.remove(i), st.1, st.2, st.3, st.4);
    assert forall|j: int| 0 <= j < next.0.len() implies next.2.contains_key(pt((#[trigger] next.0[j]).2))
        && next.0[j].0 >= next.2[pt(next.0[j].2)] + estimate(next.0[j].2, goal) by {
        if j < i {
            assert(next.0[j] == st.0[j]);
        } else {
            assert(next.0[j] == st.0[j + 1]);
        }
    }
    assert forall|q: (int, int)| #[trigger]
        next.2.contains_key(q) && !next.3.contains(q) implies exists|j: int|
        0 <= j < next.0.len() && (#[trigger] next.0[j]).2 == gv(q) && next.0[j].0 <= next.2[q]
            + estimate(gv(q), goal) by {
        let j = choose|j: int|
            0 <= j < st.0.len() && (#[trigger] st.0[j]).2 == gv(q) && st.0[j].0 <= st.2[q]
                + estimate(gv(q), goal);
        assert(pt(gv(q)) == q);
        assert(j != i);
        if j < i {
            assert(next.0[j] == st.0[j]);
        } else {
            assert(next.0[j - 1] == st.0[j]);
        }
    }
    assert forall|q: (int, int), k: int|
        next.3.contains(q) && 0 <= k < 8 && (q != c0 || k < 8) implies #[trigger] relaxed_at(
        next,
        costs,
        goal,
        q,
        k,
    ) by {
        assert(relaxed_at(st, costs, goal, q, k));
    }
}

/// Closing the tile of the least open entry, which is neither closed nor the goal, keeps
/// the bookkeeping, with none of its neighbors offered yet.
proof fn lemma_close(
    st: SearchState,
    start: GridVec,
    goal: GridVec,
    costs: spec_fn(GridVec) -> Option<i32>,
    c0: (int, int),
)
    requires
        no_cheap_tiles(costs),
        opt_inv(st, start, goal, costs, c0, 8),
        st.0.len() > 0,
        st.0[min_index(st.0)].2 != goal,
        !st.3.contains(pt(st.0[min_index(st.0)].2)),
        st.4 + 1 < MAX_A_STAR_NODES,
    ensures
        ({
            let m = min_index(st.0);
            let cur = st.0[m].2;
            let next = (st.0.remove(m), st.1, st.2, st.3.insert(pt(cur)), st.4 + 1);
            &&& opt_inv(next, start, goal, costs, pt(cur), 0)
            &&& st.2.contains_key(pt(cur))
            &&& start.x - next.4 <= cur.x <= start.x + next.4
            &&& start.y - next.4 <= cur.y <= start.y + next.4
            &&& st.2[pt(cur)] <= (next.4 - 1) * MAX_TILE_COST
        }),
{
    let m = min_index(st.0);
    lemma_min_index_least(st.0);
    let cur = st.0[m].2;
    let c = pt(cur);
    assert(st.2.contains_key(c));
    assert(gv(c) == cur);
    let next = (st.0.remove(m), st.1, st.2, st.3.insert(c), st.4 + 1);
    assert forall|q: (int, int)| #[trigger] next.2.contains_key(q) implies 0 <= next.2[q] <= next.4
        * MAX_TILE_COST && start.x - next.4 - 1 <= q.0 <= start.x + next.4 + 1 && start.y - next.4
        - 1 <= q.1 <= start.y + next.4 + 1 && in_i32_range(q) by {
        assert(st.2.contains_key(q));
    }
    assert forall|j: int| 0 <= j < next.0.len() implies next.2.contains_key(pt((#[trigger] next.0[j]).2))
        && next.0[j].0 >= next.2[pt(next.0[j].2)] + estimate(next.0[j].2, goal) by {
        if j < m {
            assert(next.0[j] == st.0[j]);
        } else {
            assert(next.0[j] == st.0[j + 1]);
        }
    }
    assert forall|q: (int, int)| #[trigger]
        next.2.contains_key(q) && !next.3.contains(q) implies exists|j: int|
        0 <= j < next.0.len() && (#[trigger] next.0[j]).2 == gv(q) && next.0[j].0 <= next.2[q]
            + estimate(gv(q), goal) by {
        let j = choose|j: int|
            0 <= j < st.0.len() && (#[trigger] st.0[j]).2 == gv(q) && st.0[j].0 <= st.2[q]
                + estimate(gv(q), goal);
        assert(pt(gv(q)) == q);
        assert(j != m);
        if j < m {
            assert(next.0[j] == st.0[j]);
        } else {
            assert(next.0[j - 1] == st.0[j]);
        }
    }
    assert forall|q: (int, int), k: int|
        next.3.contains(q) && 0 <= k < 8 && (q != c || k < 0) implies #[trigger] relaxed_at(
        next,
        costs,
        goal,
        q,
        k,
    ) by {
        assert(relaxed_at(st, costs, goal, q, k));
    }
    assert forall|q: (int, int), path: Seq<GridVec>|
        next.3.contains(q) && #[trigger] is_walk(costs, goal, path, start, gv(q)) implies next.2[q]
        <= walk_cost(costs, goal, path) by {
        if q == c {
            lemma_popped_is_cheapest(st, start, goal, costs, c0, path);
        }
    }
}

/// The search's state at the outset keeps the bookkeeping.
proof fn lemma_initial(start: GridVec, goal: GridVec, costs: spec_fn(GridVec) -> Option<i32>)
    requires
        near_origin(start),
        near_origin(goal),
        start != goal,
    ensures
        opt_inv(initial_search(start, goal), start, goal, costs, pt(start), 8),
{
    let st = initial_search(start, goal);
    let h = chebyshev_spec(start, goal) * STEP_COST;
    assert((h as i32) == h);
    assert(gv(pt(start)) == start);
    assert forall|q: (int, int)| #[trigger]
        st.2.contains_key(q) && !st.3.contains(q) implies exists|i: int|
        0 <= i < st.0.len() && (#[trigger] st.0[i]).2 == gv(q) && st.0[i].0 <= st.2[q]
            + estimate(gv(q), goal) by {
        assert(q == pt(start));
        assert(st.0[0].2 == gv(q));
    }
}

/// Following the parents back from `step` to the start retraces a walk whose cost is the
/// cost recorded for `step`, and whose first move is the one the trace returns.
proof fn lemma_trace_walk(
    st: SearchState,
    start: GridVec,
    goal: GridVec,
    costs: spec_fn(GridVec) -> Option<i32>,
    c0: (int, int),
    step: GridVec,
    fuel: nat,
) -> (w: Seq<GridVec>)
    requires
        opt_inv(st, start, goal, costs, c0, 8),
        trace(st.1, step, start, fuel) is Some,
    ensures
        is_walk(costs, goal, w, start, step),
        w.len() >= 2,
        w[1] == shifted(start, trace(st.1, step, start, fuel)->0),
        st.2.contains_key(pt(step)),
        walk_cost(costs, goal, w) == st.2[pt(step)],
    decreases fuel,
{
    let q = pt(step);
    assert(st.1.contains_key(q));
    assert(gv(q) == step);
    let prev = st.1[q];
    assert(adjacent(prev, step));
    assert(gv(pt(prev)) == prev);
    if prev == start {
        let w = seq![start, step];
        assert(w.drop_last() == seq![start]);
        assert(walk_cost(costs, goal, seq![start]) == 0);
        assert(walk_cost(costs, goal, w) == walk_cost(costs, goal, w.drop_last()) + step_price(costs, goal, w.last()));
        w
    } else {
        let w0 = lemma_trace_walk(st, start, goal, costs, c0, prev, (fuel - 1) as nat);
        let w = w0.push(step);
        assert(w.drop_last() == w0);
        assert(walk_cost(costs, goal, w) == walk_cost(costs, goal, w.drop_last()) + step_price(costs, goal, w.last()));
        assert forall|i: int| 0 <= i < w.len() - 1 implies adjacent(#[trigger] w[i], w[i + 1]) by {
            if i < w.len() - 2 {
                assert(w[i] == w0[i] && w[i + 1] == w0[i + 1]);
            }
        }
        assert forall|i: int| 1 <= i < w.len() implies (#[trigger] edge_cost(costs, goal, w[i])) is Some by {
            if i < w.len() - 1 {
                assert(w[i] == w0[i]);
            }
        }
        w
    }
}

/// From any state that keeps the bookkeeping, the step the search returns begins a
/// cheapest walk to the goal.
proof fn lemma_run(
    st: SearchState,
    start: GridVec,
    goal: GridVec,
    costs: spec_fn(GridVec) -> Option<i32>,
    fuel: nat,
)
    requires
        near_origin(start),
        near_origin(goal),
        no_cheap_tiles(costs),
        opt_inv(st, start, goal, costs, pt(start), 8),
    ensures
        search_run(st, start, goal, costs, fuel) matches Some(d) ==> cheapest_first_step(
            start,
            goal,
            costs,
            d,
        ),
    decreases fuel,
{
    if fuel == 0 || st.0.len() == 0 {
    } else {
        let m = min_index(st.0);
        lemma_min_index_least(st.0);
        let cur = st.0[m].2;
        let open = st.0.remove(m);
        if cur == goal {
            let r = trace(st.1, goal, start, (st.2[pt(goal)] + 1) as nat);
            if let Some(d) = r {
                let w = lemma_trace_walk(st, start, goal, costs, pt(start), goal, (st.2[pt(goal)] + 1) as nat);
                assert forall|p: Seq<GridVec>| #[trigger] is_walk(costs, goal, p, start, goal) implies walk_cost(
                    costs,
                    goal,
                    w,
                ) <= walk_cost(costs, goal, p) by {
                    lemma_popped_is_cheapest(st, start, goal, costs, pt(start), p);
                }
                assert(is_walk(costs, goal, w, start, goal));
            }
        } else if st.3.contains(pt(cur)) {
            lemma_drop_closed_entry(st, start, goal, costs, pt(start), m);
            lemma_run((open, st.1, st.2, st.3, st.4), start, goal, costs, (fuel - 1) as nat);
        } else if st.4 + 1 >= MAX_A_STAR_NODES {
        } else if !st.2.contains_key(pt(cur)) {
        } else {
            lemma_close(st, start, goal, costs, pt(start));
            let cg = st.2[pt(cur)] as int;
            let closed = (open, st.1, st.2, st.3.insert(pt(cur)), st.4 + 1);
            lemma_relax(closed, start, goal, costs, cur, cg, 0);
            let next = relax(closed, costs, goal, cur, cg, 0);
            lemma_inv_any_cur(next, start, goal, costs, pt(cur), pt(start));
            lemma_run(next, start, goal, costs, (fuel - 1) as nat);
        }
    }
}

/// The step that A* takes from `start` toward `goal` begins a walk to the goal that no other
/// walk undercuts, whenever no tile that can be entered costs less than a plain step (with
/// cheaper tiles the estimate of the distance left can exceed the true cost, and the search
/// may settle on a dearer walk).
pub proof fn lemma_a_star_takes_a_cheapest_step(
    start: GridVec,
    goal: GridVec,
    costs: spec_fn(GridVec) -> Option<i32>,
    d: GridVec,
)
    requires
        near_origin(start),
        near_origin(goal),
        no_cheap_tiles(costs),
        a_star_spec(start, goal, costs) == Some(d),
    ensures
        cheapest_first_step(start, goal, costs, d),
{
    if chebyshev_spec(start, goal) == 1 && costs(goal) is Some {
        let w = seq![start, goal];
        assert(w.drop_last() == seq![start]);
        assert(walk_cost(costs, goal, seq![start]) == 0);
        assert(walk_cost(costs, goal, w) == walk_cost(costs, goal, w.drop_last()) + step_price(costs, goal, w.last()));
        assert(shifted(start, d) == goal);
        assert forall|p: Seq<GridVec>| #[trigger] is_walk(costs, goal, p, start, goal) implies walk_cost(
            costs,
            goal,
            w,
        ) <= walk_cost(costs, goal, p) by {
            assert(p.len() >= 2);
            lemma_walk_cost_nonneg(costs, goal, p.drop_last());
            assert(walk_cost(costs, goal, p) == walk_cost(costs, goal, p.drop_last()) + step_price(costs, goal, p.last()));
        }
        assert(is_walk(costs, goal, w, start, goal));
    } else {
        lemma_initial(start, goal, costs);
        lemma_run(initial_search(start, goal), start, goal, costs, crate::systems::pathfinding::a_star_fuel());
    }
}

/// When every tile that can be walked on costs one plain step, the step A* takes begins a
/// walk to the goal with no more steps than any other.
pub proof fn lemma_walking_step_is_cheapest<W: Fn(GridVec) -> bool>(
    start: GridVec,
    goal: GridVec,
    is_walkable: W,
    d: GridVec,
)
    requires
        near_origin(start),
        near_origin(goal),
        a_star_spec(start, goal, walk_costs(is_walkable)) == Some(d),
    ensures
        cheapest_first_step(start, goal, walk_costs(is_walkable), d),
{
    lemma_a_star_takes_a_cheapest_step(start, goal, walk_costs(is_walkable), d);
}

} // verus!
