//! A set of grid points, stored as packed 64-bit keys in a `HashSet`.
use std::collections::{HashMap, HashSet};
use vstd::prelude::*;

verus! {

broadcast use vstd::std_specs::hash::group_hash_axioms;

/// The 64-bit key of a grid point: the bits of `x` above the bits of `y`.
pub open spec fn point_key(x: i32, y: i32) -> u64 {
    (((x as u32) as u64) << 32u64) | ((y as u32) as u64)
}

/// Distinct points have distinct keys.
pub proof fn lemma_point_key_injective(a: i32, b: i32, c: i32, d: i32)
    ensures
        point_key(a, b) == point_key(c, d) ==> a == c && b == d,
{
    assert(((((a as u32) as u64) << 32u64) | ((b as u32) as u64)) == ((((c as u32) as u64)
        << 32u64) | ((d as u32) as u64)) ==> a == c && b == d) by (bit_vector);
}

/// Whether an integer pair lies in the range of `i32` coordinates.
pub open spec fn in_i32_range(p: (int, int)) -> bool {
    &&& i32::MIN <= p.0 <= i32::MAX
    &&& i32::MIN <= p.1 <= i32::MAX
}

/// A finite set of `(x, y)` grid points.
#[derive(Debug)]
pub struct PointSet {
    keys: HashSet<u64>,
}

impl View for PointSet {
    type V = Set<(int, int)>;

    closed spec fn view(&self) -> Set<(int, int)> {
        Set::new(
            |p: (int, int)| in_i32_range(p) && self.keys@.contains(point_key(p.0 as i32, p.1 as i32)),
        )
    }
}

impl PointSet {
    /// An empty set.
    pub fn new() -> (s: Self)
        ensures
            s@ == Set::<(int, int)>::empty(),
    {
        let s = PointSet { keys: HashSet::new() };
        assert(s@ =~= Set::<(int, int)>::empty());
        s
    }

    pub(crate) fn key(x: i32, y: i32) -> (k: u64)
        ensures
            k == point_key(x, y),
    {
        (((x as u32) as u64) << 32u64) | ((y as u32) as u64)
    }

    /// Adds `point` to the set.
    pub fn insert(&mut self, point: (i32, i32))
        ensures
            final(self)@ == old(self)@.insert((point.0 as int, point.1 as int)),
    {
        let k = Self::key(point.0, point.1);
        self.keys.insert(k);
        assert forall|p: (int, int)|
            #![auto]
            final(self)@.contains(p) == old(self)@.insert((point.0 as int, point.1 as int)).contains(
                p,
            ) by {
            if in_i32_range(p) {
                lemma_point_key_injective(p.0 as i32, p.1 as i32, point.0, point.1);
            }
        }
        assert(final(self)@ =~= old(self)@.insert((point.0 as int, point.1 as int)));
    }

    /// Whether `point` is in the set.
    pub fn contains(&self, point: &(i32, i32)) -> (b: bool)
        ensures
            b == self@.contains((point.0 as int, point.1 as int)),
    {
        let k = Self::key(point.0, point.1);
        self.keys.contains(&k)
    }

    /// Removes every point.
    pub fn clear(&mut self)
        ensures
            final(self)@ == Set::<(int, int)>::empty(),
    {
        self.keys.clear();
        assert(final(self)@ =~= Set::<(int, int)>::empty());
    }
}

/// A finite map from `(x, y)` grid points to values, stored under packed 64-bit keys.
#[derive(Debug)]
pub struct PointMap<V> {
    entries: HashMap<u64, V>,
}

impl<V: Copy> View for PointMap<V> {
    type V = Map<(int, int), V>;

    closed spec fn view(&self) -> Map<(int, int), V> {
        Map::new(
            |p: (int, int)|
                in_i32_range(p) && self.entries@.contains_key(point_key(p.0 as i32, p.1 as i32)),
            |p: (int, int)| self.entries@[point_key(p.0 as i32, p.1 as i32)],
        )
    }
}

impl<V: Copy> PointMap<V> {
    /// An empty map.
    pub fn new() -> (m: Self)
        ensures
            m@ == Map::<(int, int), V>::empty(),
    {
        let m = PointMap { entries: HashMap::new() };
        assert(m@ =~= Map::<(int, int), V>::empty());
        m
    }

    /// Maps `point` to `value`.
    pub fn insert(&mut self, point: (i32, i32), value: V)
        ensures
            final(self)@ == old(self)@.insert((point.0 as int, point.1 as int), value),
    {
        let k = PointSet::key(point.0, point.1);
        let ghost before = self@;
        self.entries.insert(k, value);
        let ghost target = before.insert((point.0 as int, point.1 as int), value);
        assert forall|p: (int, int)| #[trigger] self@.contains_key(p) == target.contains_key(p) by {
            if in_i32_range(p) {
                lemma_point_key_injective(p.0 as i32, p.1 as i32, point.0, point.1);
            }
        }
        assert forall|p: (int, int)| #[trigger] self@.contains_key(p) implies self@[p] == target[p] by {
            lemma_point_key_injective(p.0 as i32, p.1 as i32, point.0, point.1);
        }
        assert(self@ =~= target);
    }

    /// The value that `point` maps to, if any.
    pub fn get(&self, point: &(i32, i32)) -> (v: Option<V>)
        ensures
            match v {
                Some(x) => self@.contains_key((point.0 as int, point.1 as int)) && x == self@[(
                    point.0 as int,
                    point.1 as int,
                )],
                None => !self@.contains_key((point.0 as int, point.1 as int)),
            },
    {
        let k = PointSet::key(point.0, point.1);
        match self.entries.get(&k) {
            Some(x) => Some(*x),
            None => None,
        }
    }
}

} // verus!
