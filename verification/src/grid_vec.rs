//! Integer grid vectors and the eight king-move directions.
use vstd::prelude::*;

verus! {

/// A point or offset on the world grid.
#[derive(Clone, Copy, Debug, PartialEq, Eq, Hash, Structural)]
pub struct GridVec {
    pub x: i32,
    pub y: i32,
}

/// The eight unit king moves, clockwise from north.
pub open spec fn direction_spec(i: int) -> (int, int) {
    if i == 0 {
        (0, 1)
    } else if i == 1 {
        (1, 1)
    } else if i == 2 {
        (1, 0)
    } else if i == 3 {
        (1, -1)
    } else if i == 4 {
        (0, -1)
    } else if i == 5 {
        (-1, -1)
    } else if i == 6 {
        (-1, 0)
    } else {
        (-1, 1)
    }
}

/// A nonzero offset with both components in `-1..=1`: one king move.
pub open spec fn is_king_step(d: GridVec) -> bool {
    -1 <= d.x <= 1 && -1 <= d.y <= 1 && !(d.x == 0 && d.y == 0)
}

/// The Chebyshev (king-move) distance between two points.
pub open spec fn chebyshev_spec(a: GridVec, b: GridVec) -> int {
    let dx = if a.x >= b.x {
        a.x - b.x
    } else {
        b.x - a.x
    };
    let dy = if a.y >= b.y {
        a.y - b.y
    } else {
        b.y - a.y
    };
    if dx >= dy {
        dx
    } else {
        dy
    }
}

/// The sign of an integer: 1, 0 or -1.
pub open spec fn sign(v: int) -> int {
    if v > 0 {
        1
    } else if v < 0 {
        -1
    } else {
        0
    }
}

/// The king move that points the way of `v`: the sign of each component.
pub open spec fn king_step_spec(v: GridVec) -> (int, int) {
    (sign(v.x as int), sign(v.y as int))
}

/// The index of a king move among the eight directions, if it is one.
pub open spec fn direction_index_spec(d: (int, int)) -> Option<int> {
    if d == direction_spec(0) {
        Some(0)
    } else if d == direction_spec(1) {
        Some(1)
    } else if d == direction_spec(2) {
        Some(2)
    } else if d == direction_spec(3) {
        Some(3)
    } else if d == direction_spec(4) {
        Some(4)
    } else if d == direction_spec(5) {
        Some(5)
    } else if d == direction_spec(6) {
        Some(6)
    } else if d == direction_spec(7) {
        Some(7)
    } else {
        None
    }
}

impl GridVec {
    /// The vector `(x, y)`.
    pub fn new(x: i32, y: i32) -> (v: Self)
        ensures
            v.x == x,
            v.y == y,
    {
        GridVec { x, y }
    }

    /// The `i`-th of the eight king moves, clockwise from north.
    pub fn direction(i: usize) -> (d: Self)
        requires
            i < 8,
        ensures
            (d.x as int, d.y as int) == direction_spec(i as int),
            is_king_step(d),
    {
        match i {
            0 => GridVec { x: 0, y: 1 },
            1 => GridVec { x: 1, y: 1 },
            2 => GridVec { x: 1, y: 0 },
            3 => GridVec { x: 1, y: -1 },
            4 => GridVec { x: 0, y: -1 },
            5 => GridVec { x: -1, y: -1 },
            6 => GridVec { x: -1, y: 0 },
            _ => GridVec { x: -1, y: 1 },
        }
    }

    /// The Chebyshev (king-move) distance to `other`.
    pub fn chebyshev_distance(self, other: Self) -> (d: i32)
        requires
            -0x3fff_ffff <= self.x <= 0x3fff_ffff,
            -0x3fff_ffff <= self.y <= 0x3fff_ffff,
            -0x3fff_ffff <= other.x <= 0x3fff_ffff,
            -0x3fff_ffff <= other.y <= 0x3fff_ffff,
        ensures
            d == chebyshev_spec(self, other),
    {
        let dx = if self.x >= other.x {
            self.x - other.x
        } else {
            other.x - self.x
        };
        let dy = if self.y >= other.y {
            self.y - other.y
        } else {
            other.y - self.y
        };
        if dx >= dy {
            dx
        } else {
            dy
        }
    }

    /// The vector sum `self + other`.
    pub fn plus(self, other: Self) -> (v: Self)
        requires
            i32::MIN <= self.x + other.x <= i32::MAX,
            i32::MIN <= self.y + other.y <= i32::MAX,
        ensures
            v.x == self.x + other.x,
            v.y == self.y + other.y,
    {
        GridVec { x: self.x + other.x, y: self.y + other.y }
    }

    /// Whether both components are zero.
    pub fn is_zero(self) -> (b: bool)
        ensures
            b == (self.x == 0 && self.y == 0),
    {
        self.x == 0 && self.y == 0
    }

    /// The king move toward `self`: the sign of each component.
    pub fn king_step(self) -> (s: Self)
        ensures
            (s.x as int, s.y as int) == king_step_spec(self),
    {
        let x: i32 = if self.x > 0 {
            1
        } else if self.x < 0 {
            -1
        } else {
            0
        };
        let y: i32 = if self.y > 0 {
            1
        } else if self.y < 0 {
            -1
        } else {
            0
        };
        GridVec { x, y }
    }

    /// The vector turned a quarter turn counterclockwise: `(-y, x)`.
    pub fn rotate_90_ccw(self) -> (v: Self)
        requires
            self.y > i32::MIN,
        ensures
            v.x == -self.y,
            v.y == self.x,
    {
        GridVec { x: -self.y, y: self.x }
    }

    /// The vector turned a quarter turn clockwise: `(y, -x)`.
    pub fn rotate_90_cw(self) -> (v: Self)
        requires
            self.x > i32::MIN,
        ensures
            v.x == self.y,
            v.y == -self.x,
    {
        GridVec { x: self.y, y: -self.x }
    }

    /// The position of `self` among the eight king moves, if it is one.
    pub fn direction_index(self) -> (i: Option<usize>)
        ensures
            i matches Some(k) ==> direction_index_spec((self.x as int, self.y as int)) == Some(
                k as int,
            ),
            i is None ==> direction_index_spec((self.x as int, self.y as int)) is None,
    {
        let mut k: usize = 0;
        while k < 8
            invariant
                k <= 8,
                forall|j: int|
                    0 <= j < k ==> direction_spec(j) != (self.x as int, self.y as int),
            decreases 8 - k,
        {
            let d = GridVec::direction(k);
            if d.x == self.x && d.y == self.y {
                return Some(k);
            }
            k += 1;
        }
        None
    }

    /// The vector difference `self - other`.
    pub fn minus(self, other: Self) -> (v: Self)
        requires
            i32::MIN <= self.x - other.x <= i32::MAX,
            i32::MIN <= self.y - other.y <= i32::MAX,
        ensures
            v.x == self.x - other.x,
            v.y == self.y - other.y,
    {
        GridVec { x: self.x - other.x, y: self.y - other.y }
    }
}

} // verus!
