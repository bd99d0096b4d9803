use vstd::prelude::*;

verus! {

/// A point or displacement in the plane, in integer world units.
#[derive(Clone, Copy, Debug, PartialEq, Eq, Structural)]
pub struct Vec2 {
    pub x: i64,
    pub y: i64,
}

/// `a + b`, component-wise, over unbounded integers.
pub open spec fn add_spec(a: Vec2, b: Vec2) -> (int, int) {
    (a.x + b.x, a.y + b.y)
}

/// Whether both components of a pair of integers fit in an `i64`.
pub open spec fn fits(p: (int, int)) -> bool {
    i64::MIN <= p.0 <= i64::MAX && i64::MIN <= p.1 <= i64::MAX
}

/// The vector whose components are `p`.
pub open spec fn vec_of(p: (int, int)) -> Vec2
    recommends
        fits(p),
{
    Vec2 { x: p.0 as i64, y: p.1 as i64 }
}

impl Vec2 {
    pub fn new(x: i64, y: i64) -> (r: Vec2)
        ensures
            r.x == x,
            r.y == y,
    {
        Vec2 { x, y }
    }

    /// The zero vector.
    pub fn zero() -> (r: Vec2)
        ensures
            r.x == 0,
            r.y == 0,
    {
        Vec2 { x: 0, y: 0 }
    }

    /// Component-wise sum.
    pub fn add(self, o: Vec2) -> (r: Vec2)
        requires
            fits(add_spec(self, o)),
        ensures
            r == vec_of(add_spec(self, o)),
    {
        Vec2 { x: self.x + o.x, y: self.y + o.y }
    }
}

} // verus!
