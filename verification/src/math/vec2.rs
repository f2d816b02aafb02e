use vstd::prelude::*;
use crate::math::num::{Num, SignedNum};
use vstd::std_specs::ops::{AddSpec, SubSpec};

verus! {

/// A generic 2D vector.
#[derive(Clone, Copy, Debug, PartialEq, Default)]
pub struct Vec2<T> {
    pub x: T,
    pub y: T,
}

impl<T: Num> Vec2<T> {
    /// The vector as a pair of integers.
    pub open spec fn as_ints(self) -> (int, int) {
        (self.x.as_int(), self.y.as_int())
    }

    /// Whether `(x + dx, y + dy)` stays in the range of `T`.
    pub open spec fn offset_in_range(self, delta_x: T, delta_y: T) -> bool {
        &&& T::min_int() <= self.x.as_int() + delta_x.as_int() <= T::max_int()
        &&& T::min_int() <= self.y.as_int() + delta_y.as_int() <= T::max_int()
    }

    /// Creates a vector.
    pub fn new(x: T, y: T) -> (r: Self)
        ensures
            r == (Vec2 { x, y }),
    {
        Self { x, y }
    }

    /// The vector moved by `(delta_x, delta_y)`.
    pub fn offset(self, delta_x: T, delta_y: T) -> (r: Self)
        requires
            self.offset_in_range(delta_x, delta_y),
        ensures
            r.as_ints() == (self.x.as_int() + delta_x.as_int(), self.y.as_int() + delta_y.as_int()),
    {
        Self { x: self.x.plus(delta_x), y: self.y.plus(delta_y) }
    }

    /// The zero vector.
    pub fn zero() -> (r: Self)
        ensures
            r.as_ints() == (0int, 0int),
    {
        Self { x: T::zero(), y: T::zero() }
    }
}

impl<T: SignedNum> Vec2<T> {
    /// The unit vector pointing up (negative y).
    pub fn up() -> (r: Self)
        ensures
            r.as_ints() == (0int, -1int),
    {
        proof {
            T::lemma_signed_range();
        }
        Self { x: T::zero(), y: T::one().negate() }
    }

    /// The unit vector pointing down (positive y).
    pub fn down() -> (r: Self)
        ensures
            r.as_ints() == (0int, 1int),
    {
        Self { x: T::zero(), y: T::one() }
    }

    /// The unit vector pointing left (negative x).
    pub fn left() -> (r: Self)
        ensures
            r.as_ints() == (-1int, 0int),
    {
        proof {
            T::lemma_signed_range();
        }
        Self { x: T::one().negate(), y: T::zero() }
    }

    /// The unit vector pointing right (positive x).
    pub fn right() -> (r: Self)
        ensures
            r.as_ints() == (1int, 0int),
    {
        Self { x: T::one(), y: T::zero() }
    }
}

impl<T: Num> core::ops::Add<Vec2<T>> for Vec2<T> {
    type Output = Self;

    fn add(self, other: Vec2<T>) -> (r: Self::Output) {
        let r = Vec2 { x: self.x.plus(other.x), y: self.y.plus(other.y) };
        proof {
            T::lemma_from_int(r.x);
            T::lemma_from_int(r.y);
        }
        r
    }
}

impl<T: Num> vstd::std_specs::ops::AddSpecImpl<Vec2<T>> for Vec2<T> {
    open spec fn obeys_add_spec() -> bool {
        true
    }

    open spec fn add_req(self, rhs: Vec2<T>) -> bool {
        self.offset_in_range(rhs.x, rhs.y)
    }

    open spec fn add_spec(self, rhs: Vec2<T>) -> Self {
        Vec2 {
            x: T::from_int(self.x.as_int() + rhs.x.as_int()),
            y: T::from_int(self.y.as_int() + rhs.y.as_int()),
        }
    }
}

impl<T: Num> core::ops::Sub<Vec2<T>> for Vec2<T> {
    type Output = Self;

    fn sub(self, other: Vec2<T>) -> (r: Self::Output) {
        let r = Vec2 { x: self.x.minus(other.x), y: self.y.minus(other.y) };
        proof {
            T::lemma_from_int(r.x);
            T::lemma_from_int(r.y);
        }
        r
    }
}

impl<T: Num> vstd::std_specs::ops::SubSpecImpl<Vec2<T>> for Vec2<T> {
    open spec fn obeys_sub_spec() -> bool {
        true
    }

    open spec fn sub_req(self, rhs: Vec2<T>) -> bool {
        &&& T::min_int() <= self.x.as_int() - rhs.x.as_int() <= T::max_int()
        &&& T::min_int() <= self.y.as_int() - rhs.y.as_int() <= T::max_int()
    }

    open spec fn sub_spec(self, rhs: Vec2<T>) -> Self {
        Vec2 {
            x: T::from_int(self.x.as_int() - rhs.x.as_int()),
            y: T::from_int(self.y.as_int() - rhs.y.as_int()),
        }
    }
}

/// Adding a vector and then subtracting it gives back the start.
pub proof fn lemma_add_then_sub<T: Num>(a: Vec2<T>, b: Vec2<T>)
    requires
        a.add_req(b),
    ensures
        a.add_spec(b).sub_req(b),
        a.add_spec(b).sub_spec(b) == a,
{
    T::lemma_from_int_in_range(a.x.as_int() + b.x.as_int());
    T::lemma_from_int_in_range(a.y.as_int() + b.y.as_int());
    T::lemma_from_int(a.x);
    T::lemma_from_int(a.y);
    T::lemma_range(a.x);
    T::lemma_range(a.y);
    let s = a.add_spec(b);
    assert(s.sub_spec(b).x == a.x);
    assert(s.sub_spec(b).y == a.y);
}

} // verus!
