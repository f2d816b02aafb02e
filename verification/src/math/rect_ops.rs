use vstd::prelude::*;
use crate::math::num::Num;
use crate::math::rect::{Rect, in_range};
use crate::math::vec2::Vec2;

verus! {

impl<T: Num> core::ops::Add<Rect<T>> for Rect<T> {
    type Output = Self;

    /// Moves the rectangle by the other's position; the size stays.
    fn add(self, other: Rect<T>) -> (r: Self::Output) {
        let r = Rect { x: self.x.plus(other.x), y: self.y.plus(other.y), w: self.w, h: self.h };
        proof {
            T::lemma_from_int(r.x);
            T::lemma_from_int(r.y);
        }
        r
    }
}

impl<T: Num> vstd::std_specs::ops::AddSpecImpl<Rect<T>> for Rect<T> {
    open spec fn obeys_add_spec() -> bool {
        true
    }

    open spec fn add_req(self, rhs: Rect<T>) -> bool {
        in_range::<T>(self.sx() + rhs.sx()) && in_range::<T>(self.sy() + rhs.sy())
    }

    open spec fn add_spec(self, rhs: Rect<T>) -> Self {
        Rect {
            x: T::from_int(self.sx() + rhs.sx()),
            y: T::from_int(self.sy() + rhs.sy()),
            w: self.w,
            h: self.h,
        }
    }
}

impl<T: Num> core::ops::Sub<Rect<T>> for Rect<T> {
    type Output = Self;

    /// Moves the rectangle back by the other's position; the size stays.
    fn sub(self, other: Rect<T>) -> (r: Self::Output) {
        let r = Rect { x: self.x.minus(other.x), y: self.y.minus(other.y), w: self.w, h: self.h };
        proof {
            T::lemma_from_int(r.x);
            T::lemma_from_int(r.y);
        }
        r
    }
}

impl<T: Num> vstd::std_specs::ops::SubSpecImpl<Rect<T>> for Rect<T> {
    open spec fn obeys_sub_spec() -> bool {
        true
    }

    open spec fn sub_req(self, rhs: Rect<T>) -> bool {
        in_range::<T>(self.sx() - rhs.sx()) && in_range::<T>(self.sy() - rhs.sy())
    }

    open spec fn sub_spec(self, rhs: Rect<T>) -> Self {
        Rect {
            x: T::from_int(self.sx() - rhs.sx()),
            y: T::from_int(self.sy() - rhs.sy()),
            w: self.w,
            h: self.h,
        }
    }
}

impl<T: Num> core::ops::Add<Vec2<T>> for Rect<T> {
    type Output = Self;

    /// Moves the rectangle by the vector.
    fn add(self, other: Vec2<T>) -> (r: Self::Output) {
        let r = Rect { x: self.x.plus(other.x), y: self.y.plus(other.y), w: self.w, h: self.h };
        proof {
            T::lemma_from_int(r.x);
            T::lemma_from_int(r.y);
        }
        r
    }
}

impl<T: Num> vstd::std_specs::ops::AddSpecImpl<Vec2<T>> for Rect<T> {
    open spec fn obeys_add_spec() -> bool {
        true
    }

    open spec fn add_req(self, rhs: Vec2<T>) -> bool {
        in_range::<T>(self.sx() + rhs.x.as_int()) && in_range::<T>(self.sy() + rhs.y.as_int())
    }

    open spec fn add_spec(self, rhs: Vec2<T>) -> Self {
        Rect {
            x: T::from_int(self.sx() + rhs.x.as_int()),
            y: T::from_int(self.sy() + rhs.y.as_int()),
            w: self.w,
            h: self.h,
        }
    }
}

impl<T: Num> core::ops::Sub<Vec2<T>> for Rect<T> {
    type Output = Self;

    /// Moves the rectangle back by the vector.
    fn sub(self, other: Vec2<T>) -> (r: Self::Output) {
        let r = Rect { x: self.x.minus(other.x), y: self.y.minus(other.y), w: self.w, h: self.h };
        proof {
            T::lemma_from_int(r.x);
            T::lemma_from_int(r.y);
        }
        r
    }
}

impl<T: Num> vstd::std_specs::ops::SubSpecImpl<Vec2<T>> for Rect<T> {
    open spec fn obeys_sub_spec() -> bool {
        true
    }

    open spec fn sub_req(self, rhs: Vec2<T>) -> bool {
        in_range::<T>(self.sx() - rhs.x.as_int()) && in_range::<T>(self.sy() - rhs.y.as_int())
    }

    open spec fn sub_spec(self, rhs: Vec2<T>) -> Self {
        Rect {
            x: T::from_int(self.sx() - rhs.x.as_int()),
            y: T::from_int(self.sy() - rhs.y.as_int()),
            w: self.w,
            h: self.h,
        }
    }
}

impl<T: Num> core::ops::Mul<T> for Rect<T> {
    type Output = Self;

    /// Multiplies the position by `other`; the size stays.
    fn mul(self, other: T) -> (r: Self::Output) {
        let r = Rect { x: self.x.times(other), y: self.y.times(other), w: self.w, h: self.h };
        proof {
            T::lemma_from_int(r.x);
            T::lemma_from_int(r.y);
        }
        r
    }
}

impl<T: Num> vstd::std_specs::ops::MulSpecImpl<T> for Rect<T> {
    open spec fn obeys_mul_spec() -> bool {
        true
    }

    open spec fn mul_req(self, rhs: T) -> bool {
        in_range::<T>(self.sx() * rhs.as_int()) && in_range::<T>(self.sy() * rhs.as_int())
    }

    open spec fn mul_spec(self, rhs: T) -> Self {
        Rect {
            x: T::from_int(self.sx() * rhs.as_int()),
            y: T::from_int(self.sy() * rhs.as_int()),
            w: self.w,
            h: self.h,
        }
    }
}

impl From<Rect<u8>> for Rect<i32> {
    fn from(val: Rect<u8>) -> (r: Self) {
        Rect { x: val.x as i32, y: val.y as i32, w: val.w as i32, h: val.h as i32 }
    }
}

impl vstd::std_specs::convert::FromSpecImpl<Rect<u8>> for Rect<i32> {
    open spec fn obeys_from_spec() -> bool {
        true
    }

    open spec fn from_spec(v: Rect<u8>) -> Self {
        Rect { x: v.x as i32, y: v.y as i32, w: v.w as i32, h: v.h as i32 }
    }
}

impl From<Rect<u16>> for Rect<i32> {
    fn from(val: Rect<u16>) -> (r: Self) {
        Rect { x: val.x as i32, y: val.y as i32, w: val.w as i32, h: val.h as i32 }
    }
}

impl vstd::std_specs::convert::FromSpecImpl<Rect<u16>> for Rect<i32> {
    open spec fn obeys_from_spec() -> bool {
        true
    }

    open spec fn from_spec(v: Rect<u16>) -> Self {
        Rect { x: v.x as i32, y: v.y as i32, w: v.w as i32, h: v.h as i32 }
    }
}

impl From<Rect<i8>> for Rect<i32> {
    fn from(val: Rect<i8>) -> (r: Self) {
        Rect { x: val.x as i32, y: val.y as i32, w: val.w as i32, h: val.h as i32 }
    }
}

impl vstd::std_specs::convert::FromSpecImpl<Rect<i8>> for Rect<i32> {
    open spec fn obeys_from_spec() -> bool {
        true
    }

    open spec fn from_spec(v: Rect<i8>) -> Self {
        Rect { x: v.x as i32, y: v.y as i32, w: v.w as i32, h: v.h as i32 }
    }
}

} // verus!
