use vstd::prelude::*;
use crate::math::num::{Num, SignedNum, clamp_int, trunc_div};
use crate::math::vec2::Vec2;
use vstd::std_specs::ops::{AddSpec, SubSpec};

verus! {

/// A generic rectangular area: position `(x, y)` and size `(w, h)`.
#[derive(Clone, Copy, Debug, Default)]
pub struct Rect<T> {
    pub x: T,
    pub y: T,
    pub w: T,
    pub h: T,
}

/// The larger of two integers.
pub open spec fn max_int(a: int, b: int) -> int {
    if a > b {
        a
    } else {
        b
    }
}

/// The smaller of two integers.
pub open spec fn min_int(a: int, b: int) -> int {
    if a < b {
        a
    } else {
        b
    }
}

/// Whether `v` is in the range of `T`.
pub open spec fn in_range<T: Num>(v: int) -> bool {
    T::min_int() <= v <= T::max_int()
}

impl<T: Num> Rect<T> {
    /// Left edge.
    pub open spec fn sx(self) -> int {
        self.x.as_int()
    }

    /// Top edge.
    pub open spec fn sy(self) -> int {
        self.y.as_int()
    }

    /// Width.
    pub open spec fn sw(self) -> int {
        self.w.as_int()
    }

    /// Height.
    pub open spec fn sh(self) -> int {
        self.h.as_int()
    }

    /// Right edge, `x + w`.
    pub open spec fn sright(self) -> int {
        self.sx() + self.sw()
    }

    /// Bottom edge, `y + h`.
    pub open spec fn sbottom(self) -> int {
        self.sy() + self.sh()
    }

    /// The rectangle as four integers `(x, y, w, h)`.
    pub open spec fn as_ints(self) -> (int, int, int, int) {
        (self.sx(), self.sy(), self.sw(), self.sh())
    }

    /// Whether the right and bottom edges are in the range of `T`.
    pub open spec fn edges_in_range(self) -> bool {
        in_range::<T>(self.sright()) && in_range::<T>(self.sbottom())
    }

    /// Whether the point lies inside the rectangle, edges included.
    pub open spec fn spec_contains(self, x: int, y: int) -> bool {
        self.sx() <= x <= self.sright() && self.sy() <= y <= self.sbottom()
    }

    /// Whether the two rectangles touch or overlap, edges included.
    pub open spec fn spec_overlaps(self, other: Self) -> bool {
        &&& self.sx() <= other.sright()
        &&& other.sx() <= self.sright()
        &&& self.sy() <= other.sbottom()
        &&& other.sy() <= self.sbottom()
    }

    /// The common area of two overlapping rectangles, as `(x, y, w, h)`.
    pub open spec fn spec_intersection(self, other: Self) -> (int, int, int, int) {
        let x = max_int(self.sx(), other.sx());
        let y = max_int(self.sy(), other.sy());
        let right = min_int(self.sright(), other.sright());
        let bottom = min_int(self.sbottom(), other.sbottom());
        (x, y, right - x, bottom - y)
    }

    /// Creates a rectangle.
    pub fn new(x: T, y: T, w: T, h: T) -> (r: Self)
        ensures
            r == (Rect { x, y, w, h }),
    {
        Rect { x, y, w, h }
    }

    /// The rectangle moved by `(delta_x, delta_y)`, same size.
    pub fn offset(self, delta_x: T, delta_y: T) -> (r: Self)
        requires
            in_range::<T>(self.sx() + delta_x.as_int()),
            in_range::<T>(self.sy() + delta_y.as_int()),
        ensures
            r.as_ints() == (
                self.sx() + delta_x.as_int(),
                self.sy() + delta_y.as_int(),
                self.sw(),
                self.sh(),
            ),
    {
        Rect { x: self.x.plus(delta_x), y: self.y.plus(delta_y), ..self }
    }

    /// Position `(x, y)`.
    pub fn pos(&self) -> (r: Vec2<T>)
        ensures
            r == (Vec2 { x: self.x, y: self.y }),
    {
        Vec2 { x: self.x, y: self.y }
    }

    /// Size `(w, h)`.
    pub fn size(&self) -> (r: Vec2<T>)
        ensures
            r == (Vec2 { x: self.w, y: self.h }),
    {
        Vec2 { x: self.w, y: self.h }
    }

    /// Left edge, `x`.
    pub fn left(self) -> (r: T)
        ensures
            r == self.x,
    {
        self.x
    }

    /// Right edge, `x + w`.
    pub fn right(&self) -> (r: T)
        requires
            in_range::<T>(self.sright()),
        ensures
            r.as_int() == self.sright(),
    {
        self.x.plus(self.w)
    }

    /// Top edge, `y`.
    pub fn top(&self) -> (r: T)
        ensures
            r == self.y,
    {
        self.y
    }

    /// Bottom edge, `y + h`.
    pub fn bottom(&self) -> (r: T)
        requires
            in_range::<T>(self.sbottom()),
        ensures
            r.as_int() == self.sbottom(),
    {
        self.y.plus(self.h)
    }

    /// Top-left corner.
    pub fn top_left(&self) -> (r: Vec2<T>)
        ensures
            r == (Vec2 { x: self.x, y: self.y }),
    {
        Vec2 { x: self.x, y: self.y }
    }

    /// Top-right corner.
    pub fn top_right(&self) -> (r: Vec2<T>)
        requires
            in_range::<T>(self.sright()),
        ensures
            r.as_ints() == (self.sright(), self.sy()),
    {
        Vec2 { x: self.right(), y: self.y }
    }

    /// Bottom-left corner.
    pub fn bottom_left(&self) -> (r: Vec2<T>)
        requires
            in_range::<T>(self.sbottom()),
        ensures
            r.as_ints() == (self.sx(), self.sbottom()),
    {
        Vec2 { x: self.x, y: self.bottom() }
    }

    /// Bottom-right corner.
    pub fn bottom_right(&self) -> (r: Vec2<T>)
        requires
            self.edges_in_range(),
        ensures
            r.as_ints() == (self.sright(), self.sbottom()),
    {
        Vec2 { x: self.x.plus(self.w), y: self.y.plus(self.h) }
    }

    /// Middle of the bottom edge, `(x + w / 2, y + h)`.
    pub fn bottom_center(&self) -> (r: Vec2<T>)
        requires
            in_range::<T>(self.sx() + trunc_div(self.sw(), 2)),
            in_range::<T>(self.sbottom()),
        ensures
            r.as_ints() == (self.sx() + trunc_div(self.sw(), 2), self.sbottom()),
    {
        proof {
            T::lemma_range(self.w);
        }
        Vec2 { x: self.x.plus(self.w.over(T::two())), y: self.y.plus(self.h) }
    }

    /// Middle of the right edge, `(x + w, y + h / 2)`.
    pub fn right_center(&self) -> (r: Vec2<T>)
        requires
            in_range::<T>(self.sright()),
            in_range::<T>(self.sy() + trunc_div(self.sh(), 2)),
        ensures
            r.as_ints() == (self.sright(), self.sy() + trunc_div(self.sh(), 2)),
    {
        proof {
            T::lemma_range(self.h);
        }
        Vec2 { x: self.x.plus(self.w), y: self.y.plus(self.h.over(T::two())) }
    }

    /// Center, `(x + w / 2, y + h / 2)`.
    pub fn center(&self) -> (r: Vec2<T>)
        requires
            in_range::<T>(self.sx() + trunc_div(self.sw(), 2)),
            in_range::<T>(self.sy() + trunc_div(self.sh(), 2)),
        ensures
            r.as_ints() == (
                self.sx() + trunc_div(self.sw(), 2),
                self.sy() + trunc_div(self.sh(), 2),
            ),
    {
        proof {
            T::lemma_range(self.w);
            T::lemma_range(self.h);
        }
        let two: T = T::one().plus(T::one());
        Vec2 { x: self.x.plus(self.w.over(two)), y: self.y.plus(self.h.over(two)) }
    }

    /// The common area of two rectangles, or `None` when they neither touch nor overlap
    /// (edges count, as in `overlaps`).
    pub fn intersect(&self, other: Self) -> (r: Option<Self>)
        requires
            self.edges_in_range(),
            other.edges_in_range(),
        ensures
            r is Some <==> self.spec_overlaps(other),
            r matches Some(i) ==> i.as_ints() == self.spec_intersection(other),
    {
        if other.x.less_than(self.x.plus(self.w)) || other.x.equals(self.x.plus(self.w)) {
        } else {
            return None;
        }
        if other.y.less_than(self.y.plus(self.h)) || other.y.equals(self.y.plus(self.h)) {
        } else {
            return None;
        }
        if other.x.plus(other.w).less_than(self.x) {
            return None;
        }
        if other.y.plus(other.h).less_than(self.y) {
            return None;
        }
        let x = if self.x.less_than(other.x) || self.x.equals(other.x) {
            other.x
        } else {
            self.x
        };
        let y = if self.y.less_than(other.y) || self.y.equals(other.y) {
            other.y
        } else {
            self.y
        };
        let right = if self.right().less_than(other.right()) {
            self.right()
        } else {
            other.right()
        };
        let bottom = if self.bottom().less_than(other.bottom()) {
            self.bottom()
        } else {
            other.bottom()
        };
        proof {
            T::lemma_range(self.w);
            T::lemma_range(self.h);
            T::lemma_range(other.w);
            T::lemma_range(other.h);
            T::lemma_range(right);
            T::lemma_range(x);
            T::lemma_range(bottom);
            T::lemma_range(y);
        }
        Some(Rect { x, y, w: right.minus(x), h: bottom.minus(y) })
    }

    /// The point held inside the rectangle, edges included.
    pub fn clamp_vec(self, vec: Vec2<T>) -> (r: Vec2<T>)
        requires
            self.edges_in_range(),
        ensures
            r.x.as_int() == if vec.x.as_int() < self.sx() {
                self.sx()
            } else if vec.x.as_int() > self.sright() {
                self.sright()
            } else {
                vec.x.as_int()
            },
            r.y.as_int() == if vec.y.as_int() < self.sy() {
                self.sy()
            } else if vec.y.as_int() > self.sbottom() {
                self.sbottom()
            } else {
                vec.y.as_int()
            },
    {
        Vec2 {
            x: if vec.x.less_than(self.x) {
                self.x
            } else if self.right().less_than(vec.x) {
                self.right()
            } else {
                vec.x
            },
            y: if vec.y.less_than(self.y) {
                self.y
            } else if self.bottom().less_than(vec.y) {
                self.bottom()
            } else {
                vec.y
            },
        }
    }

    /// The rectangle shrunk by `margin` on every side, its size never below zero.
    pub fn shrink(self, margin: T) -> (r: Self)
        requires
            in_range::<T>(self.sx() + margin.as_int()),
            in_range::<T>(self.sy() + margin.as_int()),
            in_range::<T>(margin.as_int() * 2),
            in_range::<T>(self.sw() - margin.as_int() * 2),
            in_range::<T>(self.sh() - margin.as_int() * 2),
        ensures
            margin.as_int() == 0 ==> r == self,
            margin.as_int() != 0 ==> r.as_ints() == (
                self.sx() + margin.as_int(),
                self.sy() + margin.as_int(),
                max_int(self.sw() - margin.as_int() * 2, 0),
                max_int(self.sh() - margin.as_int() * 2, 0),
            ),
    {
        if margin.equals(T::zero()) {
            return self;
        }
        let twice = margin.times(T::two());
        Self {
            x: self.x.plus(margin),
            y: self.y.plus(margin),
            w: T::get_max(self.w.minus(twice), T::zero()),
            h: T::get_max(self.h.minus(twice), T::zero()),
        }
    }

    /// The rectangle grown by `margin` on every side.
    pub fn expand(self, margin: T) -> (r: Self)
        requires
            in_range::<T>(self.sx() - margin.as_int()),
            in_range::<T>(self.sy() - margin.as_int()),
            in_range::<T>(margin.as_int() * 2),
            in_range::<T>(self.sw() + margin.as_int() * 2),
            in_range::<T>(self.sh() + margin.as_int() * 2),
        ensures
            margin.as_int() == 0 ==> r == self,
            margin.as_int() != 0 ==> r.as_ints() == (
                self.sx() - margin.as_int(),
                self.sy() - margin.as_int(),
                self.sw() + margin.as_int() * 2,
                self.sh() + margin.as_int() * 2,
            ),
    {
        if margin.equals(T::zero()) {
            return self;
        }
        let twice = margin.times(T::two());
        Self {
            x: self.x.minus(margin),
            y: self.y.minus(margin),
            w: self.w.plus(twice),
            h: self.h.plus(twice),
        }
    }

    /// The rectangle converted to `i16`, each number held to the range of `i16`.
    pub fn to_i16(&self) -> (r: Rect<i16>)
        ensures
            r.x as int == clamp_int(self.sx(), i16::MIN as int, i16::MAX as int),
            r.y as int == clamp_int(self.sy(), i16::MIN as int, i16::MAX as int),
            r.w as int == clamp_int(self.sw(), i16::MIN as int, i16::MAX as int),
            r.h as int == clamp_int(self.sh(), i16::MIN as int, i16::MAX as int),
    {
        Rect {
            x: self.x.to_i16_saturating(),
            y: self.y.to_i16_saturating(),
            w: self.w.to_i16_saturating(),
            h: self.h.to_i16_saturating(),
        }
    }

    /// Every number divided by `factor`, rounding toward zero.
    pub fn scale(&self, factor: T) -> (r: Self)
        requires
            factor.as_int() != 0,
            in_range::<T>(trunc_div(self.sx(), factor.as_int())),
            in_range::<T>(trunc_div(self.sy(), factor.as_int())),
            in_range::<T>(trunc_div(self.sw(), factor.as_int())),
            in_range::<T>(trunc_div(self.sh(), factor.as_int())),
        ensures
            r.as_ints() == (
                trunc_div(self.sx(), factor.as_int()),
                trunc_div(self.sy(), factor.as_int()),
                trunc_div(self.sw(), factor.as_int()),
                trunc_div(self.sh(), factor.as_int()),
            ),
    {
        Rect {
            x: self.x.over(factor),
            y: self.y.over(factor),
            w: self.w.over(factor),
            h: self.h.over(factor),
        }
    }

    /// Whether the point lies inside the rectangle, edges included.
    pub fn contains(&self, x: T, y: T) -> (r: bool)
        requires
            self.edges_in_range(),
        ensures
            r == self.spec_contains(x.as_int(), y.as_int()),
    {
        !x.less_than(self.x) && !self.x.plus(self.w).less_than(x) && !y.less_than(self.y)
            && !self.y.plus(self.h).less_than(y)
    }

    /// Whether the two rectangles touch or overlap, edges included.
    pub fn overlaps(&self, other: &Self) -> (r: bool)
        requires
            self.edges_in_range(),
            other.edges_in_range(),
        ensures
            r == self.spec_overlaps(*other),
    {
        let self_right = self.x.plus(self.w);
        let self_bottom = self.y.plus(self.h);
        let other_right = other.x.plus(other.w);
        let other_bottom = other.y.plus(other.h);
        !other_right.less_than(self.x) && !self_right.less_than(other.x) && !other_bottom.less_than(
            self.y,
        ) && !self_bottom.less_than(other.y)
    }
}

impl<T: SignedNum> Rect<T> {
    /// The rectangle stretched horizontally to cover a move by `delta`: wider by
    /// `delta` to the right when it is positive, and to the left otherwise.
    pub fn sweep_x(self, delta: T) -> (r: Rect<T>)
        requires
            delta.as_int() > T::min_int(),
            in_range::<T>(self.sw() + vstd::math::abs(delta.as_int())),
            delta.as_int() <= 0 ==> in_range::<T>(self.sx() + delta.as_int()),
        ensures
            delta.as_int() > 0 ==> r.as_ints() == (self.sx(), self.sy(), self.sw() + delta.as_int(), self.sh()),
            delta.as_int() <= 0 ==> r.as_ints() == (self.sx() + delta.as_int(), self.sy(), self.sw() - delta.as_int(), self.sh()),
    {
        if T::zero().less_than(delta) {
            Rect { w: self.w.plus(delta), ..self }
        } else {
            Rect { x: self.x.plus(delta), w: self.w.plus(delta.negate()), ..self }
        }
    }

    /// The rectangle stretched vertically to cover a move by `delta`: taller by `delta`
    /// downward when it is positive, and upward otherwise.
    pub fn sweep_y(self, delta: T) -> (r: Rect<T>)
        requires
            delta.as_int() > T::min_int(),
            in_range::<T>(self.sh() + vstd::math::abs(delta.as_int())),
            delta.as_int() <= 0 ==> in_range::<T>(self.sy() + delta.as_int()),
        ensures
            delta.as_int() > 0 ==> r.as_ints() == (self.sx(), self.sy(), self.sw(), self.sh() + delta.as_int()),
            delta.as_int() <= 0 ==> r.as_ints() == (self.sx(), self.sy() + delta.as_int(), self.sw(), self.sh() - delta.as_int()),
    {
        if T::zero().less_than(delta) {
            Rect { h: self.h.plus(delta), ..self }
        } else {
            Rect { y: self.y.plus(delta), h: self.h.plus(delta.negate()), ..self }
        }
    }
}

/// Whether two rectangles overlap does not depend on their order, and neither does
/// their common area.
pub proof fn lemma_intersection_symmetric<T: Num>(a: Rect<T>, b: Rect<T>)
    ensures
        a.spec_overlaps(b) == b.spec_overlaps(a),
        a.spec_intersection(b) == b.spec_intersection(a),
{
}

/// The common area of two overlapping rectangles has no negative size and lies inside
/// both.
pub proof fn lemma_intersection_inside<T: Num>(a: Rect<T>, b: Rect<T>)
    requires
        a.sw() >= 0,
        a.sh() >= 0,
        b.sw() >= 0,
        b.sh() >= 0,
        a.spec_overlaps(b),
    ensures
        ({
            let (x, y, w, h) = a.spec_intersection(b);
            &&& w >= 0 && h >= 0
            &&& a.spec_contains(x, y) && b.spec_contains(x, y)
            &&& a.spec_contains(x + w, y + h) && b.spec_contains(x + w, y + h)
        }),
{
}

/// Every point inside a rectangle lies inside the rectangle grown by a margin.
pub proof fn lemma_expand_contains<T: Num>(r: Rect<T>, margin: int, px: int, py: int)
    requires
        margin >= 0,
        r.spec_contains(px, py),
    ensures
        r.sx() - margin <= px <= r.sx() - margin + (r.sw() + margin * 2),
        r.sy() - margin <= py <= r.sy() - margin + (r.sh() + margin * 2),
{
}

} // verus!
