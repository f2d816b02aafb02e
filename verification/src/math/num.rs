use vstd::prelude::*;

verus! {

/// `v` held to the range `lo..=hi`.
pub open spec fn clamp_int(v: int, lo: int, hi: int) -> int {
    if v < lo {
        lo
    } else if v > hi {
        hi
    } else {
        v
    }
}

/// Integer division rounding toward zero, as Rust's `/` does.
pub open spec fn trunc_div(a: int, b: int) -> int {
    if a == 0 {
        0
    } else if a > 0 && b > 0 {
        a / b
    } else if a < 0 && b < 0 {
        (a * -1) / (b * -1)
    } else if a < 0 {
        ((a * -1) / b) * -1
    } else {
        (a / (b * -1)) * -1
    }
}

/// Base trait for the integer types that vectors and rectangles are made of.
///
/// Each value stands for the mathematical integer `as_int()`, within the type's range
/// `min_int()..=max_int()`. The arithmetic methods are the ones the operators `+`, `-`,
/// `*`, `/`, `<` and `==` give, and they require that the result is in range.
pub trait Num: Copy + Sized {
    /// The integer the value stands for.
    spec fn as_int(self) -> int;

    /// The smallest integer the type holds.
    spec fn min_int() -> int;

    /// The largest integer the type holds.
    spec fn max_int() -> int;

    /// The value that stands for `i`, when `i` is in range.
    spec fn from_int(i: int) -> Self;

    /// Each value is the one that stands for its integer.
    proof fn lemma_from_int(v: Self)
        ensures
            Self::from_int(v.as_int()) == v,
    ;

    /// Each integer in range has a value that stands for it.
    proof fn lemma_from_int_in_range(i: int)
        requires
            Self::min_int() <= i <= Self::max_int(),
        ensures
            Self::from_int(i).as_int() == i,
    ;

    /// Every value lies in the type's range, and the range holds 0 to 4.
    proof fn lemma_range(v: Self)
        ensures
            Self::min_int() <= v.as_int() <= Self::max_int(),
            Self::min_int() <= 0,
            Self::max_int() >= 4,
    ;

    /// Zero.
    fn zero() -> (r: Self)
        ensures
            r.as_int() == 0,
    ;

    /// One.
    fn one() -> (r: Self)
        ensures
            r.as_int() == 1,
    ;

    /// Two.
    fn two() -> (r: Self)
        ensures
            r.as_int() == 2,
    ;

    /// Four.
    fn four() -> (r: Self)
        ensures
            r.as_int() == 4,
    ;

    /// The value of `value` in this type, or `None` when it is larger than the type holds.
    fn from_usize_checked(value: usize) -> (r: Option<Self>)
        ensures
            r is Some <==> value <= Self::max_int(),
            r matches Some(v) ==> v.as_int() == value,
    ;

    /// The larger of the two values (`b` when they are equal).
    fn get_max(self, b: Self) -> (r: Self)
        ensures
            r.as_int() == if self.as_int() > b.as_int() {
                self.as_int()
            } else {
                b.as_int()
            },
    ;

    /// The smaller of the two values (`b` when they are equal).
    fn get_min(self, b: Self) -> (r: Self)
        ensures
            r.as_int() == if self.as_int() < b.as_int() {
                self.as_int()
            } else {
                b.as_int()
            },
    ;

    /// The difference, held to the type's range.
    fn saturating_sub(self, rhs: Self) -> (r: Self)
        ensures
            r.as_int() == clamp_int(self.as_int() - rhs.as_int(), Self::min_int(), Self::max_int()),
    ;

    /// The sum, held to the type's range.
    fn saturating_add(self, rhs: Self) -> (r: Self)
        ensures
            r.as_int() == clamp_int(self.as_int() + rhs.as_int(), Self::min_int(), Self::max_int()),
    ;

    /// `self + rhs`.
    fn plus(self, rhs: Self) -> (r: Self)
        requires
            Self::min_int() <= self.as_int() + rhs.as_int() <= Self::max_int(),
        ensures
            r.as_int() == self.as_int() + rhs.as_int(),
    ;

    /// `self - rhs`.
    fn minus(self, rhs: Self) -> (r: Self)
        requires
            Self::min_int() <= self.as_int() - rhs.as_int() <= Self::max_int(),
        ensures
            r.as_int() == self.as_int() - rhs.as_int(),
    ;

    /// `self * rhs`.
    fn times(self, rhs: Self) -> (r: Self)
        requires
            Self::min_int() <= self.as_int() * rhs.as_int() <= Self::max_int(),
        ensures
            r.as_int() == self.as_int() * rhs.as_int(),
    ;

    /// `self / rhs`, rounding toward zero.
    fn over(self, rhs: Self) -> (r: Self)
        requires
            rhs.as_int() != 0,
            Self::min_int() <= trunc_div(self.as_int(), rhs.as_int()) <= Self::max_int(),
        ensures
            r.as_int() == trunc_div(self.as_int(), rhs.as_int()),
    ;

    /// `self < rhs`.
    fn less_than(self, rhs: Self) -> (r: bool)
        ensures
            r == (self.as_int() < rhs.as_int()),
    ;

    /// `self == rhs`.
    fn equals(self, rhs: Self) -> (r: bool)
        ensures
            r == (self.as_int() == rhs.as_int()),
    ;

    /// The value as an `i16`, held to the range of `i16`.
    fn to_i16_saturating(self) -> (r: i16)
        ensures
            r as int == clamp_int(self.as_int(), i16::MIN as int, i16::MAX as int),
    ;
}

/// The numeric types that can be negated.
pub trait SignedNum: Num {
    /// The range reaches below zero.
    proof fn lemma_signed_range()
        ensures
            Self::min_int() < 0,
            Self::min_int() == -Self::max_int() - 1,
    ;

    /// `-self`.
    fn negate(self) -> (r: Self)
        requires
            self.as_int() > Self::min_int(),
        ensures
            r.as_int() == -self.as_int(),
    ;
}

/// Marker for the integer types.
pub trait Integer: Num {

}

impl Num for i8 {
    open spec fn as_int(self) -> int {
        self as int
    }

    open spec fn min_int() -> int {
        i8::MIN as int
    }

    open spec fn max_int() -> int {
        i8::MAX as int
    }

    open spec fn from_int(i: int) -> Self {
        i as i8
    }

    proof fn lemma_from_int(v: Self) {
    }

    proof fn lemma_from_int_in_range(i: int) {
    }

    proof fn lemma_range(v: Self) {
    }

    fn zero() -> (r: Self) {
        0
    }

    fn one() -> (r: Self) {
        1
    }

    fn two() -> (r: Self) {
        2
    }

    fn four() -> (r: Self) {
        4
    }

    fn from_usize_checked(value: usize) -> (r: Option<Self>) {
        if value <= i8::MAX as usize {
            Some(value as i8)
        } else {
            None
        }
    }

    fn get_max(self, b: Self) -> (r: Self) {
        if self > b {
            self
        } else {
            b
        }
    }

    fn get_min(self, b: Self) -> (r: Self) {
        if self < b {
            self
        } else {
            b
        }
    }

    fn saturating_sub(self, rhs: Self) -> (r: Self) {
        if rhs < 0 && self > i8::MAX + rhs {
            i8::MAX
        } else if rhs > 0 && self < i8::MIN + rhs {
            i8::MIN
        } else {
            self - rhs
        }
    }

    fn saturating_add(self, rhs: Self) -> (r: Self) {
        if rhs > 0 && self > i8::MAX - rhs {
            i8::MAX
        } else if rhs < 0 && self < i8::MIN - rhs {
            i8::MIN
        } else {
            self + rhs
        }
    }

    fn plus(self, rhs: Self) -> (r: Self) {
        self + rhs
    }

    fn minus(self, rhs: Self) -> (r: Self) {
        self - rhs
    }

    fn times(self, rhs: Self) -> (r: Self) {
        self * rhs
    }

    fn over(self, rhs: Self) -> (r: Self) {
        match self.checked_div(rhs) {
            Some(q) => q,
            None => {
                proof {
                    assert(false);
                }
                0
            },
        }
    }

    fn less_than(self, rhs: Self) -> (r: bool) {
        self < rhs
    }

    fn equals(self, rhs: Self) -> (r: bool) {
        self == rhs
    }

    fn to_i16_saturating(self) -> (r: i16) {
        self as i16
    }
}

impl Integer for i8 {

}

impl SignedNum for i8 {
    proof fn lemma_signed_range() {
    }

    fn negate(self) -> (r: Self) {
        -self
    }
}

impl Num for i16 {
    open spec fn as_int(self) -> int {
        self as int
    }

    open spec fn min_int() -> int {
        i16::MIN as int
    }

    open spec fn max_int() -> int {
        i16::MAX as int
    }

    open spec fn from_int(i: int) -> Self {
        i as i16
    }

    proof fn lemma_from_int(v: Self) {
    }

    proof fn lemma_from_int_in_range(i: int) {
    }

    proof fn lemma_range(v: Self) {
    }

    fn zero() -> (r: Self) {
        0
    }

    fn one() -> (r: Self) {
        1
    }

    fn two() -> (r: Self) {
        2
    }

    fn four() -> (r: Self) {
        4
    }

    fn from_usize_checked(value: usize) -> (r: Option<Self>) {
        if value <= i16::MAX as usize {
            Some(value as i16)
        } else {
            None
        }
    }

    fn get_max(self, b: Self) -> (r: Self) {
        if self > b {
            self
        } else {
            b
        }
    }

    fn get_min(self, b: Self) -> (r: Self) {
        if self < b {
            self
        } else {
            b
        }
    }

    fn saturating_sub(self, rhs: Self) -> (r: Self) {
        if rhs < 0 && self > i16::MAX + rhs {
            i16::MAX
        } else if rhs > 0 && self < i16::MIN + rhs {
            i16::MIN
        } else {
            self - rhs
        }
    }

    fn saturating_add(self, rhs: Self) -> (r: Self) {
        if rhs > 0 && self > i16::MAX - rhs {
            i16::MAX
        } else if rhs < 0 && self < i16::MIN - rhs {
            i16::MIN
        } else {
            self + rhs
        }
    }

    fn plus(self, rhs: Self) -> (r: Self) {
        self + rhs
    }

    fn minus(self, rhs: Self) -> (r: Self) {
        self - rhs
    }

    fn times(self, rhs: Self) -> (r: Self) {
        self * rhs
    }

    fn over(self, rhs: Self) -> (r: Self) {
        match self.checked_div(rhs) {
            Some(q) => q,
            None => {
                proof {
                    assert(false);
                }
                0
            },
        }
    }

    fn less_than(self, rhs: Self) -> (r: bool) {
        self < rhs
    }

    fn equals(self, rhs: Self) -> (r: bool) {
        self == rhs
    }

    fn to_i16_saturating(self) -> (r: i16) {
        self
    }
}

impl Integer for i16 {

}

impl SignedNum for i16 {
    proof fn lemma_signed_range() {
    }

    fn negate(self) -> (r: Self) {
        -self
    }
}

impl Num for i32 {
    open spec fn as_int(self) -> int {
        self as int
    }

    open spec fn min_int() -> int {
        i32::MIN as int
    }

    open spec fn max_int() -> int {
        i32::MAX as int
    }

    open spec fn from_int(i: int) -> Self {
        i as i32
    }

    proof fn lemma_from_int(v: Self) {
    }

    proof fn lemma_from_int_in_range(i: int) {
    }

    proof fn lemma_range(v: Self) {
    }

    fn zero() -> (r: Self) {
        0
    }

    fn one() -> (r: Self) {
        1
    }

    fn two() -> (r: Self) {
        2
    }

    fn four() -> (r: Self) {
        4
    }

    fn from_usize_checked(value: usize) -> (r: Option<Self>) {
        if value <= i32::MAX as usize {
            Some(value as i32)
        } else {
            None
        }
    }

    fn get_max(self, b: Self) -> (r: Self) {
        if self > b {
            self
        } else {
            b
        }
    }

    fn get_min(self, b: Self) -> (r: Self) {
        if self < b {
            self
        } else {
            b
        }
    }

    fn saturating_sub(self, rhs: Self) -> (r: Self) {
        if rhs < 0 && self > i32::MAX + rhs {
            i32::MAX
        } else if rhs > 0 && self < i32::MIN + rhs {
            i32::MIN
        } else {
            self - rhs
        }
    }

    fn saturating_add(self, rhs: Self) -> (r: Self) {
        if rhs > 0 && self > i32::MAX - rhs {
            i32::MAX
        } else if rhs < 0 && self < i32::MIN - rhs {
            i32::MIN
        } else {
            self + rhs
        }
    }

    fn plus(self, rhs: Self) -> (r: Self) {
        self + rhs
    }

    fn minus(self, rhs: Self) -> (r: Self) {
        self - rhs
    }

    fn times(self, rhs: Self) -> (r: Self) {
        self * rhs
    }

    fn over(self, rhs: Self) -> (r: Self) {
        match self.checked_div(rhs) {
            Some(q) => q,
            None => {
                proof {
                    assert(false);
                }
                0
            },
        }
    }

    fn less_than(self, rhs: Self) -> (r: bool) {
        self < rhs
    }

    fn equals(self, rhs: Self) -> (r: bool) {
        self == rhs
    }

    fn to_i16_saturating(self) -> (r: i16) {
        if self < i16::MIN as i32 {
            i16::MIN
        } else if self > i16::MAX as i32 {
            i16::MAX
        } else {
            self as i16
        }
    }
}

impl Integer for i32 {

}

impl SignedNum for i32 {
    proof fn lemma_signed_range() {
    }

    fn negate(self) -> (r: Self) {
        -self
    }
}

impl Num for i64 {
    open spec fn as_int(self) -> int {
        self as int
    }

    open spec fn min_int() -> int {
        i64::MIN as int
    }

    open spec fn max_int() -> int {
        i64::MAX as int
    }

    open spec fn from_int(i: int) -> Self {
        i as i64
    }

    proof fn lemma_from_int(v: Self) {
    }

    proof fn lemma_from_int_in_range(i: int) {
    }

    proof fn lemma_range(v: Self) {
    }

    fn zero() -> (r: Self) {
        0
    }

    fn one() -> (r: Self) {
        1
    }

    fn two() -> (r: Self) {
        2
    }

    fn four() -> (r: Self) {
        4
    }

    fn from_usize_checked(value: usize) -> (r: Option<Self>) {
        if value as u64 <= i64::MAX as u64 {
            Some(value as i64)
        } else {
            None
        }
    }

    fn get_max(self, b: Self) -> (r: Self) {
        if self > b {
            self
        } else {
            b
        }
    }

    fn get_min(self, b: Self) -> (r: Self) {
        if self < b {
            self
        } else {
            b
        }
    }

    fn saturating_sub(self, rhs: Self) -> (r: Self) {
        if rhs < 0 && self > i64::MAX + rhs {
            i64::MAX
        } else if rhs > 0 && self < i64::MIN + rhs {
            i64::MIN
        } else {
            self - rhs
        }
    }

    fn saturating_add(self, rhs: Self) -> (r: Self) {
        if rhs > 0 && self > i64::MAX - rhs {
            i64::MAX
        } else if rhs < 0 && self < i64::MIN - rhs {
            i64::MIN
        } else {
            self + rhs
        }
    }

    fn plus(self, rhs: Self) -> (r: Self) {
        self + rhs
    }

    fn minus(self, rhs: Self) -> (r: Self) {
        self - rhs
    }

    fn times(self, rhs: Self) -> (r: Self) {
        self * rhs
    }

    fn over(self, rhs: Self) -> (r: Self) {
        match self.checked_div(rhs) {
            Some(q) => q,
            None => {
                proof {
                    assert(false);
                }
                0
            },
        }
    }

    fn less_than(self, rhs: Self) -> (r: bool) {
        self < rhs
    }

    fn equals(self, rhs: Self) -> (r: bool) {
        self == rhs
    }

    fn to_i16_saturating(self) -> (r: i16) {
        if self < i16::MIN as i64 {
            i16::MIN
        } else if self > i16::MAX as i64 {
            i16::MAX
        } else {
            self as i16
        }
    }
}

impl Integer for i64 {

}

impl SignedNum for i64 {
    proof fn lemma_signed_range() {
    }

    fn negate(self) -> (r: Self) {
        -self
    }
}

impl Num for isize {
    open spec fn as_int(self) -> int {
        self as int
    }

    open spec fn min_int() -> int {
        isize::MIN as int
    }

    open spec fn max_int() -> int {
        isize::MAX as int
    }

    open spec fn from_int(i: int) -> Self {
        i as isize
    }

    proof fn lemma_from_int(v: Self) {
    }

    proof fn lemma_from_int_in_range(i: int) {
    }

    proof fn lemma_range(v: Self) {
    }

    fn zero() -> (r: Self) {
        0
    }

    fn one() -> (r: Self) {
        1
    }

    fn two() -> (r: Self) {
        2
    }

    fn four() -> (r: Self) {
        4
    }

    fn from_usize_checked(value: usize) -> (r: Option<Self>) {
        if value <= isize::MAX as usize {
            Some(value as isize)
        } else {
            None
        }
    }

    fn get_max(self, b: Self) -> (r: Self) {
        if self > b {
            self
        } else {
            b
        }
    }

    fn get_min(self, b: Self) -> (r: Self) {
        if self < b {
            self
        } else {
            b
        }
    }

    fn saturating_sub(self, rhs: Self) -> (r: Self) {
        if rhs < 0 && self > isize::MAX + rhs {
            isize::MAX
        } else if rhs > 0 && self < isize::MIN + rhs {
            isize::MIN
        } else {
            self - rhs
        }
    }

    fn saturating_add(self, rhs: Self) -> (r: Self) {
        if rhs > 0 && self > isize::MAX - rhs {
            isize::MAX
        } else if rhs < 0 && self < isize::MIN - rhs {
            isize::MIN
        } else {
            self + rhs
        }
    }

    fn plus(self, rhs: Self) -> (r: Self) {
        self + rhs
    }

    fn minus(self, rhs: Self) -> (r: Self) {
        self - rhs
    }

    fn times(self, rhs: Self) -> (r: Self) {
        self * rhs
    }

    fn over(self, rhs: Self) -> (r: Self) {
        match self.checked_div(rhs) {
            Some(q) => q,
            None => {
                proof {
                    assert(false);
                }
                0
            },
        }
    }

    fn less_than(self, rhs: Self) -> (r: bool) {
        self < rhs
    }

    fn equals(self, rhs: Self) -> (r: bool) {
        self == rhs
    }

    fn to_i16_saturating(self) -> (r: i16) {
        if self < i16::MIN as isize {
            i16::MIN
        } else if self > i16::MAX as isize {
            i16::MAX
        } else {
            self as i16
        }
    }
}

impl Integer for isize {

}

impl SignedNum for isize {
    proof fn lemma_signed_range() {
    }

    fn negate(self) -> (r: Self) {
        -self
    }
}

impl Num for u8 {
    open spec fn as_int(self) -> int {
        self as int
    }

    open spec fn min_int() -> int {
        u8::MIN as int
    }

    open spec fn max_int() -> int {
        u8::MAX as int
    }

    open spec fn from_int(i: int) -> Self {
        i as u8
    }

    proof fn lemma_from_int(v: Self) {
    }

    proof fn lemma_from_int_in_range(i: int) {
    }

    proof fn lemma_range(v: Self) {
    }

    fn zero() -> (r: Self) {
        0
    }

    fn one() -> (r: Self) {
        1
    }

    fn two() -> (r: Self) {
        2
    }

    fn four() -> (r: Self) {
        4
    }

    fn from_usize_checked(value: usize) -> (r: Option<Self>) {
        if value <= u8::MAX as usize {
            Some(value as u8)
        } else {
            None
        }
    }

    fn get_max(self, b: Self) -> (r: Self) {
        if self > b {
            self
        } else {
            b
        }
    }

    fn get_min(self, b: Self) -> (r: Self) {
        if self < b {
            self
        } else {
            b
        }
    }

    fn saturating_sub(self, rhs: Self) -> (r: Self) {
        u8::saturating_sub(self, rhs)
    }

    fn saturating_add(self, rhs: Self) -> (r: Self) {
        u8::saturating_add(self, rhs)
    }

    fn plus(self, rhs: Self) -> (r: Self) {
        self + rhs
    }

    fn minus(self, rhs: Self) -> (r: Self) {
        self - rhs
    }

    fn times(self, rhs: Self) -> (r: Self) {
        self * rhs
    }

    fn over(self, rhs: Self) -> (r: Self) {
        self / rhs
    }

    fn less_than(self, rhs: Self) -> (r: bool) {
        self < rhs
    }

    fn equals(self, rhs: Self) -> (r: bool) {
        self == rhs
    }

    fn to_i16_saturating(self) -> (r: i16) {
        self as i16
    }
}

impl Integer for u8 {

}

impl Num for u16 {
    open spec fn as_int(self) -> int {
        self as int
    }

    open spec fn min_int() -> int {
        u16::MIN as int
    }

    open spec fn max_int() -> int {
        u16::MAX as int
    }

    open spec fn from_int(i: int) -> Self {
        i as u16
    }

    proof fn lemma_from_int(v: Self) {
    }

    proof fn lemma_from_int_in_range(i: int) {
    }

    proof fn lemma_range(v: Self) {
    }

    fn zero() -> (r: Self) {
        0
    }

    fn one() -> (r: Self) {
        1
    }

    fn two() -> (r: Self) {
        2
    }

    fn four() -> (r: Self) {
        4
    }

    fn from_usize_checked(value: usize) -> (r: Option<Self>) {
        if value <= u16::MAX as usize {
            Some(value as u16)
        } else {
            None
        }
    }

    fn get_max(self, b: Self) -> (r: Self) {
        if self > b {
            self
        } else {
            b
        }
    }

    fn get_min(self, b: Self) -> (r: Self) {
        if self < b {
            self
        } else {
            b
        }
    }

    fn saturating_sub(self, rhs: Self) -> (r: Self) {
        u16::saturating_sub(self, rhs)
    }

    fn saturating_add(self, rhs: Self) -> (r: Self) {
        u16::saturating_add(self, rhs)
    }

    fn plus(self, rhs: Self) -> (r: Self) {
        self + rhs
    }

    fn minus(self, rhs: Self) -> (r: Self) {
        self - rhs
    }

    fn times(self, rhs: Self) -> (r: Self) {
        self * rhs
    }

    fn over(self, rhs: Self) -> (r: Self) {
        self / rhs
    }

    fn less_than(self, rhs: Self) -> (r: bool) {
        self < rhs
    }

    fn equals(self, rhs: Self) -> (r: bool) {
        self == rhs
    }

    fn to_i16_saturating(self) -> (r: i16) {
        if self > i16::MAX as u16 {
            i16::MAX
        } else {
            self as i16
        }
    }
}

impl Integer for u16 {

}

impl Num for u32 {
    open spec fn as_int(self) -> int {
        self as int
    }

    open spec fn min_int() -> int {
        u32::MIN as int
    }

    open spec fn max_int() -> int {
        u32::MAX as int
    }

    open spec fn from_int(i: int) -> Self {
        i as u32
    }

    proof fn lemma_from_int(v: Self) {
    }

    proof fn lemma_from_int_in_range(i: int) {
    }

    proof fn lemma_range(v: Self) {
    }

    fn zero() -> (r: Self) {
        0
    }

    fn one() -> (r: Self) {
        1
    }

    fn two() -> (r: Self) {
        2
    }

    fn four() -> (r: Self) {
        4
    }

    fn from_usize_checked(value: usize) -> (r: Option<Self>) {
        if value <= u32::MAX as usize {
            Some(value as u32)
        } else {
            None
        }
    }

    fn get_max(self, b: Self) -> (r: Self) {
        if self > b {
            self
        } else {
            b
        }
    }

    fn get_min(self, b: Self) -> (r: Self) {
        if self < b {
            self
        } else {
            b
        }
    }

    fn saturating_sub(self, rhs: Self) -> (r: Self) {
        u32::saturating_sub(self, rhs)
    }

    fn saturating_add(self, rhs: Self) -> (r: Self) {
        u32::saturating_add(self, rhs)
    }

    fn plus(self, rhs: Self) -> (r: Self) {
        self + rhs
    }

    fn minus(self, rhs: Self) -> (r: Self) {
        self - rhs
    }

    fn times(self, rhs: Self) -> (r: Self) {
        self * rhs
    }

    fn over(self, rhs: Self) -> (r: Self) {
        self / rhs
    }

    fn less_than(self, rhs: Self) -> (r: bool) {
        self < rhs
    }

    fn equals(self, rhs: Self) -> (r: bool) {
        self == rhs
    }

    fn to_i16_saturating(self) -> (r: i16) {
        if self > i16::MAX as u32 {
            i16::MAX
        } else {
            self as i16
        }
    }
}

impl Integer for u32 {

}

impl Num for u64 {
    open spec fn as_int(self) -> int {
        self as int
    }

    open spec fn min_int() -> int {
        u64::MIN as int
    }

    open spec fn max_int() -> int {
        u64::MAX as int
    }

    open spec fn from_int(i: int) -> Self {
        i as u64
    }

    proof fn lemma_from_int(v: Self) {
    }

    proof fn lemma_from_int_in_range(i: int) {
    }

    proof fn lemma_range(v: Self) {
    }

    fn zero() -> (r: Self) {
        0
    }

    fn one() -> (r: Self) {
        1
    }

    fn two() -> (r: Self) {
        2
    }

    fn four() -> (r: Self) {
        4
    }

    fn from_usize_checked(value: usize) -> (r: Option<Self>) {
        if value as u64 <= u64::MAX as u64 {
            Some(value as u64)
        } else {
            None
        }
    }

    fn get_max(self, b: Self) -> (r: Self) {
        if self > b {
            self
        } else {
            b
        }
    }

    fn get_min(self, b: Self) -> (r: Self) {
        if self < b {
            self
        } else {
            b
        }
    }

    fn saturating_sub(self, rhs: Self) -> (r: Self) {
        u64::saturating_sub(self, rhs)
    }

    fn saturating_add(self, rhs: Self) -> (r: Self) {
        u64::saturating_add(self, rhs)
    }

    fn plus(self, rhs: Self) -> (r: Self) {
        self + rhs
    }

    fn minus(self, rhs: Self) -> (r: Self) {
        self - rhs
    }

    fn times(self, rhs: Self) -> (r: Self) {
        self * rhs
    }

    fn over(self, rhs: Self) -> (r: Self) {
        self / rhs
    }

    fn less_than(self, rhs: Self) -> (r: bool) {
        self < rhs
    }

    fn equals(self, rhs: Self) -> (r: bool) {
        self == rhs
    }

    fn to_i16_saturating(self) -> (r: i16) {
        if self > i16::MAX as u64 {
            i16::MAX
        } else {
            self as i16
        }
    }
}

impl Integer for u64 {

}

impl Num for usize {
    open spec fn as_int(self) -> int {
        self as int
    }

    open spec fn min_int() -> int {
        usize::MIN as int
    }

    open spec fn max_int() -> int {
        usize::MAX as int
    }

    open spec fn from_int(i: int) -> Self {
        i as usize
    }

    proof fn lemma_from_int(v: Self) {
    }

    proof fn lemma_from_int_in_range(i: int) {
    }

    proof fn lemma_range(v: Self) {
    }

    fn zero() -> (r: Self) {
        0
    }

    fn one() -> (r: Self) {
        1
    }

    fn two() -> (r: Self) {
        2
    }

    fn four() -> (r: Self) {
        4
    }

    fn from_usize_checked(value: usize) -> (r: Option<Self>) {
        Some(value)
    }

    fn get_max(self, b: Self) -> (r: Self) {
        if self > b {
            self
        } else {
            b
        }
    }

    fn get_min(self, b: Self) -> (r: Self) {
        if self < b {
            self
        } else {
            b
        }
    }

    fn saturating_sub(self, rhs: Self) -> (r: Self) {
        usize::saturating_sub(self, rhs)
    }

    fn saturating_add(self, rhs: Self) -> (r: Self) {
        usize::saturating_add(self, rhs)
    }

    fn plus(self, rhs: Self) -> (r: Self) {
        self + rhs
    }

    fn minus(self, rhs: Self) -> (r: Self) {
        self - rhs
    }

    fn times(self, rhs: Self) -> (r: Self) {
        self * rhs
    }

    fn over(self, rhs: Self) -> (r: Self) {
        self / rhs
    }

    fn less_than(self, rhs: Self) -> (r: bool) {
        self < rhs
    }

    fn equals(self, rhs: Self) -> (r: bool) {
        self == rhs
    }

    fn to_i16_saturating(self) -> (r: i16) {
        if self > i16::MAX as usize {
            i16::MAX
        } else {
            self as i16
        }
    }
}

impl Integer for usize {

}

} // verus!
