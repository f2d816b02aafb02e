use vstd::prelude::*;

verus! {

/// Integer types that can record offsets and lengths inside an arena.
///
/// A smaller index type makes handles smaller, at the cost of limiting how far into
/// the arena a handle can point.
pub trait ArenaIndex: Copy + Sized {
    /// The number that this index stands for.
    spec fn index_value(self) -> nat;

    /// The largest number that this index type can hold.
    spec fn index_max() -> nat;

    /// Widens the index to a `usize`.
    fn to_usize(self) -> (r: usize)
        ensures
            r as nat == self.index_value(),
    ;

    /// Narrows a `usize` to this index type, or `None` when it does not fit.
    fn try_from_usize(value: usize) -> (r: Option<Self>)
        ensures
            r is Some <==> value as nat <= Self::index_max(),
            r matches Some(i) ==> i.index_value() == value as nat,
    ;
}

impl ArenaIndex for u8 {
    open spec fn index_value(self) -> nat {
        self as nat
    }

    open spec fn index_max() -> nat {
        u8::MAX as nat
    }

    fn to_usize(self) -> (r: usize) {
        self as usize
    }

    fn try_from_usize(value: usize) -> (r: Option<Self>) {
        if value <= u8::MAX as usize {
            Some(value as u8)
        } else {
            None
        }
    }
}

impl ArenaIndex for u16 {
    open spec fn index_value(self) -> nat {
        self as nat
    }

    open spec fn index_max() -> nat {
        u16::MAX as nat
    }

    fn to_usize(self) -> (r: usize) {
        self as usize
    }

    fn try_from_usize(value: usize) -> (r: Option<Self>) {
        if value <= u16::MAX as usize {
            Some(value as u16)
        } else {
            None
        }
    }
}

impl ArenaIndex for u32 {
    open spec fn index_value(self) -> nat {
        self as nat
    }

    open spec fn index_max() -> nat {
        u32::MAX as nat
    }

    fn to_usize(self) -> (r: usize) {
        proof {
            assert(usize::BITS == 32 || usize::BITS == 64);
        }
        self as usize
    }

    fn try_from_usize(value: usize) -> (r: Option<Self>) {
        if value as u64 <= u32::MAX as u64 {
            Some(value as u32)
        } else {
            None
        }
    }
}

impl ArenaIndex for usize {
    open spec fn index_value(self) -> nat {
        self as nat
    }

    open spec fn index_max() -> nat {
        usize::MAX as nat
    }

    fn to_usize(self) -> (r: usize) {
        self
    }

    fn try_from_usize(value: usize) -> (r: Option<Self>) {
        Some(value)
    }
}

} // verus!
