use vstd::prelude::*;
use core::marker::PhantomData;
use crate::arena::index::ArenaIndex;

verus! {

/// Handle to a value, or to a run of values, allocated in an arena.
#[derive(Debug)]
pub struct TempID<T, Idx = u32> {
    /// Byte offset in the arena.
    offset: Idx,
    /// Number of items (1 for single values, N for slices).
    len: Idx,
    _phantom: PhantomData<T>,
}

impl<T, Idx: Copy> Clone for TempID<T, Idx> {
    fn clone(&self) -> (r: Self)
        ensures
            r == *self,
    {
        *self
    }
}

impl<T, Idx: Copy> Copy for TempID<T, Idx> {

}

impl<T, Idx: ArenaIndex> TempID<T, Idx> {
    /// Byte offset at which the first item starts.
    pub closed spec fn spec_offset(&self) -> nat {
        self.offset.index_value()
    }

    /// Number of items the handle covers.
    pub closed spec fn spec_len(&self) -> nat {
        self.len.index_value()
    }

    pub(crate) fn new(offset: Idx, len: Idx) -> (r: Self)
        ensures
            r.spec_offset() == offset.index_value(),
            r.spec_len() == len.index_value(),
    {
        Self { offset, len, _phantom: PhantomData }
    }

    /// Byte offset at which the first item starts.
    pub fn offset(&self) -> (r: usize)
        ensures
            r as nat == self.spec_offset(),
    {
        self.offset.to_usize()
    }

    /// Number of items the handle covers.
    pub fn len(&self) -> (r: usize)
        ensures
            r as nat == self.spec_len(),
    {
        self.len.to_usize()
    }
}

} // verus!
