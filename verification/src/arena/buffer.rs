use vstd::prelude::*;
use vstd::layout::size_of;
use crate::arena::error::{TempArenaError, TempArenaResult};
use crate::arena::id::TempID;
use crate::arena::index::ArenaIndex;
use crate::arena::item::ArenaItem;
use crate::arena::temp_arena::{
    TempArena, alloc_fits, alloc_start, decode_items, decode_slot, lemma_slot_order,
    lemma_slot_unchanged, out_of_space, same_outside, slot_start,
};

verus! {

/// A growable buffer with fixed capacity, allocated from a `TempArena`.
///
/// The whole capacity is allocated up front; the buffer only counts how many items have
/// been pushed. Popping decrements the count and leaves the bytes in place, so pushing
/// again reuses them. The handle is `Copy`: copies designate the same items.
#[derive(Debug, Clone, Copy)]
pub struct TempBuffer<T, Idx: Copy = u32> {
    slice_id: TempID<T, Idx>,
    len: usize,
}

impl<T: ArenaItem, Idx: ArenaIndex> TempBuffer<T, Idx> {
    /// The run of slots that the buffer owns.
    pub closed spec fn run(&self) -> TempID<T, Idx> {
        self.slice_id
    }

    /// Number of pushed items.
    pub closed spec fn spec_len(&self) -> nat {
        self.len as nat
    }

    /// Number of slots.
    pub open spec fn spec_capacity(&self) -> nat {
        self.run().spec_len()
    }

    /// The buffer never counts more items than it has slots.
    pub open spec fn wf(&self) -> bool {
        self.spec_len() <= self.spec_capacity()
    }

    /// The pushed items, as they stand in `arena`.
    pub open spec fn items<const LEN: usize>(&self, arena: &TempArena<LEN, Idx>) -> Seq<T> {
        decode_items::<T>(arena.bytes(), self.run().spec_offset() as int, self.spec_len())
    }

    /// Bytes of the arena that slot `i` of the buffer occupies start here.
    pub open spec fn slot_begin(&self, i: int) -> int {
        slot_start::<T>(self.run().spec_offset() as int, i)
    }

    /// Creates a buffer with room for `capacity` items, every slot holding
    /// `T::default()`, and no pushed item.
    pub fn with_capacity<const LEN: usize>(
        arena: &mut TempArena<LEN, Idx>,
        capacity: usize,
    ) -> (r: TempArenaResult<Self>) where T: Default
        requires
            old(arena).wf(),
            size_of::<T>() * capacity <= usize::MAX,
        ensures
            final(arena).wf(),
            ({
                let start = alloc_start::<T>(old(arena).used_bytes()) as int;
                let fits = alloc_fits::<T>(old(arena).used_bytes(), capacity as nat, LEN as nat);
                let indexable = start <= Idx::index_max() && capacity <= Idx::index_max();
                match r {
                    Ok(b) => {
                        &&& fits && indexable
                        &&& b.wf()
                        &&& b.spec_len() == 0 && b.spec_capacity() == capacity
                        &&& b.run().spec_offset() == start
                        &&& final(arena).holds(b.run())
                        &&& final(arena).used_bytes() == start + size_of::<T>() * capacity
                        &&& same_outside(old(arena).bytes(), final(arena).bytes(), start, start + size_of::<T>() * capacity)
                    },
                    Err(e) => {
                        &&& final(arena).used_bytes() == old(arena).used_bytes()
                        &&& (!fits ==> e == out_of_space::<T>(old(arena).used_bytes(), capacity as nat, LEN as nat))
                        &&& (fits ==> e == TempArenaError::IndexConversion && !indexable)
                    },
                }
            }),
    {
        let slice_id = arena.alloc_slice::<T>(capacity)?;
        Ok(Self { slice_id, len: 0 })
    }

    /// Creates a full buffer holding a copy of `items` (capacity = `items.len()`).
    pub fn from_iter<const LEN: usize>(arena: &mut TempArena<LEN, Idx>, items: &[T]) -> (r:
        TempArenaResult<Self>)
        requires
            old(arena).wf(),
            size_of::<T>() * items@.len() <= usize::MAX,
        ensures
            final(arena).wf(),
            ({
                let n = items@.len();
                let start = alloc_start::<T>(old(arena).used_bytes()) as int;
                let fits = alloc_fits::<T>(old(arena).used_bytes(), n, LEN as nat);
                let indexable = start <= Idx::index_max() && n <= Idx::index_max();
                match r {
                    Ok(b) => {
                        &&& fits && indexable
                        &&& b.wf()
                        &&& b.spec_len() == n && b.spec_capacity() == n
                        &&& b.run().spec_offset() == start
                        &&& final(arena).holds(b.run())
                        &&& b.items(final(arena)) == items@
                        &&& final(arena).used_bytes() == start + size_of::<T>() * n
                        &&& same_outside(old(arena).bytes(), final(arena).bytes(), start, start + size_of::<T>() * n)
                    },
                    Err(e) => {
                        &&& final(arena).used_bytes() == old(arena).used_bytes()
                        &&& (!fits ==> e == out_of_space::<T>(old(arena).used_bytes(), n, LEN as nat))
                        &&& (fits ==> e == TempArenaError::IndexConversion && !indexable)
                    },
                }
            }),
    {
        let slice_id = arena.alloc_slice_from_iter(items)?;
        Ok(Self { slice_id, len: items.len() })
    }

    /// Creates a full buffer of `len` items, the `i`-th one made by `f(i)`.
    pub fn from_fn<const LEN: usize, F: Fn(usize) -> T>(
        arena: &mut TempArena<LEN, Idx>,
        len: usize,
        f: F,
    ) -> (r: TempArenaResult<Self>)
        requires
            old(arena).wf(),
            size_of::<T>() * len <= usize::MAX,
            forall|i: usize| i < len ==> #[trigger] f.requires((i,)),
        ensures
            final(arena).wf(),
            ({
                let start = alloc_start::<T>(old(arena).used_bytes()) as int;
                let fits = alloc_fits::<T>(old(arena).used_bytes(), len as nat, LEN as nat);
                let indexable = start <= Idx::index_max() && len <= Idx::index_max();
                match r {
                    Ok(b) => {
                        &&& fits && indexable
                        &&& b.wf()
                        &&& b.spec_len() == len && b.spec_capacity() == len
                        &&& b.run().spec_offset() == start
                        &&& final(arena).holds(b.run())
                        &&& b.items(final(arena)).len() == len
                        &&& forall|i: int| 0 <= i < len ==> f.ensures(((i as usize),), #[trigger] b.items(final(arena))[i])
                        &&& final(arena).used_bytes() == start + size_of::<T>() * len
                        &&& same_outside(old(arena).bytes(), final(arena).bytes(), start, start + size_of::<T>() * len)
                    },
                    Err(e) => {
                        &&& final(arena).used_bytes() == old(arena).used_bytes()
                        &&& (!fits ==> e == out_of_space::<T>(old(arena).used_bytes(), len as nat, LEN as nat))
                        &&& (fits ==> e == TempArenaError::IndexConversion && !indexable)
                    },
                }
            }),
    {
        let slice_id = arena.alloc_slice_from_fn(len, f)?;
        Ok(Self { slice_id, len })
    }

    /// Number of pushed items.
    pub fn len(&self) -> (r: usize)
        ensures
            r == self.spec_len(),
    {
        self.len
    }

    /// Number of slots.
    pub fn capacity(&self) -> (r: usize)
        ensures
            r == self.spec_capacity(),
    {
        self.slice_id.len()
    }

    /// Whether no item is pushed.
    pub fn is_empty(&self) -> (r: bool)
        ensures
            r == (self.spec_len() == 0),
    {
        self.len == 0
    }

    /// Whether every slot holds a pushed item (a zero-capacity buffer is always full).
    pub fn is_full(&self) -> (r: bool)
        ensures
            r == (self.spec_len() >= self.spec_capacity()),
    {
        self.len >= self.capacity()
    }

    /// Number of free slots.
    pub fn remaining(&self) -> (r: usize)
        requires
            self.wf(),
        ensures
            r == self.spec_capacity() - self.spec_len(),
    {
        self.capacity() - self.len
    }

    /// Forgets every pushed item; the slots keep their bytes until overwritten.
    pub fn clear(&mut self)
        ensures
            final(self).spec_len() == 0,
            final(self).run() == old(self).run(),
    {
        self.len = 0;
    }

    /// Appends `item`.
    ///
    /// Fails with `BufferFull` when every slot is taken, and with `InvalidBounds` when
    /// the buffer's slots do not lie inside `arena`; both leave everything unchanged.
    pub fn push<const LEN: usize>(&mut self, arena: &mut TempArena<LEN, Idx>, item: T) -> (r:
        TempArenaResult<()>)
        requires
            old(self).wf(),
            old(arena).wf(),
        ensures
            final(self).wf(),
            final(arena).wf(),
            final(self).run() == old(self).run(),
            final(arena).used_bytes() == old(arena).used_bytes(),
            old(self).spec_len() >= old(self).spec_capacity() ==> r == Err::<(), TempArenaError>(
                TempArenaError::BufferFull,
            ),
            old(self).spec_len() < old(self).spec_capacity() && !old(arena).holds(old(self).run())
                ==> r == Err::<(), TempArenaError>(TempArenaError::InvalidBounds),
            r is Err ==> *final(self) == *old(self) && final(arena).bytes() == old(arena).bytes(),
            r is Ok <==> old(self).spec_len() < old(self).spec_capacity() && old(arena).holds(old(self).run()),
            r is Ok ==> {
                &&& final(self).spec_len() == old(self).spec_len() + 1
                &&& final(self).items(final(arena)) == old(self).items(old(arena)).push(item)
                &&& same_outside(
                    old(arena).bytes(),
                    final(arena).bytes(),
                    old(self).slot_begin(old(self).spec_len() as int),
                    old(self).slot_begin(old(self).spec_len() as int + 1),
                )
            },
    {
        if self.len >= self.capacity() {
            return Err(TempArenaError::BufferFull);
        }
        if !arena.fits(self.slice_id) {
            return Err(TempArenaError::InvalidBounds);
        }
        let ghost before = arena.bytes();
        proof {
            arena.lemma_wf();
        }
        let ghost start = self.slice_id.spec_offset() as int;
        let ghost n = self.len as int;
        proof {
            assert(size_of::<T>() * (n + 1) <= size_of::<T>() * self.spec_capacity()) by (nonlinear_arith)
                requires
                    n + 1 <= self.spec_capacity(),
            ;
        }
        arena.write_slot(self.slice_id.offset(), self.len, &item);
        self.len = self.len + 1;
        proof {
            assert forall|k: int| 0 <= k < n implies #[trigger] decode_slot::<T>(arena.bytes(), start, k)
                == decode_slot::<T>(before, start, k) by {
                lemma_slot_order::<T>(start, k, n);
                assert(0 <= size_of::<T>() * k) by (nonlinear_arith)
                    requires
                        0 <= k,
                ;
                lemma_slot_unchanged::<T>(
                    before,
                    arena.bytes(),
                    start,
                    k,
                    slot_start::<T>(start, n),
                    slot_start::<T>(start, n + 1),
                );
            }
            assert(self.items(arena) =~= old(self).items(old(arena)).push(item));
        }
        Ok(())
    }

    /// Removes and returns the last pushed item; its bytes stay in place.
    ///
    /// `None` when the buffer is empty or its slots do not lie inside `arena`; the
    /// buffer is then unchanged.
    pub fn pop<const LEN: usize>(&mut self, arena: &TempArena<LEN, Idx>) -> (r: Option<T>)
        requires
            old(self).wf(),
            arena.wf(),
        ensures
            final(self).wf(),
            final(self).run() == old(self).run(),
            r is Some <==> old(self).spec_len() > 0 && arena.holds(old(self).run()),
            r is None ==> *final(self) == *old(self),
            r matches Some(v) ==> {
                &&& final(self).spec_len() == old(self).spec_len() - 1
                &&& v == old(self).items(arena).last()
                &&& final(self).items(arena) == old(self).items(arena).drop_last()
            },
    {
        if self.len == 0 {
            return None;
        }
        if !arena.fits(self.slice_id) {
            return None;
        }
        self.len = self.len - 1;
        proof {
            let n = self.len as int;
            assert(size_of::<T>() * (n + 1) <= size_of::<T>() * self.spec_capacity()) by (nonlinear_arith)
                requires
                    n + 1 <= self.spec_capacity(),
            ;
            assert(self.items(arena) =~= old(self).items(arena).drop_last());
        }
        Some(arena.read_slot(self.slice_id.offset(), self.len))
    }

    /// The pushed items, copied out of `arena`; `None` when the buffer's slots do not
    /// lie inside `arena`.
    pub fn as_slice<const LEN: usize>(&self, arena: &TempArena<LEN, Idx>) -> (r: Option<Vec<T>>)
        requires
            self.wf(),
            arena.wf(),
        ensures
            r is Some <==> arena.holds(self.run()),
            r matches Some(v) ==> v@ == self.items(arena),
    {
        if !arena.fits(self.slice_id) {
            return None;
        }
        Some(arena.read_run(self.slice_id, self.len))
    }

    /// The pushed item at `index`; `None` when `index` is past the pushed items or the
    /// buffer's slots do not lie inside `arena`.
    pub fn get<const LEN: usize>(&self, arena: &TempArena<LEN, Idx>, index: usize) -> (r: Option<T>)
        requires
            self.wf(),
            arena.wf(),
        ensures
            r is Some <==> index < self.spec_len() && arena.holds(self.run()),
            r matches Some(v) ==> v == self.items(arena)[index as int],
    {
        if index >= self.len {
            return None;
        }
        if !arena.fits(self.slice_id) {
            return None;
        }
        proof {
            assert(size_of::<T>() * (index + 1) <= size_of::<T>() * self.spec_capacity()) by (nonlinear_arith)
                requires
                    index + 1 <= self.spec_capacity(),
            ;
        }
        Some(arena.read_slot(self.slice_id.offset(), index))
    }

    /// Overwrites the pushed item at `index`; `None`, with nothing changed, when `index`
    /// is past the pushed items or the buffer's slots do not lie inside `arena`.
    pub fn set<const LEN: usize>(&self, arena: &mut TempArena<LEN, Idx>, index: usize, value: T) -> (r:
        Option<()>)
        requires
            self.wf(),
            old(arena).wf(),
        ensures
            final(arena).wf(),
            final(arena).used_bytes() == old(arena).used_bytes(),
            r is Some <==> index < self.spec_len() && old(arena).holds(self.run()),
            r is None ==> final(arena).bytes() == old(arena).bytes(),
            r is Some ==> {
                &&& self.items(final(arena)) == self.items(old(arena)).update(index as int, value)
                &&& same_outside(
                    old(arena).bytes(),
                    final(arena).bytes(),
                    self.slot_begin(index as int),
                    self.slot_begin(index + 1),
                )
            },
    {
        if index >= self.len {
            return None;
        }
        if !arena.fits(self.slice_id) {
            return None;
        }
        let ghost before = arena.bytes();
        proof {
            arena.lemma_wf();
        }
        let ghost start = self.slice_id.spec_offset() as int;
        let ghost n = self.len as int;
        proof {
            assert(size_of::<T>() * (index + 1) <= size_of::<T>() * self.spec_capacity()) by (nonlinear_arith)
                requires
                    index + 1 <= self.spec_capacity(),
            ;
        }
        arena.write_slot(self.slice_id.offset(), index, &value);
        proof {
            assert forall|k: int| 0 <= k < n && k != index implies #[trigger] decode_slot::<T>(
                arena.bytes(),
                start,
                k,
            ) == decode_slot::<T>(before, start, k) by {
                assert(0 <= size_of::<T>() * k) by (nonlinear_arith)
                    requires
                        0 <= k,
                ;
                if k < index {
                    lemma_slot_order::<T>(start, k, index as int);
                } else {
                    lemma_slot_order::<T>(start, index as int, k);
                    lemma_slot_order::<T>(start, k, k + 1);
                    assert(size_of::<T>() * (k + 1) <= size_of::<T>() * self.spec_capacity()) by (nonlinear_arith)
                        requires
                            k + 1 <= self.spec_capacity(),
                    ;
                }
                lemma_slot_unchanged::<T>(
                    before,
                    arena.bytes(),
                    start,
                    k,
                    slot_start::<T>(start, index as int),
                    slot_start::<T>(start, index + 1),
                );
            }
            assert(self.items(arena) =~= self.items(old(arena)).update(index as int, value));
        }
        Some(())
    }
}

} // verus!
