use vstd::prelude::*;
use vstd::layout::{size_of, align_of};
use core::marker::PhantomData;
use crate::arena::error::{TempArenaError, TempArenaResult};
use crate::arena::id::TempID;
use crate::arena::index::ArenaIndex;
use crate::arena::item::ArenaItem;

verus! {

broadcast use {vstd::layout::align_properties, vstd::layout::align_nonzero};

/// `offset` rounded up to the next multiple of `align`.
pub open spec fn align_up(offset: nat, align: nat) -> nat {
    if align == 0 || offset % align == 0 {
        offset
    } else {
        offset + (align - offset % align) as nat
    }
}

/// Where an allocation of values of type `T` starts, given the bytes already used.
pub open spec fn alloc_start<T>(used: nat) -> nat {
    align_up(used, align_of::<T>())
}

/// Aligning never moves an offset down.
pub proof fn lemma_align_up(offset: nat, align: nat)
    ensures
        align_up(offset, align) >= offset,
{
    if align > 0 {
        let r = offset % align;
        assert(0 <= r < align) by (nonlinear_arith)
            requires
                r == offset % align,
                align > 0,
        ;
    }
}

/// Whether `count` values of type `T` fit after `used` bytes in an arena of `capacity` bytes.
pub open spec fn alloc_fits<T>(used: nat, count: nat, capacity: nat) -> bool {
    alloc_start::<T>(used) + size_of::<T>() * count <= capacity
}

/// The error an allocation of `count` values of type `T` fails with when it does not fit.
pub open spec fn out_of_space<T>(used: nat, count: nat, capacity: nat) -> TempArenaError {
    TempArenaError::OutOfSpace {
        requested: (size_of::<T>() * count) as usize,
        available: if alloc_start::<T>(used) <= capacity {
            (capacity - alloc_start::<T>(used)) as usize
        } else {
            0
        },
    }
}

/// First byte of the `i`-th slot of a run of `T` values that starts at `start`.
pub open spec fn slot_start<T>(start: int, i: int) -> int {
    start + size_of::<T>() * i
}

/// The value that the `i`-th slot of a run starting at `start` holds.
pub open spec fn decode_slot<T: ArenaItem>(bytes: Seq<u8>, start: int, i: int) -> T {
    T::spec_from_bytes(
        bytes.subrange(slot_start::<T>(start, i), slot_start::<T>(start, i + 1)),
    )
}

/// The values that a run of `count` slots starting at `start` holds.
pub open spec fn decode_items<T: ArenaItem>(bytes: Seq<u8>, start: int, count: nat) -> Seq<T> {
    Seq::new(count, |i: int| decode_slot::<T>(bytes, start, i))
}

/// `new` equals `old` at every byte outside `lo..hi`.
pub open spec fn same_outside(old: Seq<u8>, new: Seq<u8>, lo: int, hi: int) -> bool {
    &&& new.len() == old.len()
    &&& forall|j: int| 0 <= j < old.len() && !(lo <= j < hi) ==> #[trigger] new[j] == old[j]
}

/// `new` is `old` after handing out more bytes: no fewer bytes are in use, and every
/// byte in use in `old` is unchanged.
pub open spec fn keeps_used(old_used: nat, old: Seq<u8>, new_used: nat, new: Seq<u8>) -> bool {
    &&& old_used <= new_used
    &&& new.len() == old.len()
    &&& forall|j: int| 0 <= j < old_used && j < old.len() ==> #[trigger] new[j] == old[j]
}

/// An allocation changes no byte in use before it: when the bytes only change from `lo`
/// on, at or past the bytes in use, and no fewer bytes are in use after, the bytes in use
/// are kept. Every allocation of `TempArena` ensures this with `lo` its aligned start.
pub proof fn lemma_alloc_keeps_used(old_used: nat, old: Seq<u8>, new_used: nat, new: Seq<u8>, lo: int, hi: int)
    requires
        same_outside(old, new, lo, hi),
        old_used <= lo,
        old_used <= new_used,
    ensures
        keeps_used(old_used, old, new_used, new),
{
}

/// Handing out bytes twice keeps the bytes in use before both.
pub proof fn lemma_keeps_used_trans(u1: nat, b1: Seq<u8>, u2: nat, b2: Seq<u8>, u3: nat, b3: Seq<u8>)
    requires
        keeps_used(u1, b1, u2, b2),
        keeps_used(u2, b2, u3, b3),
    ensures
        keeps_used(u1, b1, u3, b3),
{
}

/// Slots `i < k` lie before slot `k`.
pub proof fn lemma_slot_order<T>(start: int, i: int, k: int)
    requires
        i < k,
    ensures
        slot_start::<T>(start, i + 1) <= slot_start::<T>(start, k),
        slot_start::<T>(start, i) <= slot_start::<T>(start, i + 1),
        slot_start::<T>(start, k) <= slot_start::<T>(start, k + 1),
{
    assert(size_of::<T>() * k <= size_of::<T>() * (k + 1)) by (nonlinear_arith);
    assert(size_of::<T>() * (i + 1) <= size_of::<T>() * k) by (nonlinear_arith)
        requires
            i + 1 <= k,
    ;
    assert(size_of::<T>() * i <= size_of::<T>() * (i + 1)) by (nonlinear_arith);
}

/// A slot whose bytes lie outside a rewritten range keeps its value.
pub proof fn lemma_slot_unchanged<T: ArenaItem>(
    old: Seq<u8>,
    new: Seq<u8>,
    start: int,
    i: int,
    lo: int,
    hi: int,
)
    requires
        same_outside(old, new, lo, hi),
        0 <= slot_start::<T>(start, i),
        slot_start::<T>(start, i + 1) <= old.len(),
        slot_start::<T>(start, i + 1) <= lo || hi <= slot_start::<T>(start, i),
        slot_start::<T>(start, i) <= slot_start::<T>(start, i + 1),
    ensures
        decode_slot::<T>(new, start, i) == decode_slot::<T>(old, start, i),
{
    let a = slot_start::<T>(start, i);
    let b = slot_start::<T>(start, i + 1);
    assert(new.subrange(a, b) =~= old.subrange(a, b));
}

/// Lightweight temporary arena of `LEN` bytes for per-frame allocations.
///
/// Allocation only ever moves forward; there is no way to free or clear. A new arena
/// is made for each scope, so every handle into an old arena becomes useless with it.
pub struct TempArena<const LEN: usize, Idx = u32> {
    data: Vec<u8>,
    offset: usize,
    _marker: PhantomData<Idx>,
}

impl<const LEN: usize, Idx: ArenaIndex> TempArena<LEN, Idx> {
    /// The arena's bytes.
    pub closed spec fn bytes(&self) -> Seq<u8> {
        self.data@
    }

    /// How many bytes have been handed out.
    pub closed spec fn used_bytes(&self) -> nat {
        self.offset as nat
    }

    /// The arena holds exactly `LEN` bytes and has handed out no more than that.
    pub closed spec fn wf(&self) -> bool {
        &&& self.data@.len() == LEN
        &&& self.offset <= LEN
    }

    /// What a well-formed arena's length and use are.
    pub proof fn lemma_wf(&self)
        requires
            self.wf(),
        ensures
            self.bytes().len() == LEN,
            self.used_bytes() <= LEN,
    {
    }

    /// The values of type `T` that a handle designates in this arena.
    pub open spec fn items<T: ArenaItem>(&self, id: TempID<T, Idx>) -> Seq<T> {
        decode_items::<T>(self.bytes(), id.spec_offset() as int, id.spec_len())
    }

    /// Whether the whole run that a handle designates lies inside the arena.
    pub open spec fn holds<T>(&self, id: TempID<T, Idx>) -> bool {
        id.spec_offset() + size_of::<T>() * id.spec_len() <= LEN
    }

    /// Creates an empty arena, with every byte zero.
    pub fn new() -> (r: Self)
        ensures
            r.wf(),
            r.used_bytes() == 0,
            r.bytes() == Seq::new(LEN as nat, |i: int| 0u8),
    {
        let mut data: Vec<u8> = Vec::new();
        let mut i: usize = 0;
        while i < LEN
            invariant
                i <= LEN,
                data@ == Seq::new(i as nat, |k: int| 0u8),
            decreases LEN - i,
        {
            data.push(0u8);
            i = i + 1;
            assert(data@ =~= Seq::new(i as nat, |k: int| 0u8));
        }
        Self { data, offset: 0, _marker: PhantomData }
    }

    /// Bytes handed out so far.
    pub fn used(&self) -> (r: usize)
        ensures
            r as nat == self.used_bytes(),
    {
        self.offset
    }

    /// Bytes not yet handed out.
    pub fn remaining(&self) -> (r: usize)
        requires
            self.wf(),
        ensures
            r == LEN - self.used_bytes(),
    {
        LEN - self.offset
    }

    /// Total capacity in bytes.
    pub fn capacity(&self) -> (r: usize)
        ensures
            r == LEN,
    {
        LEN
    }

    /// Finds where `count` values of type `T` would start, without allocating them.
    fn reserve<T>(&self, count: usize) -> (r: TempArenaResult<usize>)
        requires
            self.wf(),
            size_of::<T>() * count <= usize::MAX,
        ensures
            match r {
                Ok(start) => {
                    &&& start as int == alloc_start::<T>(self.used_bytes())
                    &&& alloc_fits::<T>(self.used_bytes(), count as nat, LEN as nat)
                },
                Err(e) => {
                    &&& !alloc_fits::<T>(self.used_bytes(), count as nat, LEN as nat)
                    &&& e == out_of_space::<T>(self.used_bytes(), count as nat, LEN as nat)
                },
            },
    {
        let size = core::mem::size_of::<T>() * count;
        let align = core::mem::align_of::<T>();
        let rem = self.offset % align;
        let pad = if rem == 0 { 0 } else { align - rem };
        let start = self.offset.checked_add(pad);
        match start {
            None => Err(TempArenaError::OutOfSpace { requested: size, available: 0 }),
            Some(start) => {
                let end = start.checked_add(size);
                match end {
                    Some(end) => {
                        if end > LEN {
                            Err(
                                TempArenaError::OutOfSpace {
                                    requested: size,
                                    available: LEN.saturating_sub(start),
                                },
                            )
                        } else {
                            Ok(start)
                        }
                    },
                    None => Err(
                        TempArenaError::OutOfSpace {
                            requested: size,
                            available: LEN.saturating_sub(start),
                        },
                    ),
                }
            },
        }
    }

    /// Overwrites the bytes at `at..at + bytes.len()`.
    fn write_bytes(&mut self, at: usize, bytes: &Vec<u8>)
        requires
            old(self).wf(),
            at + bytes@.len() <= LEN,
        ensures
            final(self).wf(),
            final(self).used_bytes() == old(self).used_bytes(),
            same_outside(old(self).bytes(), final(self).bytes(), at as int, at + bytes@.len()),
            final(self).bytes().subrange(at as int, at + bytes@.len()) == bytes@,
    {
        let n = bytes.len();
        let mut j: usize = 0;
        while j < n
            invariant
                self.wf(),
                self.used_bytes() == old(self).used_bytes(),
                n == bytes@.len(),
                at + n <= LEN,
                j <= n,
                same_outside(old(self).bytes(), self.bytes(), at as int, at + n),
                forall|k: int| 0 <= k < j ==> #[trigger] self.data@[at + k] == bytes@[k],
            decreases n - j,
        {
            self.data.set(at + j, bytes[j]);
            j = j + 1;
        }
        assert forall|k: int| 0 <= k < n implies #[trigger] self.bytes().subrange(
            at as int,
            at + n,
        )[k] == bytes@[k] by {
            assert(self.data@[at + k] == bytes@[k]);
        }
        assert(self.bytes().subrange(at as int, at + n) =~= bytes@);
    }

    /// Writes `value` into slot `i` of the run starting at `start`.
    pub(crate) fn write_slot<T: ArenaItem>(&mut self, start: usize, i: usize, value: &T)
        requires
            old(self).wf(),
            slot_start::<T>(start as int, i + 1) <= LEN,
        ensures
            final(self).wf(),
            final(self).used_bytes() == old(self).used_bytes(),
            same_outside(
                old(self).bytes(),
                final(self).bytes(),
                slot_start::<T>(start as int, i as int),
                slot_start::<T>(start as int, i + 1),
            ),
            decode_slot::<T>(final(self).bytes(), start as int, i as int) == *value,
    {
        let bytes = value.to_bytes();
        proof {
            T::lemma_bytes_roundtrip(*value);
            assert(slot_start::<T>(start as int, i + 1) == slot_start::<T>(start as int, i as int)
                + size_of::<T>()) by (nonlinear_arith);
        }
        let at = start + core::mem::size_of::<T>() * i;
        self.write_bytes(at, &bytes);
    }

    /// Reads the value in slot `i` of the run starting at `start`.
    pub(crate) fn read_slot<T: ArenaItem>(&self, start: usize, i: usize) -> (r: T)
        requires
            self.wf(),
            slot_start::<T>(start as int, i + 1) <= LEN,
        ensures
            r == decode_slot::<T>(self.bytes(), start as int, i as int),
    {
        proof {
            assert(slot_start::<T>(start as int, i + 1) == slot_start::<T>(start as int, i as int)
                + size_of::<T>()) by (nonlinear_arith);
        }
        let size = core::mem::size_of::<T>();
        let at = start + size * i;
        let bytes = vstd::slice::slice_subrange(self.data.as_slice(), at, at + size);
        T::from_bytes(bytes)
    }

    /// Makes a handle for a run, or fails when the numbers do not fit the index type.
    fn make_id<T>(start: usize, count: usize) -> (r: TempArenaResult<TempID<T, Idx>>)
        ensures
            match r {
                Ok(id) => {
                    &&& id.spec_offset() == start
                    &&& id.spec_len() == count
                    &&& start <= Idx::index_max() && count <= Idx::index_max()
                },
                Err(e) => {
                    &&& e == TempArenaError::IndexConversion
                    &&& !(start <= Idx::index_max() && count <= Idx::index_max())
                },
            },
    {
        let offset = match Idx::try_from_usize(start) {
            Some(o) => o,
            None => return Err(TempArenaError::IndexConversion),
        };
        let len = match Idx::try_from_usize(count) {
            Some(l) => l,
            None => return Err(TempArenaError::IndexConversion),
        };
        Ok(TempID::new(offset, len))
    }

    /// Allocates a single value and returns its handle.
    ///
    /// Fails with `OutOfSpace` when the value does not fit after alignment, and with
    /// `IndexConversion` when its offset does not fit the index type (the bytes are then
    /// written, but not handed out).
    pub fn alloc_value<T: ArenaItem>(&mut self, value: T) -> (r: TempArenaResult<TempID<T, Idx>>)
        requires
            old(self).wf(),
        ensures
            final(self).wf(),
            ({
                let start = alloc_start::<T>(old(self).used_bytes()) as int;
                let fits = alloc_fits::<T>(old(self).used_bytes(), 1, LEN as nat);
                let indexable = start <= Idx::index_max() && 1 <= Idx::index_max();
                match r {
                    Ok(id) => {
                        &&& fits && indexable
                        &&& id.spec_offset() == start && id.spec_len() == 1
                        &&& final(self).used_bytes() == start + size_of::<T>()
                        &&& final(self).items(id) == seq![value]
                        &&& same_outside(old(self).bytes(), final(self).bytes(), start, start + size_of::<T>())
                    },
                    Err(e) => {
                        &&& final(self).used_bytes() == old(self).used_bytes()
                        &&& same_outside(old(self).bytes(), final(self).bytes(), start, start + size_of::<T>())
                        &&& (!fits ==> e == out_of_space::<T>(old(self).used_bytes(), 1, LEN as nat)
                            && final(self).bytes() == old(self).bytes())
                        &&& (fits ==> e == TempArenaError::IndexConversion && !indexable)
                    },
                }
            }),
    {
        let size = core::mem::size_of::<T>();
        proof {
            assert(size_of::<T>() * 1 == size_of::<T>());
        }
        let start = self.reserve::<T>(1)?;
        proof {
            assert(slot_start::<T>(start as int, 1) == start + size_of::<T>());
        }
        self.write_slot(start, 0, &value);
        let id = Self::make_id::<T>(start, 1)?;
        self.offset = start + size;
        proof {
            assert(self.items(id) =~= seq![value]);
        }
        Ok(id)
    }
}


impl<const LEN: usize, Idx: ArenaIndex> TempArena<LEN, Idx> {
    /// Writes `items` into consecutive slots starting at `start`.
    fn write_run<T: ArenaItem>(&mut self, start: usize, items: &[T])
        requires
            old(self).wf(),
            slot_start::<T>(start as int, items@.len() as int) <= LEN,
        ensures
            final(self).wf(),
            final(self).used_bytes() == old(self).used_bytes(),
            same_outside(
                old(self).bytes(),
                final(self).bytes(),
                start as int,
                slot_start::<T>(start as int, items@.len() as int),
            ),
            decode_items::<T>(final(self).bytes(), start as int, items@.len()) == items@,
    {
        let n = items.len();
        let ghost end = slot_start::<T>(start as int, n as int);
        let mut i: usize = 0;
        while i < n
            invariant
                self.wf(),
                self.used_bytes() == old(self).used_bytes(),
                n == items@.len(),
                i <= n,
                end == slot_start::<T>(start as int, n as int),
                end <= LEN,
                same_outside(old(self).bytes(), self.bytes(), start as int, end),
                forall|k: int|
                    0 <= k < i ==> #[trigger] decode_slot::<T>(self.bytes(), start as int, k)
                        == items@[k],
            decreases n - i,
        {
            proof {
                lemma_slot_order::<T>(start as int, i as int, n as int);
                assert(0 <= size_of::<T>() * i) by (nonlinear_arith);
            }
            let ghost before = self.bytes();
            self.write_slot(start, i, &items[i]);
            proof {
                assert forall|k: int| 0 <= k < i + 1 implies #[trigger] decode_slot::<T>(
                    self.bytes(),
                    start as int,
                    k,
                ) == items@[k] by {
                    if k < i {
                        lemma_slot_order::<T>(start as int, k, i as int);
                        assert(0 <= size_of::<T>() * k) by (nonlinear_arith)
                            requires
                                0 <= k,
                        ;
                        lemma_slot_unchanged::<T>(
                            before,
                            self.bytes(),
                            start as int,
                            k,
                            slot_start::<T>(start as int, i as int),
                            slot_start::<T>(start as int, i + 1),
                        );
                    }
                }
            }
            i = i + 1;
        }
        assert(decode_items::<T>(self.bytes(), start as int, n as nat) =~= items@);
    }

    /// Allocates `items.len()` consecutive values, copied from `items`, and returns the
    /// handle of the run.
    ///
    /// Fails as `alloc_value` does; on success the run holds exactly `items`.
    pub fn alloc_slice_from_iter<T: ArenaItem>(&mut self, items: &[T]) -> (r: TempArenaResult<
        TempID<T, Idx>,
    >)
        requires
            old(self).wf(),
            size_of::<T>() * items@.len() <= usize::MAX,
        ensures
            final(self).wf(),
            ({
                let n = items@.len();
                let start = alloc_start::<T>(old(self).used_bytes()) as int;
                let fits = alloc_fits::<T>(old(self).used_bytes(), n, LEN as nat);
                let indexable = start <= Idx::index_max() && n <= Idx::index_max();
                match r {
                    Ok(id) => {
                        &&& fits && indexable
                        &&& id.spec_offset() == start && id.spec_len() == n
                        &&& final(self).used_bytes() == start + size_of::<T>() * n
                        &&& final(self).items(id) == items@
                        &&& same_outside(old(self).bytes(), final(self).bytes(), start, start + size_of::<T>() * n)
                    },
                    Err(e) => {
                        &&& final(self).used_bytes() == old(self).used_bytes()
                        &&& same_outside(old(self).bytes(), final(self).bytes(), start, start + size_of::<T>() * n)
                        &&& (!fits ==> e == out_of_space::<T>(old(self).used_bytes(), n, LEN as nat)
                            && final(self).bytes() == old(self).bytes())
                        &&& (fits ==> e == TempArenaError::IndexConversion && !indexable)
                    },
                }
            }),
    {
        let n = items.len();
        let size = core::mem::size_of::<T>();
        let start = self.reserve::<T>(n)?;
        self.write_run(start, items);
        let id = Self::make_id::<T>(start, n)?;
        self.offset = start + size * n;
        Ok(id)
    }

    /// Allocates `len` values, the `i`-th one made by `f(i)`, and returns the handle of
    /// the run.
    ///
    /// Fails as `alloc_value` does; `f` is called only once the run is known to fit.
    pub fn alloc_slice_from_fn<T: ArenaItem, F: Fn(usize) -> T>(
        &mut self,
        len: usize,
        f: F,
    ) -> (r: TempArenaResult<TempID<T, Idx>>)
        requires
            old(self).wf(),
            size_of::<T>() * len <= usize::MAX,
            forall|i: usize| i < len ==> #[trigger] f.requires((i,)),
        ensures
            final(self).wf(),
            ({
                let start = alloc_start::<T>(old(self).used_bytes()) as int;
                let fits = alloc_fits::<T>(old(self).used_bytes(), len as nat, LEN as nat);
                let indexable = start <= Idx::index_max() && len <= Idx::index_max();
                match r {
                    Ok(id) => {
                        &&& fits && indexable
                        &&& id.spec_offset() == start && id.spec_len() == len
                        &&& final(self).used_bytes() == start + size_of::<T>() * len
                        &&& forall|i: int| 0 <= i < len ==> f.ensures(((i as usize),), #[trigger] final(self).items(id)[i])
                        &&& final(self).items(id).len() == len
                        &&& same_outside(old(self).bytes(), final(self).bytes(), start, start + size_of::<T>() * len)
                    },
                    Err(e) => {
                        &&& final(self).used_bytes() == old(self).used_bytes()
                        &&& same_outside(old(self).bytes(), final(self).bytes(), start, start + size_of::<T>() * len)
                        &&& (!fits ==> e == out_of_space::<T>(old(self).used_bytes(), len as nat, LEN as nat)
                            && final(self).bytes() == old(self).bytes())
                        &&& (fits ==> e == TempArenaError::IndexConversion && !indexable)
                    },
                }
            }),
    {
        let size = core::mem::size_of::<T>();
        let start = self.reserve::<T>(len)?;
        let mut values: Vec<T> = Vec::new();
        let mut i: usize = 0;
        while i < len
            invariant
                i <= len,
                values@.len() == i,
                forall|k: usize| k < len ==> #[trigger] f.requires((k,)),
                forall|k: int| 0 <= k < i ==> f.ensures(((k as usize),), #[trigger] values@[k]),
            decreases len - i,
        {
            let v = f(i);
            values.push(v);
            i = i + 1;
        }
        self.write_run(start, values.as_slice());
        let id = Self::make_id::<T>(start, len)?;
        self.offset = start + size * len;
        Ok(id)
    }

    /// Allocates `len` values equal to `T::default()` and returns the handle of the run.
    pub fn alloc_slice<T: ArenaItem + Default>(&mut self, len: usize) -> (r: TempArenaResult<
        TempID<T, Idx>,
    >)
        requires
            old(self).wf(),
            size_of::<T>() * len <= usize::MAX,
        ensures
            final(self).wf(),
            ({
                let start = alloc_start::<T>(old(self).used_bytes()) as int;
                let fits = alloc_fits::<T>(old(self).used_bytes(), len as nat, LEN as nat);
                let indexable = start <= Idx::index_max() && len <= Idx::index_max();
                match r {
                    Ok(id) => {
                        &&& fits && indexable
                        &&& id.spec_offset() == start && id.spec_len() == len
                        &&& final(self).used_bytes() == start + size_of::<T>() * len
                        &&& same_outside(old(self).bytes(), final(self).bytes(), start, start + size_of::<T>() * len)
                    },
                    Err(e) => {
                        &&& final(self).used_bytes() == old(self).used_bytes()
                        &&& same_outside(old(self).bytes(), final(self).bytes(), start, start + size_of::<T>() * len)
                        &&& (!fits ==> e == out_of_space::<T>(old(self).used_bytes(), len as nat, LEN as nat)
                            && final(self).bytes() == old(self).bytes())
                        &&& (fits ==> e == TempArenaError::IndexConversion && !indexable)
                    },
                }
            }),
    {
        let size = core::mem::size_of::<T>();
        let start = self.reserve::<T>(len)?;
        let mut values: Vec<T> = Vec::new();
        let mut i: usize = 0;
        while i < len
            invariant
                i <= len,
                values@.len() == i,
            decreases len - i,
        {
            values.push(T::default());
            i = i + 1;
        }
        self.write_run(start, values.as_slice());
        let id = Self::make_id::<T>(start, len)?;
        self.offset = start + size * len;
        Ok(id)
    }
}


impl<const LEN: usize, Idx: ArenaIndex> TempArena<LEN, Idx> {
    /// Whether the run a handle designates lies inside the arena.
    pub fn fits<T>(&self, id: TempID<T, Idx>) -> (r: bool)
        ensures
            r == self.holds(id),
    {
        let size = core::mem::size_of::<T>();
        match size.checked_mul(id.len()) {
            None => {
                proof {
                    assert(size_of::<T>() * id.spec_len() > usize::MAX);
                }
                false
            },
            Some(bytes) => match id.offset().checked_add(bytes) {
                None => false,
                Some(end) => end <= LEN,
            },
        }
    }

    /// Reads the single value a handle designates, or `None` when it would lie
    /// outside the arena.
    pub fn get<T: ArenaItem>(&self, id: TempID<T, Idx>) -> (r: Option<T>)
        requires
            self.wf(),
        ensures
            r is Some <==> id.spec_offset() + size_of::<T>() <= LEN,
            r matches Some(v) ==> v == decode_slot::<T>(self.bytes(), id.spec_offset() as int, 0),
    {
        let size = core::mem::size_of::<T>();
        match id.offset().checked_add(size) {
            None => None,
            Some(end) => {
                if end > LEN {
                    None
                } else {
                    proof {
                        assert(slot_start::<T>(id.spec_offset() as int, 1) == id.spec_offset()
                            + size_of::<T>());
                    }
                    Some(self.read_slot::<T>(id.offset(), 0))
                }
            },
        }
    }

    /// Overwrites the single value a handle designates; `None` when it would lie
    /// outside the arena, which is then left unchanged.
    pub fn set<T: ArenaItem>(&mut self, id: TempID<T, Idx>, value: T) -> (r: Option<()>)
        requires
            old(self).wf(),
        ensures
            final(self).wf(),
            final(self).used_bytes() == old(self).used_bytes(),
            r is Some <==> id.spec_offset() + size_of::<T>() <= LEN,
            r is None ==> final(self).bytes() == old(self).bytes(),
            r is Some ==> {
                &&& decode_slot::<T>(final(self).bytes(), id.spec_offset() as int, 0) == value
                &&& same_outside(
                    old(self).bytes(),
                    final(self).bytes(),
                    id.spec_offset() as int,
                    (id.spec_offset() + size_of::<T>()) as int,
                )
            },
    {
        let size = core::mem::size_of::<T>();
        match id.offset().checked_add(size) {
            None => None,
            Some(end) => {
                if end > LEN {
                    None
                } else {
                    proof {
                        assert(slot_start::<T>(id.spec_offset() as int, 1) == id.spec_offset()
                            + size_of::<T>());
                        assert(slot_start::<T>(id.spec_offset() as int, 0) == id.spec_offset());
                    }
                    self.write_slot::<T>(id.offset(), 0, &value);
                    Some(())
                }
            },
        }
    }

    /// Overwrites value `index` of the run a handle designates; `None` when the run would
    /// lie outside the arena, which is then left unchanged.
    pub fn set_slice_item<T: ArenaItem>(&mut self, id: TempID<T, Idx>, index: usize, value: T) -> (r:
        Option<()>)
        requires
            old(self).wf(),
            index < id.spec_len(),
        ensures
            final(self).wf(),
            final(self).used_bytes() == old(self).used_bytes(),
            r is Some <==> old(self).holds(id),
            r is None ==> final(self).bytes() == old(self).bytes(),
            r is Some ==> {
                &&& final(self).items(id) == old(self).items(id).update(index as int, value)
                &&& same_outside(
                    old(self).bytes(),
                    final(self).bytes(),
                    slot_start::<T>(id.spec_offset() as int, index as int),
                    slot_start::<T>(id.spec_offset() as int, index + 1),
                )
            },
    {
        if !self.fits(id) {
            return None;
        }
        let ghost off = id.spec_offset() as int;
        let ghost n = id.spec_len() as int;
        let ghost before = self.bytes();
        proof {
            assert(size_of::<T>() * (index + 1) <= size_of::<T>() * n) by (nonlinear_arith)
                requires
                    index + 1 <= n,
            ;
        }
        self.write_slot(id.offset(), index, &value);
        proof {
            let lo = slot_start::<T>(off, index as int);
            let hi = slot_start::<T>(off, index + 1);
            assert forall|k: int| 0 <= k < n implies #[trigger] self.items(id)[k] == decode_items::<T>(
                before,
                off,
                n as nat,
            ).update(index as int, value)[k] by {
                if k != index {
                    if k < index {
                        lemma_slot_order::<T>(off, k, index as int);
                    } else {
                        lemma_slot_order::<T>(off, index as int, k);
                    }
                    assert(size_of::<T>() * (k + 1) <= size_of::<T>() * n) by (nonlinear_arith)
                        requires
                            k + 1 <= n,
                    ;
                    assert(0 <= size_of::<T>() * k) by (nonlinear_arith)
                        requires
                            0 <= k,
                    ;
                    lemma_slot_unchanged::<T>(before, self.bytes(), off, k, lo, hi);
                }
            }
            assert(self.items(id) =~= decode_items::<T>(before, off, n as nat).update(index as int, value));
        }
        Some(())
    }

    /// Reads the first `count` values of the run a handle designates.
    pub(crate) fn read_run<T: ArenaItem>(&self, id: TempID<T, Idx>, count: usize) -> (r: Vec<T>)
        requires
            self.wf(),
            self.holds(id),
            count <= id.spec_len(),
        ensures
            r@ == decode_items::<T>(self.bytes(), id.spec_offset() as int, count as nat),
    {
        let start = id.offset();
        let mut out: Vec<T> = Vec::new();
        let mut i: usize = 0;
        while i < count
            invariant
                self.wf(),
                self.holds(id),
                start == id.spec_offset(),
                count <= id.spec_len(),
                i <= count,
                out@ == decode_items::<T>(self.bytes(), start as int, i as nat),
            decreases count - i,
        {
            proof {
                assert(size_of::<T>() * (i + 1) <= size_of::<T>() * id.spec_len()) by (nonlinear_arith)
                    requires
                        i + 1 <= id.spec_len(),
                ;
            }
            let v = self.read_slot::<T>(start, i);
            out.push(v);
            i = i + 1;
            assert(out@ =~= decode_items::<T>(self.bytes(), start as int, i as nat));
        }
        out
    }

    /// Reads every value of the run a handle designates, or `None` when the run would
    /// lie outside the arena.
    pub fn get_slice<T: ArenaItem>(&self, id: TempID<T, Idx>) -> (r: Option<Vec<T>>)
        requires
            self.wf(),
        ensures
            r is Some <==> self.holds(id),
            r matches Some(v) ==> v@ == self.items(id),
    {
        if self.fits(id) {
            Some(self.read_run(id, id.len()))
        } else {
            None
        }
    }

    /// The bytes of a run of `u8` values, borrowed from the arena, or `None` when the run
    /// would lie outside the arena.
    pub fn get_bytes(&self, id: TempID<u8, Idx>) -> (r: Option<&[u8]>)
        requires
            self.wf(),
        ensures
            r is Some <==> self.holds(id),
            r matches Some(b) ==> b@ == self.bytes().subrange(
                id.spec_offset() as int,
                (id.spec_offset() + id.spec_len()) as int,
            ),
    {
        broadcast use vstd::layout::layout_of_primitives;

        if self.fits(id) {
            let start = id.offset();
            Some(vstd::slice::slice_subrange(self.data.as_slice(), start, start + id.len()))
        } else {
            None
        }
    }
}

} // verus!
