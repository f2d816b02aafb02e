use vstd::prelude::*;
use crate::video::tile::{Tile, TileID};
use crate::video::consts::TILE_COUNT;

verus! {

/// Storage for up to 256 tiles and the count of tiles in use.
#[derive(Debug, Clone)]
pub struct TileBank {
    pub tiles: [Tile<2>; TILE_COUNT],
    pub(crate) head: u8,
}

impl TileBank {
    /// The number of tiles in use.
    pub closed spec fn count_spec(self) -> int {
        self.head as int
    }

    /// The stored tiles.
    pub closed spec fn tiles_spec(self) -> Seq<Tile<2>> {
        self.tiles@
    }

    /// The count is a byte and there are always 256 stored tiles.
    pub proof fn lemma_bounds(self)
        ensures
            0 <= self.count_spec() <= 255,
            self.tiles_spec().len() == 256,
    {
    }

    /// Inside the crate, the count and the stored tiles are the fields.
    pub(crate) proof fn lemma_fields(self)
        ensures
            self.count_spec() == self.head as int,
            self.tiles_spec() == self.tiles@,
    {
    }

    /// An empty bank: every tile is blank and none is in use.
    pub fn new() -> (r: Self)
        ensures
            r.count_spec() == 0,
            r.tiles_spec().len() == 256,
            forall|k: int, x: int, y: int|
                0 <= k < 256 && 0 <= x < 8 && 0 <= y < 8 ==> #[trigger] r.tiles_spec()[k].pixel(
                    x,
                    y,
                ) == 0,
    {
        let blank = Tile::<2>::blank();
        let r = Self { tiles: [blank; TILE_COUNT], head: 0 };
        assert(forall|k: int| 0 <= k < 256 ==> r.tiles@[k] == blank);
        r
    }

    /// A bank whose first tiles are `tiles` (as many as fit; the rest are blank) and
    /// whose count is the length of `tiles`, cut to a byte.
    pub fn new_from(tiles: &[Tile<2>]) -> (r: Self)
        ensures
            r.count_spec() == (tiles@.len() as u8) as int,
            r.tiles_spec().len() == 256,
            forall|k: int| 0 <= k < 256 && k < tiles@.len() ==> #[trigger] r.tiles_spec()[k] == tiles@[k],
            forall|k: int, x: int, y: int|
                0 <= k < 256 && k >= tiles@.len() && 0 <= x < 8 && 0 <= y < 8
                    ==> #[trigger] r.tiles_spec()[k].pixel(x, y) == 0,
    {
        let blank = Tile::<2>::blank();
        let mut tiles_array = [blank; TILE_COUNT];
        assert(forall|k: int| 0 <= k < 256 ==> tiles_array@[k] == blank);
        let mut i: usize = 0;
        while i < TILE_COUNT
            invariant
                i <= 256,
                forall|k: int|
                    0 <= k < 256 ==> #[trigger] tiles_array@[k] == if k < i && k < tiles@.len() {
                        tiles@[k]
                    } else {
                        blank
                    },
            decreases 256 - i,
        {
            if i < tiles.len() {
                tiles_array[i] = tiles[i];
            }
            i += 1;
        }
        Self { tiles: tiles_array, head: tiles.len() as u8 }
    }

    /// Sets the count of tiles in use to 0; the stored tiles stay.
    pub fn reset(&mut self)
        ensures
            final(self).count_spec() == 0,
            final(self).tiles_spec() == old(self).tiles_spec(),
    {
        self.head = 0;
    }

    /// The number of tiles in use.
    pub fn count(&self) -> (r: usize)
        ensures
            r == self.count_spec(),
    {
        self.head as usize
    }

    /// The number of tiles the bank can store.
    pub fn capacity(&self) -> (r: usize)
        ensures
            r == 256,
    {
        256
    }

    /// Sets the count of tiles in use back to `count`; the stored tiles stay.
    pub fn restore_state(&mut self, count: u8)
        ensures
            final(self).count_spec() == count,
            final(self).tiles_spec() == old(self).tiles_spec(),
    {
        self.head = count;
    }

    /// Stores a copy of `tile` in the next free place and returns its id.
    pub fn add(&mut self, tile: &Tile<2>) -> (r: TileID)
        requires
            old(self).count_spec() < 255,
        ensures
            r.0 == old(self).count_spec(),
            final(self).count_spec() == old(self).count_spec() + 1,
            final(self).tiles_spec() == old(self).tiles_spec().update(old(self).count_spec(), *tile),
    {
        let result = TileID(self.head);
        let dest_index = self.head as usize;
        self.tiles[dest_index] = *tile;
        self.head += 1;
        result
    }
}

} // verus!
