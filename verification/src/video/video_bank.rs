use vstd::prelude::*;
use crate::video::color::{RGBA12, ColorID};
use crate::video::tile::{Tile, TileID};
use crate::video::bank_colors::{default_palette, default_palette_spec};

verus! {

/// Where entry `i` of a color mapping takes its value from when the range
/// `start..=end` is cycled by `delta`: `delta` places on, and past the end of the range
/// back to its other end.
pub open spec fn mapping_source(start: int, end: int, delta: int, i: int) -> int {
    if delta > 0 {
        if i + delta > end {
            start
        } else {
            i + delta
        }
    } else {
        if i + delta < start {
            end
        } else {
            i + delta
        }
    }
}

/// The color mapping `m` after cycling its range `start..=end` by `delta`.
pub open spec fn cycled_mapping(m: Seq<u8>, start: int, end: int, delta: int) -> Seq<u8> {
    Seq::new(
        m.len(),
        |i: int|
            if start <= i <= end {
                m[mapping_source(start, end, delta, i)]
            } else {
                m[i]
            },
    )
}

/// The identity color mapping.
pub open spec fn identity_mapping() -> Seq<u8> {
    Seq::new(16, |i: int| i as u8)
}

/// A "Memory Bank" that contains the actual tile pixels, a color palette
/// and the subpalettes associated with the main color palette.
#[derive(Debug, Clone)]
pub struct VideoBank<const TILES: usize> {
    pub tiles: [Tile<2>; TILES],
    pub palette: [RGBA12; 16],
    pub color_mapping: [[u8; 16]; 16],
    // Everything that needs to be counted
    tile_head: u8,
    palette_head: u8,
}

impl<const TILES: usize> VideoBank<TILES> {
    /// The counts stay within the storage.
    pub closed spec fn wf(self) -> bool {
        self.tile_head <= TILES && self.palette_head <= 16
    }

    /// The number of tiles in use.
    pub closed spec fn tile_count_spec(self) -> int {
        self.tile_head as int
    }

    /// The number of palette entries in use.
    pub closed spec fn color_count_spec(self) -> int {
        self.palette_head as int
    }

    /// The stored tiles.
    pub closed spec fn tiles_view(self) -> Seq<Tile<2>> {
        self.tiles@
    }

    /// The main palette.
    pub closed spec fn palette_view(self) -> Seq<RGBA12> {
        self.palette@
    }

    /// Color mapping `m`.
    pub closed spec fn mapping_view(self, m: int) -> Seq<u8> {
        self.color_mapping@[m]@
    }

    /// The sizes of the storage.
    pub proof fn lemma_sizes(self)
        ensures
            self.tiles_view().len() == TILES,
            self.palette_view().len() == 16,
            forall|m: int| 0 <= m < 16 ==> #[trigger] self.mapping_view(m).len() == 16,
            0 <= self.tile_count_spec() <= 255,
            0 <= self.color_count_spec() <= 255,
    {
    }

    /// A bank of blank tiles, the default palette and identity color mappings, with
    /// nothing in use.
    pub fn new() -> (r: Self)
        ensures
            r.wf(),
            r.tile_count_spec() == 0,
            r.color_count_spec() == 0,
            r.palette_view() == default_palette_spec(),
            forall|m: int| 0 <= m < 16 ==> #[trigger] r.mapping_view(m) == identity_mapping(),
            forall|k: int, x: int, y: int|
                0 <= k < TILES && 0 <= x < 8 && 0 <= y < 8 ==> #[trigger] r.tiles_view()[k].pixel(
                    x,
                    y,
                ) == 0,
    {
        let blank = Tile::<2>::blank();
        let mut identity = [0u8; 16];
        let mut i: usize = 0;
        while i < 16
            invariant
                i <= 16,
                forall|k: int| 0 <= k < i ==> #[trigger] identity@[k] == k as u8,
            decreases 16 - i,
        {
            identity[i] = i as u8;
            i += 1;
        }
        assert(identity@ =~= identity_mapping());
        let r = Self {
            tiles: [blank; TILES],
            palette: default_palette(),
            color_mapping: [identity; 16],
            tile_head: 0,
            palette_head: 0,
        };
        assert(forall|k: int| 0 <= k < TILES ==> r.tiles@[k] == blank);
        assert(forall|m: int| 0 <= m < 16 ==> r.color_mapping@[m] == identity);
        r
    }

    /// Forgets the tiles in use (they stay stored) and restores the default palette.
    pub fn reset(&mut self)
        requires
            old(self).wf(),
        ensures
            final(self).wf(),
            final(self).tile_count_spec() == 0,
            final(self).color_count_spec() == 0,
            final(self).palette_view() == default_palette_spec(),
            final(self).tiles_view() == old(self).tiles_view(),
            forall|m: int| 0 <= m < 16 ==> #[trigger] final(self).mapping_view(m) == old(self).mapping_view(m),
    {
        self.tile_head = 0;
        self.reset_palettes();
    }

    /// Restores the default palette, with no entry in use.
    pub fn reset_palettes(&mut self)
        requires
            old(self).wf(),
        ensures
            final(self).wf(),
            final(self).color_count_spec() == 0,
            final(self).palette_view() == default_palette_spec(),
            final(self).tile_count_spec() == old(self).tile_count_spec(),
            final(self).tiles_view() == old(self).tiles_view(),
            forall|m: int| 0 <= m < 16 ==> #[trigger] final(self).mapping_view(m) == old(self).mapping_view(m),
    {
        self.palette = default_palette();
        self.palette_head = 0;
    }

    /// Puts `color` in the next free palette entry and returns that entry's id.
    pub fn push_color(&mut self, color: RGBA12) -> (r: ColorID)
        requires
            old(self).wf(),
            old(self).color_count_spec() < 16,
        ensures
            final(self).wf(),
            r.0 == old(self).color_count_spec(),
            final(self).palette_view() == old(self).palette_view().update(
                old(self).color_count_spec(),
                color,
            ),
            final(self).color_count_spec() == old(self).color_count_spec() + 1,
            final(self).tile_count_spec() == old(self).tile_count_spec(),
            final(self).tiles_view() == old(self).tiles_view(),
            forall|m: int| 0 <= m < 16 ==> #[trigger] final(self).mapping_view(m) == old(self).mapping_view(m),
    {
        let id = ColorID(self.palette_head);
        self.palette[self.palette_head as usize] = color;
        self.palette_head += 1;
        id
    }

    /// Loads the default palette, with all 16 entries in use.
    pub fn load_default_colors(&mut self)
        requires
            old(self).wf(),
        ensures
            final(self).wf(),
            final(self).palette_view() == default_palette_spec(),
            final(self).color_count_spec() == 16,
            final(self).tile_count_spec() == old(self).tile_count_spec(),
            final(self).tiles_view() == old(self).tiles_view(),
            forall|m: int| 0 <= m < 16 ==> #[trigger] final(self).mapping_view(m) == old(self).mapping_view(m),
    {
        self.palette = default_palette();
        self.palette_head = 16;
    }

    /// Replaces the color in palette entry `id`.
    pub fn set_color(&mut self, id: ColorID, color: RGBA12)
        requires
            old(self).wf(),
            id.0 < 16,
        ensures
            final(self).wf(),
            final(self).palette_view() == old(self).palette_view().update(id.0 as int, color),
            final(self).color_count_spec() == old(self).color_count_spec(),
            final(self).tile_count_spec() == old(self).tile_count_spec(),
            final(self).tiles_view() == old(self).tiles_view(),
            forall|m: int| 0 <= m < 16 ==> #[trigger] final(self).mapping_view(m) == old(self).mapping_view(m),
    {
        self.palette[id.0 as usize] = color;
    }

    /// Cycles the entries `start_index..=end_index` of one color mapping by `delta`: each
    /// takes the value `delta` places on, and a place past an end of the range takes the
    /// value at the range's other end. The other mappings stay.
    pub fn palette_cycle(&mut self, color_mapping: u8, start_index: u8, end_index: u8, delta: i8)
        requires
            old(self).wf(),
            color_mapping < 16,
            start_index <= end_index ==> end_index < 16,
        ensures
            final(self).wf(),
            final(self).mapping_view(color_mapping as int) == cycled_mapping(
                old(self).mapping_view(color_mapping as int),
                start_index as int,
                end_index as int,
                delta as int,
            ),
            forall|m: int|
                0 <= m < 16 && m != color_mapping ==> #[trigger] final(self).mapping_view(m)
                    == old(self).mapping_view(m),
            final(self).palette_view() == old(self).palette_view(),
            final(self).color_count_spec() == old(self).color_count_spec(),
            final(self).tile_count_spec() == old(self).tile_count_spec(),
            final(self).tiles_view() == old(self).tiles_view(),
    {
        let prior_colors = self.color_mapping[color_mapping as usize];
        let mut row = prior_colors;
        let mut index: isize = start_index as isize;
        while index <= end_index as isize
            invariant
                start_index <= index,
                start_index <= end_index ==> index <= end_index + 1,
                start_index > end_index ==> index == start_index,
                start_index <= end_index ==> end_index < 16,
                forall|i: int|
                    0 <= i < 16 ==> #[trigger] row@[i] == if start_index <= i < index {
                        prior_colors@[mapping_source(
                            start_index as int,
                            end_index as int,
                            delta as int,
                            i,
                        )]
                    } else {
                        prior_colors@[i]
                    },
            decreases end_index + 1 - index,
        {
            let mut new_index = index + delta as isize;
            if delta > 0 {
                if new_index > end_index as isize {
                    new_index = start_index as isize;
                }
            } else {
                if new_index < start_index as isize {
                    new_index = end_index as isize;
                }
            }
            row[index as usize] = prior_colors[new_index as usize];
            index += 1;
        }
        self.color_mapping[color_mapping as usize] = row;
        assert(row@ =~= cycled_mapping(
            prior_colors@,
            start_index as int,
            end_index as int,
            delta as int,
        ));
    }

    /// The number of tiles in use.
    pub fn tile_count(&self) -> (r: usize)
        ensures
            r == self.tile_count_spec(),
    {
        self.tile_head as usize
    }

    /// The number of palette entries in use.
    pub fn color_count(&self) -> (r: u8)
        ensures
            r == self.color_count_spec(),
    {
        self.palette_head
    }

    /// The number of tiles the bank can store.
    pub fn tile_capacity(&self) -> (r: usize)
        ensures
            r == TILES,
    {
        TILES
    }

    /// Sets the count of tiles in use back to `count`; the tiles stay.
    pub fn restore_tile_count(&mut self, count: u8)
        requires
            old(self).wf(),
            count <= TILES,
        ensures
            final(self).wf(),
            final(self).tile_count_spec() == count,
            final(self).tiles_view() == old(self).tiles_view(),
            final(self).palette_view() == old(self).palette_view(),
            final(self).color_count_spec() == old(self).color_count_spec(),
            forall|m: int| 0 <= m < 16 ==> #[trigger] final(self).mapping_view(m) == old(self).mapping_view(m),
    {
        self.tile_head = count;
    }

    /// Sets the count of palette entries in use back to `color_count`; the colors stay.
    pub fn restore_palette_state(&mut self, color_count: u8)
        requires
            old(self).wf(),
            color_count <= 16,
        ensures
            final(self).wf(),
            final(self).color_count_spec() == color_count,
            final(self).palette_view() == old(self).palette_view(),
            final(self).tile_count_spec() == old(self).tile_count_spec(),
            final(self).tiles_view() == old(self).tiles_view(),
            forall|m: int| 0 <= m < 16 ==> #[trigger] final(self).mapping_view(m) == old(self).mapping_view(m),
    {
        self.palette_head = color_count;
    }

    /// Stores a copy of `tile` in the next free place and returns its id.
    pub fn add_tile(&mut self, tile: &Tile<2>) -> (r: TileID)
        requires
            old(self).wf(),
            old(self).tile_count_spec() < TILES,
            old(self).tile_count_spec() < 255,
        ensures
            final(self).wf(),
            r.0 == old(self).tile_count_spec(),
            final(self).tile_count_spec() == old(self).tile_count_spec() + 1,
            final(self).tiles_view() == old(self).tiles_view().update(old(self).tile_count_spec(), *tile),
            final(self).palette_view() == old(self).palette_view(),
            final(self).color_count_spec() == old(self).color_count_spec(),
            forall|m: int| 0 <= m < 16 ==> #[trigger] final(self).mapping_view(m) == old(self).mapping_view(m),
    {
        let result = TileID(self.tile_head);
        let dest_index = self.tile_head as usize;
        self.tiles[dest_index] = *tile;
        self.tile_head += 1;
        result
    }

    /// Pixel `(x, y)` of the stored tile `id`.
    pub fn tile_pixel(&self, id: u8, x: u8, y: u8) -> (r: u8)
        requires
            (id as int) < TILES,
            x < 8,
            y < 8,
        ensures
            r == self.tiles_view()[id as int].pixel(x as int, y as int),
            r < 4,
    {
        self.tiles[id as usize].get_pixel(x, y)
    }

    /// Entry `index` of the main palette.
    pub fn palette_color(&self, index: u8) -> (r: RGBA12)
        requires
            index < 16,
        ensures
            r == self.palette_view()[index as int],
    {
        self.palette[index as usize]
    }

    /// Entry `index` of color mapping `mapping`.
    pub fn mapped_index(&self, mapping: u8, index: u8) -> (r: u8)
        requires
            mapping < 16,
            index < 16,
        ensures
            r == self.mapping_view(mapping as int)[index as int],
    {
        self.color_mapping[mapping as usize][index as usize]
    }

    /// The tile stored at `index`, if it is in use.
    pub fn get_tile(&self, index: u8) -> (r: Option<&Tile<2>>)
        requires
            self.wf(),
        ensures
            r == (if index < self.tile_count_spec() {
                Some(&self.tiles_view()[index as int])
            } else {
                None
            }),
    {
        if index < self.tile_head {
            Some(&self.tiles[index as usize])
        } else {
            None
        }
    }
}

} // verus!
