use vstd::prelude::*;
use vstd::slice::slice_subrange;
use crate::video::tile::{Tile, TileID};
use crate::video::bank_tiles::TileBank;
use crate::video::bank_colors::{ColorBank, append_colors, default_palette_spec};

verus! {

/// The tiles of a bank after storing `source` from place `start` on.
pub open spec fn placed_tiles(tiles: Seq<Tile<2>>, start: int, source: Seq<Tile<2>>) -> Seq<Tile<2>> {
    Seq::new(
        tiles.len(),
        |k: int|
            if start <= k < start + source.len() {
                source[k - start]
            } else {
                tiles[k]
            },
    )
}

/// A memory bank: tiles and the main palette.
#[derive(Debug)]
pub struct Bank {
    pub tiles: TileBank,
    pub colors: ColorBank,
}

impl Bank {
    /// An empty bank: blank tiles and the default palette, nothing in use.
    pub fn new() -> (r: Self)
        ensures
            r.tiles.count_spec() == 0,
            r.tiles.tiles_spec().len() == 256,
            forall|k: int, x: int, y: int|
                0 <= k < 256 && 0 <= x < 8 && 0 <= y < 8 ==> #[trigger] r.tiles.tiles_spec()[k].pixel(
                    x,
                    y,
                ) == 0,
            r.colors.colors() == default_palette_spec(),
            r.colors.count() == 0,
    {
        Self { tiles: TileBank::new(), colors: ColorBank::new() }
    }

    /// Forgets the tiles in use (they stay stored) and restores the default palette.
    pub fn reset(&mut self)
        ensures
            final(self).tiles.count_spec() == 0,
            final(self).tiles.tiles_spec() == old(self).tiles.tiles_spec(),
            final(self).colors.colors() == default_palette_spec(),
            final(self).colors.count() == 0,
    {
        self.tiles.reset();
        self.colors.reset_palettes();
    }

    /// Stores a copy of `tile` in the next free place and returns its id.
    pub fn append_tile(&mut self, tile: &Tile<2>) -> (r: Result<TileID, &'static str>)
        requires
            old(self).tiles.count_spec() < 255,
        ensures
            r == Ok::<TileID, &'static str>(TileID(old(self).tiles.count_spec() as u8)),
            final(self).tiles.count_spec() == old(self).tiles.count_spec() + 1,
            final(self).tiles.tiles_spec() == old(self).tiles.tiles_spec().update(
                old(self).tiles.count_spec(),
                *tile,
            ),
            final(self).colors == old(self).colors,
    {
        let id = self.tiles.add(tile);
        Ok(id)
    }

    /// Stores the first `n` tiles of `source` after the tiles in use.
    fn store_tiles(&mut self, source: &[Tile<2>], n: usize)
        requires
            n <= source@.len(),
            old(self).tiles.count_spec() + n <= 255,
        ensures
            final(self).tiles.count_spec() == old(self).tiles.count_spec() + n,
            final(self).tiles.tiles_spec() == placed_tiles(
                old(self).tiles.tiles_spec(),
                old(self).tiles.count_spec(),
                source@.take(n as int),
            ),
            final(self).colors == old(self).colors,
    {
        proof {
            self.tiles.lemma_bounds();
        }
        let ghost start = self.tiles.count_spec();
        let ghost before = self.tiles.tiles_spec();
        let mut i: usize = 0;
        while i < n
            invariant
                n <= source@.len(),
                i <= n,
                start + n <= 255,
                self.tiles.count_spec() == start + i,
                self.tiles.tiles_spec() == placed_tiles(before, start, source@.take(i as int)),
                self.colors == old(self).colors,
                before.len() == 256,
            decreases n - i,
        {
            self.tiles.add(&source[i]);
            proof {
                assert(self.tiles.tiles_spec() =~= placed_tiles(
                    before,
                    start,
                    source@.take(i + 1),
                ));
            }
            i += 1;
        }
    }

    /// Appends the tiles of `source` after the tiles in use and returns the place of the
    /// first one; with too little room, an error and nothing changes.
    pub fn append_tiles(&mut self, source: &[Tile<2>]) -> (r: Result<u8, &'static str>)
        requires
            source@.len() <= 255,
            old(self).tiles.count_spec() + source@.len() != 256,
        ensures
            r is Ok <==> old(self).tiles.count_spec() + source@.len() <= 256,
            r matches Ok(offset) ==> offset == old(self).tiles.count_spec() && final(self).tiles.count_spec() == old(self).tiles.count_spec() + source@.len()
                && final(self).tiles.tiles_spec() == placed_tiles(
                old(self).tiles.tiles_spec(),
                old(self).tiles.count_spec(),
                source@,
            ),
            r matches Err(e) ==> e == "Not enough space in bank for tiles" && final(self).tiles
                == old(self).tiles,
            final(self).colors == old(self).colors,
    {
        proof {
            self.tiles.lemma_bounds();
        }
        let tile_offset = self.tiles.count() as u8;
        let source_tile_count = source.len() as u8;
        if (self.tiles.count() + source_tile_count as usize) > 256 {
            return Err("Not enough space in bank for tiles");
        }
        self.store_tiles(source, source.len());
        assert(source@.take(source@.len() as int) =~= source@);
        Ok(tile_offset)
    }

    /// Appends the tiles in use of another bank; the remap is not used.
    pub fn append_tiles_from_bank(&mut self, source: &Bank, _color_remap: Option<[u8; 16]>) -> (r:
        Result<u8, &'static str>)
        requires
            old(self).tiles.count_spec() + source.tiles.count_spec() != 256,
        ensures
            r is Ok <==> old(self).tiles.count_spec() + source.tiles.count_spec() <= 256,
            r matches Ok(offset) ==> offset == old(self).tiles.count_spec() && final(self).tiles.count_spec() == old(self).tiles.count_spec() + source.tiles.count_spec()
                && final(self).tiles.tiles_spec() == placed_tiles(
                old(self).tiles.tiles_spec(),
                old(self).tiles.count_spec(),
                source.tiles.tiles_spec().take(source.tiles.count_spec()),
            ),
            r matches Err(e) ==> e == "Not enough space in bank for tiles" && final(self).tiles
                == old(self).tiles,
            final(self).colors == old(self).colors,
    {
        proof {
            source.tiles.lemma_fields();
            source.tiles.lemma_bounds();
        }
        let source_tile_count = source.tiles.count();
        let all = source.tiles.tiles.as_slice();
        let used = slice_subrange(all, 0, source_tile_count);
        assert(used@ =~= source.tiles.tiles_spec().take(source.tiles.count_spec()));
        self.append_tiles(used)
    }

    /// Appends another bank: first its colors (reusing the ones this bank holds), then its
    /// tiles, unmodified. Returns the place of the first appended tile. With too little
    /// room for the tiles, an error and nothing changes; with too little room for the
    /// colors, an error after the colors that fitted were added.
    pub fn append(&mut self, source: &Bank) -> (r: Result<u8, &'static str>)
        requires
            old(self).colors.count() <= 16,
            source.colors.count() <= 16,
            old(self).tiles.count_spec() + source.tiles.count_spec() != 256,
        ensures
            ({
                let fits = old(self).tiles.count_spec() + source.tiles.count_spec() <= 256;
                let colors = append_colors(
                    old(self).colors.colors(),
                    old(self).colors.count(),
                    source.colors.colors().take(source.colors.count()),
                );
                &&& r is Ok <==> fits && colors.3
                &&& !fits ==> r == Err::<u8, &'static str>("Not enough space in bank for tiles")
                    && final(self).tiles == old(self).tiles && final(self).colors == old(self).colors
                &&& fits ==> final(self).colors.colors() == colors.0 && final(self).colors.count()
                    == colors.1
                &&& fits && !colors.3 ==> r == Err::<u8, &'static str>(
                    "Not enough space in bank for colors",
                ) && final(self).tiles == old(self).tiles
                &&& r matches Ok(offset) ==> offset == old(self).tiles.count_spec() && final(self).tiles.count_spec() == old(self).tiles.count_spec() + source.tiles.count_spec()
                    && final(self).tiles.tiles_spec() == placed_tiles(
                    old(self).tiles.tiles_spec(),
                    old(self).tiles.count_spec(),
                    source.tiles.tiles_spec().take(source.tiles.count_spec()),
                )
            }),
    {
        proof {
            self.tiles.lemma_bounds();
            source.tiles.lemma_bounds();
            source.colors.lemma_fields();
            source.colors.lemma_bounds();
        }
        let source_tile_count = source.tiles.count();
        if (self.tiles.count() + source_tile_count) > 256 {
            return Err("Not enough space in bank for tiles");
        }
        let src_len = source.colors.color_count() as usize;
        let source_colors = slice_subrange(source.colors.palette.as_slice(), 0, src_len);
        assert(source_colors@ =~= source.colors.colors().take(source.colors.count()));
        let color_remap = match self.colors.append(source_colors) {
            Ok(remap) => remap,
            Err(e) => {
                return Err(e);
            },
        };
        self.append_tiles_from_bank(source, Some(color_remap))
    }
}

} // verus!
