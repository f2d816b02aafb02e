//! Turning palette-indexed images into deduplicated tiles, tilemaps, animation strips and
//! animations. Tiles are matched by structure, so a tile that only differs from a stored
//! one by its colors, or by a flip or rotation, reuses the stored tile.

use vstd::prelude::*;
use crate::video::cell::Cell;
use crate::decimal::{decimal_chars, push_decimal_chars};
use crate::pipeline::groups::str_equal;
use crate::pipeline::settings::Anim;
use crate::video::tile::TileID;
use crate::video::tile_flags::{TileFlags, has_flag, FLAG_FLIP_H, FLAG_FLIP_V, FLAG_ROTATED};
use crate::pipeline::tiles::{
    Pixels, canonical_index, canonical_of, colors_below, create_canonical_tile, compute_tile_colors_with_transform,
    create_tile_colors_from_mapping, find_matching_tile, first_seen_from, lemma_colors_below, matching_tile,
    palette_of, slot_color, sorted_colors, store_transformed_variants, stored_variants, structure_of, table_view,
};

verus! {

/// The tile part of a bank builder, as values: the table of tile structures and the cells
/// they stand for, the source pixels of each stored tile (by tile id), the canonical
/// indices of all stored tiles one after the other, and the id the next new tile gets.
pub type TileModel = (Seq<(Seq<u8>, Cell)>, Seq<Seq<u8>>, Seq<u8>, int);

/// Every pixel of `p` is a palette index (below 16).
pub open spec fn colors_ok(p: Seq<u8>) -> bool {
    forall|i: int| 0 <= i < p.len() ==> #[trigger] p[i] < 16
}

/// A stored tile: 64 palette indices, at most four different ones.
pub open spec fn stored_ok(p: Seq<u8>) -> bool {
    &&& p.len() == 64
    &&& colors_ok(p)
    &&& sorted_colors(p).len() <= 4
}

/// The tile model is consistent: one source per tile id given out, at most 255 of them,
/// every recorded cell names a stored tile, and every stored tile is valid.
pub open spec fn model_ok(m: TileModel) -> bool {
    &&& m.1.len() == m.3
    &&& 0 <= m.3 <= 255
    &&& forall|j: int| 0 <= j < m.0.len() ==> (#[trigger] m.0[j]).1.id.0 < m.3
    &&& forall|t: int| 0 <= t < m.1.len() ==> stored_ok(#[trigger] m.1[t])
}

/// The first four colors of `colors`, with 0 for the missing ones.
pub open spec fn padded(colors: Seq<u8>) -> Seq<u8> {
    Seq::new(
        4,
        |k: int|
            if k < colors.len() {
                colors[k]
            } else {
                0u8
            },
    )
}

/// The cell that reuses the stored tile of `existing` for the tile `source`: same tile and
/// flags, with the palette that makes the stored tile, so drawn, show `source`'s colors.
pub open spec fn reused_cell(m: TileModel, existing: Cell, source: Seq<u8>) -> Cell {
    let canon = canonical_of(m.1[existing.id.0 as int]);
    let fx = has_flag(existing.flags.0, FLAG_FLIP_H);
    let fy = has_flag(existing.flags.0, FLAG_FLIP_V);
    let rot = has_flag(existing.flags.0, FLAG_ROTATED);
    Cell {
        id: existing.id,
        flags: existing.flags,
        colors: palette_of(
            seq![
                slot_color(source, canon, fx, fy, rot, 0),
                slot_color(source, canon, fx, fy, rot, 1),
                slot_color(source, canon, fx, fy, rot, 2),
                slot_color(source, canon, fx, fy, rot, 3),
            ],
        ),
    }
}

/// The cell of a new tile made from `source`: the next tile id, no flags, and the tile's
/// colors in increasing order as its palette.
pub open spec fn new_cell(m: TileModel, source: Seq<u8>) -> Cell {
    Cell { id: TileID(m.3 as u8), flags: TileFlags(0), colors: palette_of(padded(sorted_colors(source))) }
}

/// Adding the tile `source`: a tile matching it (by structure, or through a flip or
/// rotation when `allow` is set) is reused and nothing is stored; otherwise a new tile is
/// stored, with its transformed forms recorded when `allow` is set.
pub open spec fn tile_added(m: TileModel, source: Seq<u8>, allow: bool) -> (TileModel, Cell) {
    match matching_tile(m.0, structure_of(source), source, allow) {
        Some(existing) => (m, reused_cell(m, existing, source)),
        None => {
            let cell = new_cell(m, source);
            let table = if allow {
                stored_variants(m.0, cell, source, 0)
            } else {
                m.0
            };
            ((table, m.1.push(source), m.2 + canonical_of(source), m.3 + 1), cell)
        },
    }
}

/// The tile `source` can be added: it matches a stored tile, or it has at most four
/// colors and a tile id is left for it.
pub open spec fn tile_fits(m: TileModel, source: Seq<u8>, allow: bool) -> bool {
    ||| matching_tile(m.0, structure_of(source), source, allow) is Some
    ||| sorted_colors(source).len() <= 4 && m.3 < 255
}

/// A colour found first is one of the tile's pixels.
proof fn lemma_first_seen_bound(new: Seq<u8>, canon: Seq<u8>, fx: bool, fy: bool, rot: bool, k: u8, i: int)
    requires
        new.len() == 64,
        colors_ok(new),
    ensures
        first_seen_from(new, canon, fx, fy, rot, k, i) matches Some(c) ==> c < 16,
    decreases 64 - i,
{
    if 0 <= i < 64 {
        lemma_first_seen_bound(new, canon, fx, fy, rot, k, i + 1);
    }
}

/// The canonical indices of a stored tile are below 4, and its colors are palette
/// indices.
proof fn lemma_stored_canonical(p: Seq<u8>)
    requires
        stored_ok(p),
    ensures
        forall|i: int| 0 <= i < 64 ==> #[trigger] canonical_of(p)[i] < 4,
        forall|k: int| 0 <= k < sorted_colors(p).len() ==> #[trigger] sorted_colors(p)[k] < 16,
{
    lemma_colors_below(p, 256);
    assert forall|i: int| 0 <= i < 64 implies #[trigger] canonical_of(p)[i] < 4 by {
        assert(p.contains(p[i]));
        assert(canonical_index(p, p[i]) < colors_below(p, 256).len());
    }
    assert forall|k: int| 0 <= k < sorted_colors(p).len() implies #[trigger] sorted_colors(p)[k] < 16 by {
        let c = sorted_colors(p)[k];
        assert(p.contains(c));
        let j = choose|j: int| 0 <= j < p.len() && p[j] == c;
        assert(p[j] < 16);
    }
}

/// Recording transformed forms only adds cells carrying the base cell's tile id.
proof fn lemma_stored_variants_ids(table: Seq<(Seq<u8>, Cell)>, base: Cell, source: Seq<u8>, n: int, bound: u8)
    requires
        forall|j: int| 0 <= j < table.len() ==> (#[trigger] table[j]).1.id.0 < bound,
        base.id.0 < bound,
    ensures
        forall|j: int|
            0 <= j < stored_variants(table, base, source, n).len() ==> (#[trigger] stored_variants(
                table,
                base,
                source,
                n,
            )[j]).1.id.0 < bound,
    decreases 8 - n,
{
    if 0 <= n < 8 {
        let v = crate::pipeline::tiles::variant(n);
        let key = structure_of(crate::pipeline::tiles::transformed(source, v.0, v.1, v.2));
        let next = if crate::pipeline::tiles::find_cell(table, key) is Some {
            table
        } else {
            table.push((key, crate::pipeline::tiles::cell_with_transform(base, v)))
        };
        assert forall|j: int| 0 <= j < next.len() implies (#[trigger] next[j]).1.id.0 < bound by {
            if j < table.len() {
                assert(next[j] == table[j]);
            }
        }
        lemma_stored_variants_ids(next, base, source, n + 1, bound);
        assert(stored_variants(table, base, source, n) == stored_variants(next, base, source, n + 1));
    }
}

/// Adding a tile keeps the model consistent.
pub proof fn lemma_tile_added_ok(m: TileModel, source: Seq<u8>, allow: bool)
    requires
        model_ok(m),
        source.len() == 64,
        colors_ok(source),
        tile_fits(m, source, allow),
    ensures
        model_ok(tile_added(m, source, allow).0),
{
    if matching_tile(m.0, structure_of(source), source, allow) is None {
        let cell = new_cell(m, source);
        let next = tile_added(m, source, allow).0;
        if allow {
            lemma_stored_variants_ids(m.0, cell, source, 0, (m.3 + 1) as u8);
        }
        assert forall|t: int| 0 <= t < next.1.len() implies stored_ok(#[trigger] next.1[t]) by {
            if t < m.1.len() {
                assert(next.1[t] == m.1[t]);
            }
        }
    }
}

/// A structure already recorded keeps its cell when the forms of another tile are
/// recorded: a form is only recorded under a structure not found yet.
proof fn lemma_stored_variants_same(
    table: Seq<(Seq<u8>, Cell)>,
    base: Cell,
    source: Seq<u8>,
    n: int,
    key: Seq<u8>,
)
    requires
        crate::pipeline::tiles::find_cell(table, key) is Some,
    ensures
        crate::pipeline::tiles::find_cell(stored_variants(table, base, source, n), key)
            == crate::pipeline::tiles::find_cell(table, key),
    decreases 8 - n,
{
    if 0 <= n < 8 {
        let v = crate::pipeline::tiles::variant(n);
        let k = structure_of(crate::pipeline::tiles::transformed(source, v.0, v.1, v.2));
        if crate::pipeline::tiles::find_cell(table, k) is None {
            let next = table.push((k, crate::pipeline::tiles::cell_with_transform(base, v)));
            assert(next.drop_last() =~= table);
            lemma_stored_variants_same(next, base, source, n + 1, key);
        } else {
            lemma_stored_variants_same(table, base, source, n + 1, key);
        }
    }
}

/// Looking, from pixel `i` on, for canonical index `k` in a stored tile's own canonical
/// form finds the tile's `k`-th color, if any pixel from `i` on has that index.
proof fn lemma_first_seen_own(p: Seq<u8>, k: u8, i: int)
    requires
        stored_ok(p),
        0 <= i <= 64,
    ensures
        first_seen_from(p, canonical_of(p), false, false, false, k, i) == if exists|j: int|
            i <= j < 64 && #[trigger] canonical_of(p)[j] == k {
            Some(sorted_colors(p)[k as int])
        } else {
            None
        },
    decreases 64 - i,
{
    if i < 64 {
        lemma_first_seen_own(p, k, i + 1);
        let s = crate::video::tile_flags::transform_source(false, false, false, i % 8, i / 8, 8);
        assert(crate::pipeline::tiles::transform_index(false, false, false, i) == i);
        if canonical_of(p)[i] == k {
            crate::pipeline::tiles::lemma_canonical_roundtrip(p, i);
        } else {
            if exists|j: int| i <= j < 64 && #[trigger] canonical_of(p)[j] == k {
                let j = choose|j: int| i <= j < 64 && #[trigger] canonical_of(p)[j] == k;
                assert(i + 1 <= j);
            }
        }
    }
}

/// A stored tile drawn over its own stored copy, with no flips or rotation, gets its own
/// colors back as its palette slots.
proof fn lemma_own_slot(p: Seq<u8>, k: u8)
    requires
        stored_ok(p),
        k < 4,
    ensures
        slot_color(p, canonical_of(p), false, false, false, k) == padded(sorted_colors(p))[k as int],
{
    lemma_first_seen_own(p, k, 0);
    lemma_colors_below(p, 256);
    let sorted = sorted_colors(p);
    if (k as int) < sorted.len() {
        let c = sorted[k as int];
        assert(p.contains(c));
        let j = choose|j: int| 0 <= j < p.len() && p[j] == c;
        assert(canonical_index(p, c) < sorted.len() && sorted[canonical_index(p, c)] == c);
        if canonical_index(p, c) < k {
            assert(sorted[canonical_index(p, c)] < sorted[k as int]);
        } else if canonical_index(p, c) > k {
            assert(sorted[k as int] < sorted[canonical_index(p, c)]);
        }
        assert(canonical_of(p)[j] == k);
    } else {
        assert forall|j: int| 0 <= j < 64 implies #[trigger] canonical_of(p)[j] != k by {
            crate::pipeline::tiles::lemma_canonical_roundtrip(p, j);
        }
    }
}

/// Deduplication: with transforms allowed (the default), adding the same tile twice in a
/// row gives the same cell both times, and the second time stores nothing.
pub proof fn lemma_add_same_tile_twice(m: TileModel, source: Seq<u8>)
    requires
        model_ok(m),
        source.len() == 64,
        colors_ok(source),
        tile_fits(m, source, true),
    ensures
        tile_added(tile_added(m, source, true).0, source, true) == tile_added(m, source, true),
{
    if matching_tile(m.0, structure_of(source), source, true) is None {
        let cell = new_cell(m, source);
        let m1 = tile_added(m, source, true).0;
        let key = structure_of(source);
        crate::pipeline::tiles::lemma_transformed_identity(source);
        let v = crate::pipeline::tiles::variant(0);
        assert(v == (false, false, false));
        let first = crate::pipeline::tiles::cell_with_transform(cell, v);
        let next = m.0.push((key, first));
        assert(next.drop_last() =~= m.0);
        assert(crate::pipeline::tiles::find_cell(m.0, key) is None);
        assert(stored_variants(m.0, cell, source, 0) == stored_variants(next, cell, source, 1));
        assert(crate::pipeline::tiles::find_cell(next, key) == Some(first));
        lemma_stored_variants_same(next, cell, source, 1, key);
        assert(matching_tile(m1.0, key, source, true) == Some(first));
        assert(((0u8 & !FLAG_FLIP_H) & !FLAG_FLIP_V) & !FLAG_ROTATED == 0) by (bit_vector);
        assert(first.flags == TileFlags(0));
        assert(0u8 & FLAG_FLIP_H == 0 && 0u8 & FLAG_FLIP_V == 0 && 0u8 & FLAG_ROTATED == 0) by (bit_vector);
        assert(m1.1[m.3] == source);
        lemma_own_slot(source, 0);
        lemma_own_slot(source, 1);
        lemma_own_slot(source, 2);
        lemma_own_slot(source, 3);
        assert(reused_cell(m1, first, source) == cell);
    }
}

/// A picture made of tiles, whose pixels are palette indices, cut into `frames_h` by
/// `frames_v` frames of `cols_per_frame` by `rows_per_frame` tiles each.
pub struct PalettizedImg {
    /// Width in pixels.
    pub width: usize,
    /// The palette index of each pixel, row by row.
    pub pixels: Vec<u8>,
    /// Frames across.
    pub frames_h: u8,
    /// Frames down.
    pub frames_v: u8,
    /// Tiles across a frame.
    pub cols_per_frame: usize,
    /// Tiles down a frame.
    pub rows_per_frame: usize,
}

/// The pixels of the tile in tile column `abs_col` and tile row `abs_row` of the image.
pub open spec fn tile_at(img: PalettizedImg, abs_col: int, abs_row: int) -> Seq<u8> {
    Seq::new(64, |i: int| img.pixels@[img.width * (8 * abs_row + i / 8) + 8 * abs_col + i % 8])
}

/// The frames of the image span at most its width, and its rows of tiles fit its pixels.
pub open spec fn img_ok(img: PalettizedImg) -> bool {
    &&& 8 * img.cols_per_frame * img.frames_h <= img.width
    &&& img.width * (8 * img.rows_per_frame * img.frames_v) <= img.pixels@.len()
    &&& colors_ok(img.pixels@)
}

/// Reads the tile in tile column `abs_col` and tile row `abs_row` of the image.
pub fn extract_tile_pixels(img: &PalettizedImg, abs_col: usize, abs_row: usize) -> (r: Pixels)
    requires
        img_ok(*img),
        abs_col < img.cols_per_frame * img.frames_h,
        abs_row < img.rows_per_frame * img.frames_v,
    ensures
        r@ == tile_at(*img, abs_col as int, abs_row as int),
        colors_ok(r@),
{
    let mut tile: Pixels = [0u8; 64];
    let pixel_count = img.pixels.len();
    let mut y: usize = 0;
    while y < 8
        invariant
            y <= 8,
            img_ok(*img),
            img.pixels@.len() == pixel_count,
            abs_col < img.cols_per_frame * img.frames_h,
            abs_row < img.rows_per_frame * img.frames_v,
            forall|i: int| 0 <= i < 8 * y ==> tile@[i] == tile_at(*img, abs_col as int, abs_row as int)[i],
            forall|i: int| 0 <= i < 8 * y ==> tile@[i] < 16,
        decreases 8 - y,
    {
        let mut x: usize = 0;
        while x < 8
            invariant
                y < 8,
                x <= 8,
                img_ok(*img),
                img.pixels@.len() == pixel_count,
                abs_col < img.cols_per_frame * img.frames_h,
                abs_row < img.rows_per_frame * img.frames_v,
                forall|i: int| 0 <= i < 8 * y + x ==> tile@[i] == tile_at(*img, abs_col as int, abs_row as int)[i],
                forall|i: int| 0 <= i < 8 * y + x ==> tile@[i] < 16,
            decreases 8 - x,
        {
            proof {
                let w = img.width as int;
                let c = img.cols_per_frame as int;
                let fh = img.frames_h as int;
                let r = img.rows_per_frame as int;
                let fv = img.frames_v as int;
                let ax = 8 * abs_col + x;
                let ay = 8 * abs_row + y;
                assert(ax < 8 * c * fh) by (nonlinear_arith)
                    requires
                        ax == 8 * abs_col + x,
                        abs_col < c * fh,
                        x < 8,
                ;
                assert(ay < 8 * r * fv) by (nonlinear_arith)
                    requires
                        ay == 8 * abs_row + y,
                        abs_row < r * fv,
                        0 <= r,
                        0 <= fv,
                        y < 8,
                ;
                assert(w * ay + ax < w * (8 * r * fv)) by (nonlinear_arith)
                    requires
                        ay < 8 * r * fv,
                        ax < w,
                        0 <= ay,
                        0 <= ax,
                ;
                assert(ax < w);
                assert(1 <= w);
                assert(8 * r * fv <= w * (8 * r * fv)) by (nonlinear_arith)
                    requires
                        1 <= w,
                        0 <= 8 * r * fv,
                ;
                assert(0 <= w * ay) by (nonlinear_arith)
                    requires
                        0 <= w,
                        0 <= ay,
                ;
            }
            let abs_x = 8 * abs_col + x;
            let abs_y = 8 * abs_row + y;
            let index = img.width * abs_y + abs_x;
            assert(img.pixels@[index as int] < 16);
            tile[8 * y + x] = img.pixels[index];
            proof {
                assert((8 * y + x) as int / 8 == y as int && (8 * y + x) as int % 8 == x as int);
            }
            x += 1;
        }
        y += 1;
    }
    assert(tile@ =~= tile_at(*img, abs_col as int, abs_row as int));
    tile
}

/// A cell found in a table is one of its cells, so it names a tile the table's cells name.
proof fn lemma_find_cell_id(table: Seq<(Seq<u8>, Cell)>, key: Seq<u8>, bound: int)
    requires
        forall|j: int| 0 <= j < table.len() ==> (#[trigger] table[j]).1.id.0 < bound,
    ensures
        crate::pipeline::tiles::find_cell(table, key) matches Some(c) ==> c.id.0 < bound,
    decreases table.len(),
{
    if table.len() > 0 {
        let rest = table.drop_last();
        assert forall|j: int| 0 <= j < rest.len() implies (#[trigger] rest[j]).1.id.0 < bound by {
            assert(rest[j] == table[j]);
        }
        lemma_find_cell_id(rest, key, bound);
        assert(table.last() == table[table.len() - 1]);
    }
}

/// A cell found through a transformed form is one of the table's cells too.
proof fn lemma_find_variant_id(table: Seq<(Seq<u8>, Cell)>, source: Seq<u8>, n: int, bound: int)
    requires
        forall|j: int| 0 <= j < table.len() ==> (#[trigger] table[j]).1.id.0 < bound,
    ensures
        crate::pipeline::tiles::find_variant_from(table, source, n) matches Some(c) ==> c.id.0 < bound,
    decreases 8 - n,
{
    if 0 <= n < 8 {
        let v = crate::pipeline::tiles::variant(n);
        lemma_find_cell_id(table, structure_of(crate::pipeline::tiles::transformed(source, v.0, v.1, v.2)), bound);
        lemma_find_variant_id(table, source, n + 1, bound);
    }
}

/// The cell matching a tile names a stored tile.
proof fn lemma_matching_id(m: TileModel, source: Seq<u8>, allow: bool)
    requires
        model_ok(m),
    ensures
        matching_tile(m.0, structure_of(source), source, allow) matches Some(c) ==> c.id.0 < m.3,
{
    lemma_find_cell_id(m.0, structure_of(source), m.3);
    lemma_find_variant_id(m.0, source, 1, m.3);
}

/// The number of tiles in a frame of the image.
pub open spec fn per_frame(img: PalettizedImg) -> int {
    img.cols_per_frame * img.rows_per_frame
}

/// The number of frames of the image.
pub open spec fn frame_count(img: PalettizedImg) -> int {
    img.frames_h * img.frames_v
}

/// The tile at position `t` of the order tiles are added in: frames row by row, and in
/// each frame its tiles row by row.
pub open spec fn nth_tile(img: PalettizedImg, t: int) -> Seq<u8> {
    let f = t / per_frame(img);
    let k = t % per_frame(img);
    tile_at(
        img,
        (f % img.frames_h as int) * img.cols_per_frame + k % (img.cols_per_frame as int),
        (f / img.frames_h as int) * img.rows_per_frame + k / (img.cols_per_frame as int),
    )
}

/// The model after adding the first `n` tiles of the image in order, and the cells they
/// got.
pub open spec fn tiles_added(m: TileModel, img: PalettizedImg, allow: bool, n: int) -> (TileModel, Seq<Cell>)
    decreases n,
{
    if n <= 0 {
        (m, seq![])
    } else {
        let before = tiles_added(m, img, allow, n - 1);
        let step = tile_added(before.0, nth_tile(img, n - 1), allow);
        (step.0, before.1.push(step.1))
    }
}

/// Each of the first `n` tiles of the image can be added after the ones before it.
pub open spec fn tiles_fit(m: TileModel, img: PalettizedImg, allow: bool, n: int) -> bool
    decreases n,
{
    n <= 0 || (tiles_fit(m, img, allow, n - 1) && tile_fits(
        tiles_added(m, img, allow, n - 1).0,
        nth_tile(img, n - 1),
        allow,
    ))
}

/// Tiles that fit up to `n` fit up to any `j` before; the first `n` tiles got `n` cells.
proof fn lemma_tiles_fit_prefix(m: TileModel, img: PalettizedImg, allow: bool, n: int, j: int)
    requires
        0 <= j <= n,
        tiles_fit(m, img, allow, n),
    ensures
        tiles_fit(m, img, allow, j),
    decreases n - j,
{
    if j < n {
        lemma_tiles_fit_prefix(m, img, allow, n - 1, j);
    }
}

/// The first `n` tiles got `n` cells.
proof fn lemma_tiles_added_len(m: TileModel, img: PalettizedImg, allow: bool, n: int)
    requires
        0 <= n,
    ensures
        tiles_added(m, img, allow, n).1.len() == n,
    decreases n,
{
    if n > 0 {
        lemma_tiles_added_len(m, img, allow, n - 1);
    }
}

/// Why a bank builder cannot carry out a request.
#[derive(Debug, Clone, Copy, PartialEq, Eq, Structural)]
pub enum BankError {
    /// A request that reads an image was given none.
    MissingImage,
    /// The image's pixels do not cover its tiles, hold a color beyond the palette, or its
    /// width is not a multiple of the tile size.
    InvalidImage,
    /// A single tile's image is not one 8 by 8 tile.
    NotSingleTile,
    /// A tilemap's image has more or less than one frame.
    NotSingleFrame,
    /// An animation strip's image has no frame.
    NoFrames,
    /// A frame is more than 255 tiles across or down.
    MapTooLarge,
    /// A new tile has more than four colors.
    TooManyColors,
    /// No tile id is left for a new tile.
    TileLimit,
    /// 255 animations are defined already.
    AnimLimit,
    /// An animation names no strip of the bank.
    UnknownStrip,
    /// An animation names a frame its strip does not have.
    InvalidFrame,
}

/// The error for a tile that cannot be added: too many colors, else no tile id left.
pub open spec fn misfit_error(source: Seq<u8>) -> BankError {
    if sorted_colors(source).len() > 4 {
        BankError::TooManyColors
    } else {
        BankError::TileLimit
    }
}

/// The error for the tile `source` that cannot be added.
fn misfit_of(source: &Pixels) -> (r: BankError)
    ensures
        r == misfit_error(source@),
{
    let (_, _, colors) = create_canonical_tile(source);
    if colors.len() > 4 {
        BankError::TooManyColors
    } else {
        BankError::TileLimit
    }
}

/// Internal representation of a tilemap grid.
pub struct MapBuilder {
    /// Map identifier.
    pub name: String,
    /// Cell data for each grid position.
    pub cells: Vec<Cell>,
    /// Grid width in tiles.
    pub columns: u8,
    /// Grid height in tiles.
    pub rows: u8,
}

/// A named single-tile asset.
pub struct SingleTileBuilder {
    /// Tile identifier used in generated code.
    pub name: String,
    /// Cell data for this tile.
    pub cell: Cell,
}

/// An animation strip: a sequence of tilemaps.
pub struct StripBuilder {
    /// Strip identifier.
    pub name: String,
    /// The frames, in order.
    pub frames: Vec<MapBuilder>,
}

/// A request recorded by a bank builder and carried out when the bank is written.
pub enum DeferredCommand {
    /// Add an empty (transparent) tile.
    NewEmptyTile,
    /// Add a single tile from an image file.
    NewTile { path: String },
    /// Add a tilemap from an image file.
    NewMap { path: String, name: String },
    /// Add an animation strip from an image file with the given frame layout.
    NewAnimationStrip { path: String, name: String, frames_h: u8, frames_v: u8 },
    /// Define an animation over frames of a strip.
    NewAnim { name: String, fps: u8, repeat: bool, strip_name: String, frames: Vec<u8> },
}

/// The image file a request reads: none (empty) for an empty tile or an animation.
pub open spec fn command_path(c: DeferredCommand) -> Seq<char> {
    match c {
        DeferredCommand::NewEmptyTile => Seq::empty(),
        DeferredCommand::NewAnim { .. } => Seq::empty(),
        DeferredCommand::NewTile { path } => path@,
        DeferredCommand::NewMap { path, .. } => path@,
        DeferredCommand::NewAnimationStrip { path, .. } => path@,
    }
}

impl DeferredCommand {
    /// The image file the request reads; empty for an empty tile or an animation.
    pub fn path(&self) -> (r: &str)
        ensures
            r@ == command_path(*self),
    {
        proof {
            reveal_strlit("");
        }
        match self {
            DeferredCommand::NewEmptyTile => "",
            DeferredCommand::NewAnim { .. } => "",
            DeferredCommand::NewTile { path } => path.as_str(),
            DeferredCommand::NewMap { path, .. } => path.as_str(),
            DeferredCommand::NewAnimationStrip { path, .. } => path.as_str(),
        }
    }
}

/// Converts images into deduplicated tiles, maps, and animations.
pub struct BankBuilder {
    /// If true, detects flipped/rotated tile variants to reduce tile count.
    pub allow_tile_transforms: bool,
    /// If true, allows unused warnings in generated code.
    pub allow_unused: bool,
    /// If true, writes color palette data.
    pub write_colors: bool,
    /// If true, writes tile pixel data.
    pub write_tiles: bool,
    /// If true, writes animation data.
    pub write_animations: bool,
    /// If true, the generated code names the assets through the engine crate.
    pub use_crate_assets: bool,
    /// The bank's name.
    pub name: String,
    /// The canonical indices of every stored tile, one tile after the other.
    pub pixels: Vec<u8>,
    /// The structure of each recorded tile form and the cell it stands for.
    pub tiles_to_cells: Vec<(Pixels, Cell)>,
    /// The source pixels of each stored tile, by tile id.
    pub original_source_pixels: Vec<Pixels>,
    /// The animation strips.
    pub strips: Vec<StripBuilder>,
    /// The animations.
    pub anims: Vec<Anim>,
    /// The tilemaps.
    pub maps: Vec<MapBuilder>,
    /// The single tiles.
    pub single_tiles: Vec<SingleTileBuilder>,
    /// The id the next new tile gets.
    pub next_tile: u8,
    /// The requests carried out when the bank is written.
    pub deferred_commands: Vec<DeferredCommand>,
}

/// The name of frame `i` of an animation strip: `frame_` and the number, with at least
/// two digits.
pub open spec fn frame_name(i: nat) -> Seq<char> {
    "frame_"@ + (if i < 10 {
        "0"@
    } else {
        Seq::<char>::empty()
    }) + decimal_chars(i)
}

/// The name of frame `i` of an animation strip.
fn frame_name_of(i: usize) -> (r: String)
    ensures
        r@ == frame_name(i as nat),
{
    let mut name = String::new();
    name.append("frame_");
    if i < 10 {
        name.append("0");
    }
    push_decimal_chars(&mut name, i as u64);
    name
}

/// A copy of a row of cells.
fn copy_cells(cells: &Vec<Cell>) -> (r: Vec<Cell>)
    ensures
        r@ == cells@,
{
    let mut out: Vec<Cell> = Vec::new();
    let mut i: usize = 0;
    while i < cells.len()
        invariant
            i <= cells@.len(),
            out@ == cells@.take(i as int),
        decreases cells@.len() - i,
    {
        out.push(cells[i]);
        i += 1;
        assert(out@ =~= cells@.take(i as int));
    }
    assert(cells@.take(cells@.len() as int) =~= cells@);
    out
}

/// A copy of a list of bytes.
fn copy_bytes(v: &Vec<u8>) -> (r: Vec<u8>)
    ensures
        r@ == v@,
{
    let mut out: Vec<u8> = Vec::new();
    let mut i: usize = 0;
    while i < v.len()
        invariant
            i <= v@.len(),
            out@ == v@.take(i as int),
        decreases v@.len() - i,
    {
        out.push(v[i]);
        i += 1;
        assert(out@ =~= v@.take(i as int));
    }
    assert(v@.take(v@.len() as int) =~= v@);
    out
}

/// The position of the first strip from `from` on named `name`.
pub open spec fn strip_position(strips: Seq<StripBuilder>, name: Seq<char>, from: int) -> Option<int>
    decreases strips.len() - from,
{
    if from < 0 || from >= strips.len() {
        None
    } else if strips[from].name@ == name {
        Some(from)
    } else {
        strip_position(strips, name, from + 1)
    }
}

/// A strip position found is a position of the sequence, from `from` on.
proof fn lemma_strip_position(strips: Seq<StripBuilder>, name: Seq<char>, from: int)
    ensures
        strip_position(strips, name, from) matches Some(p) ==> 0 <= from <= p < strips.len()
            && strips[p].name@ == name,
    decreases strips.len() - from,
{
    if 0 <= from < strips.len() && strips[from].name@ != name {
        lemma_strip_position(strips, name, from + 1);
    }
}

/// `strip` is the animation strip named `name` made of the frames `frames` of an image
/// whose frames are `columns` by `rows` tiles: frame `i` is named `frame_name(i)`.
pub open spec fn strip_made(strip: StripBuilder, name: Seq<char>, frames: Seq<Seq<Cell>>, columns: u8, rows: u8) -> bool {
    &&& strip.name@ == name
    &&& strip.frames@.len() == frames.len()
    &&& forall|i: int|
        0 <= i < frames.len() ==> {
            let frame = #[trigger] strip.frames@[i];
            &&& frame.name@ == frame_name(i as nat)
            &&& frame.columns == columns
            &&& frame.rows == rows
            &&& frame.cells@ == frames[i]
        }
}

/// The cells of each frame of an image, after the tiles of the whole image were added to
/// the model `m`.
pub open spec fn frames_of(m: TileModel, img: PalettizedImg, allow: bool) -> Seq<Seq<Cell>> {
    let cells = tiles_added(m, img, allow, frame_count(img) * per_frame(img)).1;
    Seq::new(
        frame_count(img) as nat,
        |f: int| cells.subrange(f * per_frame(img), (f + 1) * per_frame(img)),
    )
}

impl PalettizedImg {
    /// A picture of a single tile whose pixels are all palette index 0.
    pub fn empty() -> (r: Self)
        ensures
            r.width == 8,
            r.pixels@ == Seq::new(64, |i: int| 0u8),
            r.frames_h == 1,
            r.frames_v == 1,
            r.cols_per_frame == 1,
            r.rows_per_frame == 1,
            img_ok(r),
    {
        let mut pixels: Vec<u8> = Vec::new();
        let mut i: usize = 0;
        while i < 64
            invariant
                i <= 64,
                pixels@ == Seq::new(i as nat, |k: int| 0u8),
            decreases 64 - i,
        {
            pixels.push(0);
            i += 1;
            assert(pixels@ =~= Seq::new(i as nat, |k: int| 0u8));
        }
        Self { width: 8, pixels, frames_h: 1, frames_v: 1, cols_per_frame: 1, rows_per_frame: 1 }
    }
}

/// The image is usable: its pixels cover its tiles and are palette indices, and its
/// width is a whole number of tiles.
pub open spec fn image_valid(img: PalettizedImg) -> bool {
    img_ok(img) && img.width % 8 == 0
}

/// Checks an image; see `image_valid`.
pub fn check_image(img: &PalettizedImg) -> (r: bool)
    ensures
        r == image_valid(*img),
{
    if img.width % 8 != 0 {
        return false;
    }
    assert((img.cols_per_frame as u128) * 8 * (img.frames_h as u128) <= 0x1_0000_0000_0000_0000 * 8 * 255)
        by (nonlinear_arith)
        requires
            img.cols_per_frame <= 0x1_0000_0000_0000_0000,
            img.frames_h <= 255,
    ;
    assert((img.rows_per_frame as u128) * 8 * (img.frames_v as u128) <= 0x1_0000_0000_0000_0000 * 8 * 255)
        by (nonlinear_arith)
        requires
            img.rows_per_frame <= 0x1_0000_0000_0000_0000,
            img.frames_v <= 255,
    ;
    let across = (img.cols_per_frame as u128) * 8 * (img.frames_h as u128);
    if across > img.width as u128 {
        return false;
    }
    let down = (img.rows_per_frame as u128) * 8 * (img.frames_v as u128);
    assert(8 * img.rows_per_frame * img.frames_v == down) by (nonlinear_arith)
        requires
            down == (img.rows_per_frame as u128) * 8 * (img.frames_v as u128),
    ;
    assert(8 * img.cols_per_frame * img.frames_h == across) by (nonlinear_arith)
        requires
            across == (img.cols_per_frame as u128) * 8 * (img.frames_h as u128),
    ;
    let pixel_count = img.pixels.len();
    let needed = match (img.width as u128).checked_mul(down) {
        None => {
            assert(img.width * down > pixel_count);
            assert(img.width * (8 * img.rows_per_frame * img.frames_v) > img.pixels@.len());
            return false;
        },
        Some(n) => n,
    };
    if needed > img.pixels.len() as u128 {
        return false;
    }
    let mut i: usize = 0;
    while i < img.pixels.len()
        invariant
            i <= img.pixels@.len(),
            forall|k: int| 0 <= k < i ==> img.pixels@[k] < 16,
        decreases img.pixels@.len() - i,
    {
        if img.pixels[i] >= 16 {
            return false;
        }
        i += 1;
    }
    proof {
        assert(8 * img.cols_per_frame * img.frames_h == across);
        assert(8 * img.rows_per_frame * img.frames_v == down);
    }
    true
}

/// The canonical indices of the model's tiles take 64 bytes per tile.
pub open spec fn pixels_ok(m: TileModel) -> bool {
    m.2.len() == 64 * m.3
}

/// Adding tiles keeps 64 canonical indices per stored tile.
proof fn lemma_tiles_added_pixels(m: TileModel, img: PalettizedImg, allow: bool, n: int)
    requires
        pixels_ok(m),
    ensures
        pixels_ok(tiles_added(m, img, allow, n).0),
    decreases n,
{
    if n > 0 {
        lemma_tiles_added_pixels(m, img, allow, n - 1);
    }
}

/// A strip still found after one strip is replaced by one of the same name, or one more
/// is added.
proof fn lemma_strip_position_kept(strips: Seq<StripBuilder>, name: Seq<char>, from: int, p: int, s: StripBuilder)
    requires
        strip_position(strips, name, from) is Some,
        0 <= p < strips.len(),
        s.name@ == strips[p].name@,
    ensures
        strip_position(strips.update(p, s), name, from) is Some,
        strip_position(strips.push(s), name, from) is Some,
    decreases strips.len() - from,
{
    if 0 <= from < strips.len() && strips[from].name@ != name {
        lemma_strip_position_kept(strips, name, from + 1, p, s);
    }
}

/// A strip still found after one more strip is added.
proof fn lemma_strip_position_push(strips: Seq<StripBuilder>, name: Seq<char>, from: int, s: StripBuilder)
    requires
        strip_position(strips, name, from) is Some,
    ensures
        strip_position(strips.push(s), name, from) is Some,
    decreases strips.len() - from,
{
    if 0 <= from < strips.len() && strips[from].name@ != name {
        lemma_strip_position_push(strips, name, from + 1, s);
    }
}

/// What carrying out `command` with the image `image` (and, for a single tile, the name
/// `tile_name`) does to the builder `old`, giving `new` and the result `r`: the checks of
/// the request, in order, each with its error; and on success the request's effect.
pub open spec fn command_run(
    old: BankBuilder,
    new: BankBuilder,
    command: DeferredCommand,
    image: Option<PalettizedImg>,
    tile_name: Seq<char>,
    r: Result<(), BankError>,
) -> bool {
    let m = old.tile_model();
    let allow = old.allow_tile_transforms;
    let others_kept = |singles: bool, maps: bool, strips: bool, anims: bool|
        (singles ==> new.single_tiles@ == old.single_tiles@) && (maps ==> new.maps@ == old.maps@) && (strips
            ==> new.strips@ == old.strips@) && (anims ==> new.anims@ == old.anims@);
    match command {
        DeferredCommand::NewEmptyTile => {
            let zero = Seq::new(64, |i: int| 0u8);
            &&& !tile_fits(m, zero, allow) ==> r == Err::<(), BankError>(misfit_error(zero))
            &&& tile_fits(m, zero, allow) ==> {
                &&& r is Ok
                &&& (new.tile_model(), new.single_tiles@.last().cell) == tile_added(m, zero, allow)
                &&& new.single_tiles@.drop_last() == old.single_tiles@
                &&& new.single_tiles@.last().name@ == "EMPTY"@
                &&& others_kept(false, true, true, true)
            }
        },
        DeferredCommand::NewTile { path } => match image {
            None => r == Err::<(), BankError>(BankError::MissingImage),
            Some(img) => {
                &&& !image_valid(img) ==> r == Err::<(), BankError>(BankError::InvalidImage)
                &&& image_valid(img) && !(img.width == 8 && img.frames_h == 1 && img.frames_v == 1
                    && img.cols_per_frame == 1 && img.rows_per_frame == 1) ==> r == Err::<(), BankError>(
                    BankError::NotSingleTile,
                )
                &&& image_valid(img) && img.width == 8 && img.frames_h == 1 && img.frames_v == 1
                    && img.cols_per_frame == 1 && img.rows_per_frame == 1 ==> {
                    &&& !tiles_fit(m, img, allow, 1) ==> r == Err::<(), BankError>(misfit_error(nth_tile(img, 0)))
                    &&& tiles_fit(m, img, allow, 1) ==> {
                        &&& r is Ok
                        &&& new.tile_model() == tiles_added(m, img, allow, 1).0
                        &&& new.single_tiles@.drop_last() == old.single_tiles@
                        &&& new.single_tiles@.last().name@ == tile_name
                        &&& new.single_tiles@.last().cell == tiles_added(m, img, allow, 1).1[0]
                        &&& others_kept(false, true, true, true)
                    }
                }
            },
        },
        DeferredCommand::NewMap { path, name } => match image {
            None => r == Err::<(), BankError>(BankError::MissingImage),
            Some(img) => {
                &&& !image_valid(img) ==> r == Err::<(), BankError>(BankError::InvalidImage)
                &&& image_valid(img) && frame_count(img) != 1 ==> r == Err::<(), BankError>(BankError::NotSingleFrame)
                &&& image_valid(img) && frame_count(img) == 1 && (img.cols_per_frame > 255 || img.rows_per_frame
                    > 255) ==> r == Err::<(), BankError>(BankError::MapTooLarge)
                &&& image_valid(img) && frame_count(img) == 1 && img.cols_per_frame <= 255 && img.rows_per_frame
                    <= 255 ==> {
                    let total = frame_count(img) * per_frame(img);
                    &&& (r is Ok <==> tiles_fit(m, img, allow, total))
                    &&& r is Ok ==> {
                        &&& new.tile_model() == tiles_added(m, img, allow, total).0
                        &&& new.maps@.drop_last() == old.maps@
                        &&& new.maps@.last().name@ == name@
                        &&& new.maps@.last().columns == img.cols_per_frame
                        &&& new.maps@.last().rows == img.rows_per_frame
                        &&& new.maps@.last().cells@ == frames_of(m, img, allow)[0]
                        &&& others_kept(true, false, true, true)
                    }
                }
            },
        },
        DeferredCommand::NewAnimationStrip { path, name, frames_h, frames_v } => match image {
            None => r == Err::<(), BankError>(BankError::MissingImage),
            Some(img) => {
                &&& !image_valid(img) ==> r == Err::<(), BankError>(BankError::InvalidImage)
                &&& image_valid(img) && frame_count(img) == 0 ==> r == Err::<(), BankError>(BankError::NoFrames)
                &&& image_valid(img) && frame_count(img) > 0 && (img.cols_per_frame > 255 || img.rows_per_frame
                    > 255) ==> r == Err::<(), BankError>(BankError::MapTooLarge)
                &&& image_valid(img) && frame_count(img) > 0 && img.cols_per_frame <= 255 && img.rows_per_frame
                    <= 255 ==> {
                    let total = frame_count(img) * per_frame(img);
                    &&& (r is Ok <==> tiles_fit(m, img, allow, total))
                    &&& r is Ok ==> {
                        let made = |strip: StripBuilder|
                            strip_made(
                                strip,
                                name@,
                                frames_of(m, img, allow),
                                img.cols_per_frame as u8,
                                img.rows_per_frame as u8,
                            );
                        &&& new.tile_model() == tiles_added(m, img, allow, total).0
                        &&& match strip_position(old.strips@, name@, 0) {
                            Some(p) => new.strips@.len() == old.strips@.len() && made(new.strips@[p]) && forall|j: int|
                                0 <= j < old.strips@.len() && j != p ==> #[trigger] new.strips@[j] == old.strips@[j],
                            None => new.strips@.drop_last() == old.strips@ && made(new.strips@.last()),
                        }
                        &&& others_kept(true, true, false, true)
                    }
                }
            },
        },
        DeferredCommand::NewAnim { name, fps, repeat, strip_name, frames } => {
            &&& old.anims@.len() >= 255 ==> r == Err::<(), BankError>(BankError::AnimLimit)
            &&& old.anims@.len() < 255 && strip_position(old.strips@, strip_name@, 0) is None ==> r == Err::<
                (),
                BankError,
            >(BankError::UnknownStrip)
            &&& old.anims@.len() < 255 ==> (strip_position(old.strips@, strip_name@, 0) matches Some(p) ==> {
                let valid = forall|k: int|
                    0 <= k < frames@.len() ==> (#[trigger] frames@[k] as int) < old.strips@[p].frames@.len();
                &&& !valid ==> r == Err::<(), BankError>(BankError::InvalidFrame)
                &&& valid ==> {
                    &&& r is Ok
                    &&& new.anims@.drop_last() == old.anims@
                    &&& new.anims@.last().name@ == name@
                    &&& new.anims@.last().fps == fps
                    &&& new.anims@.last().repeat == repeat
                    &&& new.anims@.last().frames@ == frames@
                    &&& new.anims@.last().strip_name@ == strip_name@
                    &&& new.tile_model() == m
                    &&& others_kept(true, true, true, false)
                }
            })
        },
    }
}

/// `states` traces carrying out the requests of `old` in order until `new`, with the
/// result `r`: it starts with `old`'s content and ends with `new`'s, each step is a request
/// carried out (`step_ok`), all of them on success, and on failure the last step failed.
pub open spec fn run_trace(
    states: Seq<BankBuilder>,
    old: BankBuilder,
    new: BankBuilder,
    images: Seq<Option<PalettizedImg>>,
    names: Seq<String>,
    r: Result<(), BankError>,
) -> bool {
    &&& 1 <= states.len() <= old.deferred_commands@.len() + 1
    &&& same_content(states[0], old)
    &&& same_content(states.last(), new)
    &&& r is Ok ==> states.len() == old.deferred_commands@.len() + 1
    &&& r is Err ==> states.len() >= 2
    &&& forall|i: int|
        0 <= i < states.len() - 1 ==> #[trigger] step_ok(states, old.deferred_commands@, images, names, r, i)
}

/// `a` and `b` hold the same tiles, assets and tile-matching option.
pub open spec fn same_content(a: BankBuilder, b: BankBuilder) -> bool {
    &&& a.tile_model() == b.tile_model()
    &&& a.single_tiles@ == b.single_tiles@
    &&& a.maps@ == b.maps@
    &&& a.strips@ == b.strips@
    &&& a.anims@ == b.anims@
    &&& a.allow_tile_transforms == b.allow_tile_transforms
}

/// The image given for request `i`: none past the end of the list.
pub open spec fn image_for(images: Seq<Option<PalettizedImg>>, i: int) -> Option<PalettizedImg> {
    if 0 <= i < images.len() {
        images[i]
    } else {
        None
    }
}

/// The single-tile name given for request `i`: empty past the end of the list.
pub open spec fn name_for(names: Seq<String>, i: int) -> Seq<char> {
    if 0 <= i < names.len() {
        names[i]@
    } else {
        Seq::empty()
    }
}

/// Step `i` of carrying out `commands` through the builder states `states`: request `i`
/// took `states[i]` to `states[i + 1]`, succeeding unless it is the last step and the
/// whole run ended with the error `r`.
pub open spec fn step_ok(
    states: Seq<BankBuilder>,
    commands: Seq<DeferredCommand>,
    images: Seq<Option<PalettizedImg>>,
    names: Seq<String>,
    r: Result<(), BankError>,
    i: int,
) -> bool {
    command_run(
        states[i],
        states[i + 1],
        commands[i],
        image_for(images, i),
        name_for(names, i),
        if i == states.len() - 2 && r is Err {
            r
        } else {
            Ok(())
        },
    )
}

impl BankBuilder {
    /// The tile part of the builder, as values.
    pub open spec fn tile_model(self) -> TileModel {
        (
            table_view(self.tiles_to_cells@),
            self.original_source_pixels@.map_values(|p: Pixels| p@),
            self.pixels@,
            self.next_tile as int,
        )
    }

    /// `self` and `other` agree on everything but the tiles.
    pub open spec fn same_assets(self, other: BankBuilder) -> bool {
        &&& self.allow_tile_transforms == other.allow_tile_transforms
        &&& self.allow_unused == other.allow_unused
        &&& self.write_colors == other.write_colors
        &&& self.write_tiles == other.write_tiles
        &&& self.write_animations == other.write_animations
        &&& self.use_crate_assets == other.use_crate_assets
        &&& self.name@ == other.name@
        &&& self.strips@ == other.strips@
        &&& self.anims@ == other.anims@
        &&& self.maps@ == other.maps@
        &&& self.single_tiles@ == other.single_tiles@
        &&& self.deferred_commands@ == other.deferred_commands@
    }

    /// A builder with the given name, every option on but unused-code warnings, and
    /// nothing added.
    pub fn new(name: &str) -> (r: Self)
        ensures
            r.allow_tile_transforms,
            !r.allow_unused,
            r.write_colors,
            r.write_tiles,
            r.write_animations,
            !r.use_crate_assets,
            r.name@ == name@,
            r.tile_model() == (Seq::<(Seq<u8>, Cell)>::empty(), Seq::<Seq<u8>>::empty(), Seq::<u8>::empty(), 0int),
            r.strips@.len() == 0,
            r.anims@.len() == 0,
            r.maps@.len() == 0,
            r.single_tiles@.len() == 0,
            r.deferred_commands@.len() == 0,
            model_ok(r.tile_model()),
            r.wf(),
    {
        let r = Self {
            allow_tile_transforms: true,
            allow_unused: false,
            use_crate_assets: false,
            write_colors: true,
            write_tiles: true,
            write_animations: true,
            name: name.to_string(),
            pixels: Vec::new(),
            tiles_to_cells: Vec::new(),
            original_source_pixels: Vec::new(),
            strips: Vec::new(),
            anims: Vec::new(),
            maps: Vec::new(),
            single_tiles: Vec::new(),
            next_tile: 0,
            deferred_commands: Vec::new(),
        };
        assert(r.tile_model().0 =~= Seq::<(Seq<u8>, Cell)>::empty());
        assert(r.tile_model().1 =~= Seq::<Seq<u8>>::empty());
        r
    }

    /// The builder is consistent: its tile model is, it keeps 64 canonical indices per
    /// stored tile, every strip has a frame, and every animation names a strip.
    pub open spec fn wf(self) -> bool {
        &&& model_ok(self.tile_model())
        &&& pixels_ok(self.tile_model())
        &&& forall|k: int| 0 <= k < self.strips@.len() ==> (#[trigger] self.strips@[k]).frames@.len() > 0
        &&& forall|k: int|
            0 <= k < self.anims@.len() ==> strip_position(self.strips@, (#[trigger] self.anims@[k]).strip_name@, 0) is Some
    }

    /// `self` and `other` have the same options, name and requests.
    pub open spec fn same_setup(self, other: BankBuilder) -> bool {
        &&& self.allow_tile_transforms == other.allow_tile_transforms
        &&& self.allow_unused == other.allow_unused
        &&& self.write_colors == other.write_colors
        &&& self.write_tiles == other.write_tiles
        &&& self.write_animations == other.write_animations
        &&& self.use_crate_assets == other.use_crate_assets
        &&& self.name@ == other.name@
        &&& self.deferred_commands@ == other.deferred_commands@
    }

    /// Records a request to add a single tile from an image file.
    pub fn new_tile(&mut self, path: &str)
        ensures
            final(self).deferred_commands@.drop_last() == old(self).deferred_commands@,
            final(self).deferred_commands@.last() matches DeferredCommand::NewTile { path: p } && p@ == path@,
            final(self).tile_model() == old(self).tile_model(),
    {
        self.deferred_commands.push(DeferredCommand::NewTile { path: path.to_string() });
        assert(self.deferred_commands@.drop_last() =~= old(self).deferred_commands@);
    }

    /// Records a request to add an empty (transparent) tile.
    pub fn new_empty_tile(&mut self)
        ensures
            final(self).deferred_commands@ == old(self).deferred_commands@.push(DeferredCommand::NewEmptyTile),
            final(self).tile_model() == old(self).tile_model(),
    {
        self.deferred_commands.push(DeferredCommand::NewEmptyTile);
    }

    /// Records a request to add a tilemap from an image file.
    pub fn new_map(&mut self, path: &str, name: &str)
        ensures
            final(self).deferred_commands@.drop_last() == old(self).deferred_commands@,
            final(self).deferred_commands@.last() matches DeferredCommand::NewMap { path: p, name: n } && p@
                == path@ && n@ == name@,
            final(self).tile_model() == old(self).tile_model(),
    {
        self.deferred_commands.push(DeferredCommand::NewMap { path: path.to_string(), name: name.to_string() });
        assert(self.deferred_commands@.drop_last() =~= old(self).deferred_commands@);
    }

    /// Records a request to add an animation strip from an image file with the given
    /// frame layout.
    pub fn new_animation_strip(&mut self, path: &str, name: &str, frames_h: u8, frames_v: u8)
        ensures
            final(self).deferred_commands@.drop_last() == old(self).deferred_commands@,
            final(self).deferred_commands@.last() matches DeferredCommand::NewAnimationStrip {
                path: p,
                name: n,
                frames_h: h,
                frames_v: v,
            } && p@ == path@ && n@ == name@ && h == frames_h && v == frames_v,
            final(self).tile_model() == old(self).tile_model(),
    {
        self.deferred_commands.push(
            DeferredCommand::NewAnimationStrip { path: path.to_string(), name: name.to_string(), frames_h, frames_v },
        );
        assert(self.deferred_commands@.drop_last() =~= old(self).deferred_commands@);
    }

    /// Records a request to define an animation over frames of a strip.
    pub fn new_anim<const LEN: usize>(&mut self, anim_name: &str, strip_name: &str, fps: u8, repeat: bool, frames: [u8; LEN])
        ensures
            final(self).deferred_commands@.drop_last() == old(self).deferred_commands@,
            final(self).deferred_commands@.last() matches DeferredCommand::NewAnim {
                name: n,
                fps: f,
                repeat: r,
                strip_name: s,
                frames: fr,
            } && n@ == anim_name@ && f == fps && r == repeat && s@ == strip_name@ && fr@ == frames@,
            final(self).tile_model() == old(self).tile_model(),
    {
        let mut list: Vec<u8> = Vec::new();
        let mut i: usize = 0;
        while i < LEN
            invariant
                i <= LEN,
                frames@.len() == LEN,
                list@ == frames@.take(i as int),
            decreases LEN - i,
        {
            list.push(frames[i]);
            i += 1;
            assert(list@ =~= frames@.take(i as int));
        }
        assert(frames@.take(LEN as int) =~= frames@);
        self.deferred_commands.push(
            DeferredCommand::NewAnim {
                name: anim_name.to_string(),
                fps,
                repeat,
                strip_name: strip_name.to_string(),
                frames: list,
            },
        );
        assert(self.deferred_commands@.drop_last() =~= old(self).deferred_commands@);
    }

    /// Whether writing the bank produces anything worth registering: a map, a single
    /// tile, an animation, a strip, a stored tile, or a palette color (`palette_colors`
    /// of them).
    pub fn has_content(&self, palette_colors: usize) -> (r: bool)
        ensures
            r == (self.maps@.len() > 0 || self.single_tiles@.len() > 0 || self.anims@.len() > 0
                || self.strips@.len() > 0 || self.pixels@.len() > 0 || palette_colors > 0),
    {
        !self.maps.is_empty() || !self.single_tiles.is_empty() || !self.anims.is_empty()
            || !self.strips.is_empty() || !self.pixels.is_empty() || palette_colors > 0
    }

    /// The position of the strip named `name`.
    pub fn find_strip(&self, name: &str) -> (r: Option<usize>)
        ensures
            r matches Some(i) ==> strip_position(self.strips@, name@, 0) == Some(i as int),
            r is None ==> strip_position(self.strips@, name@, 0) is None,
    {
        let mut i: usize = 0;
        while i < self.strips.len()
            invariant
                i <= self.strips@.len(),
                strip_position(self.strips@, name@, 0) == strip_position(self.strips@, name@, i as int),
            decreases self.strips@.len() - i,
        {
            if str_equal(self.strips[i].name.as_str(), name) {
                return Some(i);
            }
            i += 1;
        }
        None
    }

    /// Adds the single tile of `img` and records it under `name`.
    pub fn add_single_tile(&mut self, name: String, img: &PalettizedImg) -> (r: Cell)
        requires
            model_ok(old(self).tile_model()),
            img_ok(*img),
            img.width == 8,
            img.frames_h == 1,
            img.frames_v == 1,
            img.cols_per_frame == 1,
            img.rows_per_frame == 1,
            tiles_fit(old(self).tile_model(), *img, old(self).allow_tile_transforms, 1),
        ensures
            final(self).tile_model() == tiles_added(old(self).tile_model(), *img, old(self).allow_tile_transforms, 1).0,
            r == tiles_added(old(self).tile_model(), *img, old(self).allow_tile_transforms, 1).1[0],
            model_ok(final(self).tile_model()),
            final(self).single_tiles@.drop_last() == old(self).single_tiles@,
            final(self).single_tiles@.last().name@ == name@,
            final(self).single_tiles@.last().cell == r,
            final(self).same_setup(*old(self)),
            final(self).maps@ == old(self).maps@,
            final(self).strips@ == old(self).strips@,
            final(self).anims@ == old(self).anims@,
    {
        assert(frame_count(*img) * per_frame(*img) == 1);
        let cells = self.add_tiles(img);
        proof {
            lemma_tiles_added_len(old(self).tile_model(), *img, old(self).allow_tile_transforms, 1);
            assert(cells@[0]@.len() == 1);
        }
        let cell = cells[0][0];
        self.single_tiles.push(SingleTileBuilder { name, cell });
        assert(self.single_tiles@.drop_last() =~= old(self).single_tiles@);
        cell
    }

    /// Adds the empty tile: a tile of palette index 0, recorded as `EMPTY`.
    pub fn add_empty_tile(&mut self) -> (r: Cell)
        requires
            model_ok(old(self).tile_model()),
            tile_fits(old(self).tile_model(), Seq::new(64, |i: int| 0u8), old(self).allow_tile_transforms),
        ensures
            (final(self).tile_model(), r) == tile_added(
                old(self).tile_model(),
                Seq::new(64, |i: int| 0u8),
                old(self).allow_tile_transforms,
            ),
            model_ok(final(self).tile_model()),
            final(self).single_tiles@.drop_last() == old(self).single_tiles@,
            final(self).single_tiles@.last().name@ == "EMPTY"@,
            final(self).single_tiles@.last().cell == r,
            final(self).same_setup(*old(self)),
            final(self).maps@ == old(self).maps@,
            final(self).strips@ == old(self).strips@,
            final(self).anims@ == old(self).anims@,
    {
        let img = PalettizedImg::empty();
        proof {
            let m = old(self).tile_model();
            let allow = old(self).allow_tile_transforms;
            assert(nth_tile(img, 0) =~= Seq::new(64, |i: int| 0u8));
            assert(tiles_added(m, img, allow, 0) == (m, Seq::<Cell>::empty()));
            assert(tiles_fit(m, img, allow, 0));
            assert(tiles_fit(m, img, allow, 1));
        }
        self.add_single_tile("EMPTY".to_string(), &img)
    }

    /// Adds the tiles of `img`, a single frame, as the tilemap `name`.
    pub fn add_map(&mut self, name: String, img: &PalettizedImg)
        requires
            model_ok(old(self).tile_model()),
            img_ok(*img),
            frame_count(*img) == 1,
            img.cols_per_frame <= 255,
            img.rows_per_frame <= 255,
            tiles_fit(
                old(self).tile_model(),
                *img,
                old(self).allow_tile_transforms,
                frame_count(*img) * per_frame(*img),
            ),
        ensures
            final(self).tile_model() == tiles_added(
                old(self).tile_model(),
                *img,
                old(self).allow_tile_transforms,
                frame_count(*img) * per_frame(*img),
            ).0,
            model_ok(final(self).tile_model()),
            final(self).maps@.drop_last() == old(self).maps@,
            final(self).maps@.last().name@ == name@,
            final(self).maps@.last().columns == img.cols_per_frame,
            final(self).maps@.last().rows == img.rows_per_frame,
            final(self).maps@.last().cells@ == frames_of(old(self).tile_model(), *img, old(self).allow_tile_transforms)[0],
            final(self).same_setup(*old(self)),
            final(self).single_tiles@ == old(self).single_tiles@,
            final(self).strips@ == old(self).strips@,
            final(self).anims@ == old(self).anims@,
    {
        let mut frames = self.add_tiles(img);
        let cells = copy_cells(&frames[0]);
        let map = MapBuilder {
            name,
            columns: img.cols_per_frame as u8,
            rows: img.rows_per_frame as u8,
            cells,
        };
        self.maps.push(map);
        assert(self.maps@.drop_last() =~= old(self).maps@);
    }

    /// Adds the tiles of `img` as the animation strip `name`, one tilemap per frame,
    /// replacing a strip of that name.
    pub fn add_animation_strip(&mut self, name: String, img: &PalettizedImg)
        requires
            model_ok(old(self).tile_model()),
            img_ok(*img),
            frame_count(*img) > 0,
            img.cols_per_frame <= 255,
            img.rows_per_frame <= 255,
            tiles_fit(
                old(self).tile_model(),
                *img,
                old(self).allow_tile_transforms,
                frame_count(*img) * per_frame(*img),
            ),
        ensures
            final(self).tile_model() == tiles_added(
                old(self).tile_model(),
                *img,
                old(self).allow_tile_transforms,
                frame_count(*img) * per_frame(*img),
            ).0,
            model_ok(final(self).tile_model()),
            ({
                let made = |strip: StripBuilder|
                    strip_made(
                        strip,
                        name@,
                        frames_of(old(self).tile_model(), *img, old(self).allow_tile_transforms),
                        img.cols_per_frame as u8,
                        img.rows_per_frame as u8,
                    );
                match strip_position(old(self).strips@, name@, 0) {
                    Some(p) => final(self).strips@.len() == old(self).strips@.len() && made(final(self).strips@[p])
                        && forall|j: int|
                        0 <= j < old(self).strips@.len() && j != p ==> #[trigger] final(self).strips@[j]
                            == old(self).strips@[j],
                    None => final(self).strips@.drop_last() == old(self).strips@ && made(final(self).strips@.last()),
                }
            }),
            final(self).same_setup(*old(self)),
            final(self).single_tiles@ == old(self).single_tiles@,
            final(self).maps@ == old(self).maps@,
            final(self).anims@ == old(self).anims@,
    {
        let ghost all = frames_of(old(self).tile_model(), *img, old(self).allow_tile_transforms);
        let frames = self.add_tiles(img);
        assert(frames@.map_values(|f: Vec<Cell>| f@) =~= all);
        self.put_strip(name, &frames, img.cols_per_frame as u8, img.rows_per_frame as u8);
    }

    /// Records the strip `name` made of the frames `frames`, each `columns` by `rows`
    /// tiles, replacing a strip of that name.
    fn put_strip(&mut self, name: String, frames: &Vec<Vec<Cell>>, columns: u8, rows: u8)
        ensures
            ({
                let made = |strip: StripBuilder|
                    strip_made(strip, name@, frames@.map_values(|f: Vec<Cell>| f@), columns, rows);
                match strip_position(old(self).strips@, name@, 0) {
                    Some(p) => final(self).strips@.len() == old(self).strips@.len() && made(final(self).strips@[p])
                        && forall|j: int|
                        0 <= j < old(self).strips@.len() && j != p ==> #[trigger] final(self).strips@[j]
                            == old(self).strips@[j],
                    None => final(self).strips@.len() == old(self).strips@.len() + 1 && final(self).strips@.drop_last()
                        == old(self).strips@ && made(final(self).strips@.last()),
                }
            }),
            final(self).tile_model() == old(self).tile_model(),
            final(self).same_setup(*old(self)),
            final(self).single_tiles@ == old(self).single_tiles@,
            final(self).maps@ == old(self).maps@,
            final(self).anims@ == old(self).anims@,
    {
        let ghost all = frames@.map_values(|f: Vec<Cell>| f@);
        let count = frames.len();
        let mut strip_frames: Vec<MapBuilder> = Vec::new();
        let mut i: usize = 0;
        while i < count
            invariant
                i <= count,
                count == frames@.len(),
                all == frames@.map_values(|f: Vec<Cell>| f@),
                strip_frames@.len() == i,
                forall|k: int|
                    0 <= k < i ==> {
                        let frame = #[trigger] strip_frames@[k];
                        &&& frame.name@ == frame_name(k as nat)
                        &&& frame.columns == columns
                        &&& frame.rows == rows
                        &&& frame.cells@ == all[k]
                    },
            decreases count - i,
        {
            let cells = copy_cells(&frames[i]);
            strip_frames.push(MapBuilder { name: frame_name_of(i), columns, rows, cells });
            i += 1;
        }
        let strip = StripBuilder { name: name.clone(), frames: strip_frames };
        proof {
            lemma_strip_position(self.strips@, name@, 0);
        }
        match self.find_strip(name.as_str()) {
            Some(p) => {
                self.strips.set(p, strip);
            },
            None => {
                self.strips.push(strip);
                assert(self.strips@.drop_last() =~= old(self).strips@);
            },
        }
    }

    /// Carries out one request with the image it reads (`None` for a request that reads
    /// none) and, for a single tile, the name it is recorded under; see `command_run`.
    pub fn run_command(&mut self, command: &DeferredCommand, image: Option<PalettizedImg>, tile_name: &str) -> (r:
        Result<(), BankError>)
        requires
            old(self).wf(),
        ensures
            final(self).wf(),
            final(self).same_setup(*old(self)),
            command_run(*old(self), *final(self), *command, image, tile_name@, r),
    {
        match command {
            DeferredCommand::NewEmptyTile => self.run_empty_tile(command, image, tile_name),
            DeferredCommand::NewTile { .. } => self.run_new_tile(command, image, tile_name),
            DeferredCommand::NewMap { .. } => self.run_new_map(command, image, tile_name),
            DeferredCommand::NewAnimationStrip { .. } => self.run_new_strip(command, image, tile_name),
            DeferredCommand::NewAnim { .. } => self.run_new_anim(command, image, tile_name),
        }
    }

    /// Whether the builder is consistent; see `wf`.
    pub fn is_consistent(&self) -> (r: bool)
        ensures
            r == self.wf(),
    {
        let next = self.next_tile as usize;
        if self.original_source_pixels.len() != next || self.pixels.len() != 64 * next {
            return false;
        }
        let ghost m = self.tile_model();
        let mut j: usize = 0;
        while j < self.tiles_to_cells.len()
            invariant
                j <= self.tiles_to_cells@.len(),
                m == self.tile_model(),
                forall|k: int| 0 <= k < j ==> (#[trigger] m.0[k]).1.id.0 < m.3,
            decreases self.tiles_to_cells@.len() - j,
        {
            if self.tiles_to_cells[j].1.id.0 >= self.next_tile {
                assert(m.0[j as int].1 == self.tiles_to_cells@[j as int].1);
                assert(!model_ok(m));
                return false;
            }
            j += 1;
        }
        let mut t: usize = 0;
        while t < next
            invariant
                t <= next,
                next == self.original_source_pixels@.len(),
                m == self.tile_model(),
                forall|k: int| 0 <= k < t ==> stored_ok(#[trigger] m.1[k]),
            decreases next - t,
        {
            let source = &self.original_source_pixels[t];
            let mut i: usize = 0;
            #[verifier::loop_isolation(false)]
            while i < 64
                invariant
                    i <= 64,
                    forall|k: int| 0 <= k < i ==> source@[k] < 16,
                decreases 64 - i,
            {
                if source[i] >= 16 {
                    assert(m.1[t as int] == source@);
                    assert(!colors_ok(m.1[t as int]));
                    assert(!stored_ok(m.1[t as int]));
                    assert(!model_ok(m));
                    return false;
                }
                i += 1;
            }
            let (_, _, colors) = create_canonical_tile(source);
            if colors.len() > 4 {
                assert(m.1[t as int] == source@);
                assert(!stored_ok(m.1[t as int]));
                assert(!model_ok(m));
                return false;
            }
            assert(m.1[t as int] == source@);
            t += 1;
        }
        let mut k: usize = 0;
        while k < self.strips.len()
            invariant
                k <= self.strips@.len(),
                forall|q: int| 0 <= q < k ==> (#[trigger] self.strips@[q]).frames@.len() > 0,
            decreases self.strips@.len() - k,
        {
            if self.strips[k].frames.len() == 0 {
                return false;
            }
            k += 1;
        }
        let mut a: usize = 0;
        while a < self.anims.len()
            invariant
                a <= self.anims@.len(),
                forall|q: int|
                    0 <= q < a ==> strip_position(self.strips@, (#[trigger] self.anims@[q]).strip_name@, 0) is Some,
            decreases self.anims@.len() - a,
        {
            if self.find_strip(self.anims[a].strip_name.as_str()).is_none() {
                return false;
            }
            a += 1;
        }
        true
    }

    /// Carries out the recorded requests in order, request `i` with `images[i]` and, for a
    /// single tile, the name `tile_names[i]` (none and empty past the ends of the lists),
    /// stopping at the first that fails with its error. The requests stay recorded.
    pub fn run_commands(&mut self, images: Vec<Option<PalettizedImg>>, tile_names: &Vec<String>) -> (r: Result<
        (),
        BankError,
    >)
        requires
            old(self).wf(),
        ensures
            final(self).wf(),
            final(self).same_setup(*old(self)),
            exists|states: Seq<BankBuilder>|
                #[trigger] run_trace(states, *old(self), *final(self), images@, tile_names@, r),
    {
        let ghost images0 = images@;
        let ghost commands0 = self.deferred_commands@;
        let mut commands: Vec<DeferredCommand> = Vec::new();
        std::mem::swap(&mut commands, &mut self.deferred_commands);
        let ghost start = *self;
        let ghost mut states: Seq<BankBuilder> = seq![*self];
        let mut images = images;
        let mut i: usize = 0;
        #[verifier::loop_isolation(false)]
        while i < commands.len()
            invariant
                i <= commands@.len(),
                commands@ == commands0,
                commands0 == old(self).deferred_commands@,
                self.wf(),
                self.allow_tile_transforms == old(self).allow_tile_transforms,
                self.allow_unused == old(self).allow_unused,
                self.write_colors == old(self).write_colors,
                self.write_tiles == old(self).write_tiles,
                self.write_animations == old(self).write_animations,
                self.use_crate_assets == old(self).use_crate_assets,
                self.name@ == old(self).name@,
                self.deferred_commands@.len() == 0,
                states.len() == i + 1,
                states[0] == start,
                same_content(start, *old(self)),
                states.last() == *self,
                i <= images0.len() ==> images@ == images0.skip(i as int),
                i > images0.len() ==> images@.len() == 0,
                forall|j: int| 0 <= j < i ==> #[trigger] step_ok(states, commands0, images0, tile_names@, Ok(()), j),
            decreases commands@.len() - i,
        {
            let image = if images.len() > 0 {
                images.remove(0)
            } else {
                None
            };
            proof {
                if images0.len() > i {
                    assert(images0.skip(i as int)[0] == images0[i as int]);
                }
                assert(image == image_for(images0, i as int));
            }
            let name: &str = if i < tile_names.len() {
                tile_names[i].as_str()
            } else {
                proof {
                    reveal_strlit("");
                }
                ""
            };
            assert(name@ == name_for(tile_names@, i as int));
            let ghost before = *self;
            let result = self.run_command(&commands[i], image, name);
            let ghost prev = states;
            proof {
                states = states.push(*self);
                assert forall|j: int| 0 <= j < i implies #[trigger] step_ok(states, commands0, images0, tile_names@, Ok(()), j) by {
                    assert(step_ok(prev, commands0, images0, tile_names@, Ok(()), j));
                    assert(states[j] == prev[j] && states[j + 1] == prev[j + 1]);
                }
            }
            match result {
                Err(e) => {
                    std::mem::swap(&mut commands, &mut self.deferred_commands);
                    proof {
                        assert(states[i as int] == before);
                        assert(step_ok(states, commands0, images0, tile_names@, Err(e), i as int));
                        assert forall|j: int| 0 <= j < states.len() - 1 implies #[trigger] step_ok(
                            states,
                            commands0,
                            images0,
                            tile_names@,
                            Err(e),
                            j,
                        ) by {
                            if j < i {
                                assert(step_ok(states, commands0, images0, tile_names@, Ok(()), j));
                            }
                        }
                        assert(same_content(states.last(), *self));
                        assert(same_content(states[0], *old(self)));
                        assert(1 <= states.len() <= old(self).deferred_commands@.len() + 1);
                        assert(run_trace(states, *old(self), *self, images0, tile_names@, Err(e)));
                    }
                    return Err(e);
                },
                Ok(()) => {
                    proof {
                        assert(states[i as int] == before);
                        assert(step_ok(states, commands0, images0, tile_names@, Ok(()), i as int));
                        if images0.len() > i {
                            assert(images@ =~= images0.skip(i + 1));
                        }
                    }
                },
            }
            i += 1;
        }
        std::mem::swap(&mut commands, &mut self.deferred_commands);
        assert(run_trace(states, *old(self), *self, images0, tile_names@, Ok(())));
        Ok(())
    }

    /// Carries out a `NewEmptyTile` request; see `command_run`.
    #[verifier::rlimit(30)]
    fn run_empty_tile(&mut self, command: &DeferredCommand, image: Option<PalettizedImg>, tile_name: &str) -> (r:
        Result<(), BankError>)
        requires
            old(self).wf(),
            *command is NewEmptyTile,
        ensures
            final(self).wf(),
            final(self).same_setup(*old(self)),
            command_run(*old(self), *final(self), *command, image, tile_name@, r),
    {
        let ghost m = self.tile_model();
        match command {
            DeferredCommand::NewEmptyTile => {
                let zero: Pixels = [0u8; 64];
                assert(zero@ =~= Seq::new(64, |i: int| 0u8));
                if !self.tile_fits_now(&zero) {
                    return Err(misfit_of(&zero));
                }
                proof {
                    lemma_tile_added_ok(m, zero@, self.allow_tile_transforms);
                }
                let cell = self.add_tile(&zero);
                self.single_tiles.push(SingleTileBuilder { name: "EMPTY".to_string(), cell });
                assert(self.single_tiles@.drop_last() =~= old(self).single_tiles@);
                Ok(())
            },
            _ => Err(BankError::MissingImage),
        }
    }

    /// Carries out a `NewTile` request; see `command_run`.
    #[verifier::rlimit(30)]
    fn run_new_tile(&mut self, command: &DeferredCommand, image: Option<PalettizedImg>, tile_name: &str) -> (r:
        Result<(), BankError>)
        requires
            old(self).wf(),
            *command is NewTile,
        ensures
            final(self).wf(),
            final(self).same_setup(*old(self)),
            command_run(*old(self), *final(self), *command, image, tile_name@, r),
    {
        let ghost m = self.tile_model();
        match command {
            DeferredCommand::NewTile { path } => {
                let img = match image {
                    None => {
                        return Err(BankError::MissingImage);
                    },
                    Some(img) => img,
                };
                if !check_image(&img) {
                    return Err(BankError::InvalidImage);
                }
                if !(img.width == 8 && img.frames_h == 1 && img.frames_v == 1 && img.cols_per_frame == 1
                    && img.rows_per_frame == 1) {
                    return Err(BankError::NotSingleTile);
                }
                assert(frame_count(img) * per_frame(img) == 1);
                let frames = match self.try_add_tiles(&img) {
                    Err(e) => {
                        return Err(e);
                    },
                    Ok(frames) => frames,
                };
                proof {
                    lemma_tiles_added_len(m, img, old(self).allow_tile_transforms, 1);
                    assert(frame_count(img) == 1 && per_frame(img) == 1);
                    assert(frames@[0]@ == tiles_added(m, img, old(self).allow_tile_transforms, 1).1.subrange(0, 1));
                    assert(frames@[0]@.len() == 1);
                }
                let cell = frames[0][0];
                self.single_tiles.push(SingleTileBuilder { name: tile_name.to_string(), cell });
                assert(self.single_tiles@.drop_last() =~= old(self).single_tiles@);
                Ok(())
            },
            _ => Err(BankError::MissingImage),
        }
    }

    /// Carries out a `NewMap` request; see `command_run`.
    #[verifier::rlimit(30)]
    fn run_new_map(&mut self, command: &DeferredCommand, image: Option<PalettizedImg>, tile_name: &str) -> (r:
        Result<(), BankError>)
        requires
            old(self).wf(),
            *command is NewMap,
        ensures
            final(self).wf(),
            final(self).same_setup(*old(self)),
            command_run(*old(self), *final(self), *command, image, tile_name@, r),
    {
        let ghost m = self.tile_model();
        match command {
            DeferredCommand::NewMap { path, name } => {
                let img = match image {
                    None => {
                        return Err(BankError::MissingImage);
                    },
                    Some(img) => img,
                };
                if !check_image(&img) {
                    return Err(BankError::InvalidImage);
                }
                if !(img.frames_h == 1 && img.frames_v == 1) {
                    assert(frame_count(img) != 1) by (nonlinear_arith)
                        requires
                            !(img.frames_h == 1 && img.frames_v == 1),
                            frame_count(img) == img.frames_h * img.frames_v,
                            0 <= img.frames_h,
                            0 <= img.frames_v,
                    ;
                    return Err(BankError::NotSingleFrame);
                }
                if img.cols_per_frame > 255 || img.rows_per_frame > 255 {
                    return Err(BankError::MapTooLarge);
                }
                let frames = match self.try_add_tiles(&img) {
                    Err(e) => {
                        return Err(e);
                    },
                    Ok(frames) => frames,
                };
                let cells = copy_cells(&frames[0]);
                self.maps.push(
                    MapBuilder {
                        name: name.clone(),
                        columns: img.cols_per_frame as u8,
                        rows: img.rows_per_frame as u8,
                        cells,
                    },
                );
                assert(self.maps@.drop_last() =~= old(self).maps@);
                Ok(())
            },
            _ => Err(BankError::MissingImage),
        }
    }

    /// Carries out a `NewAnimationStrip` request; see `command_run`.
    #[verifier::rlimit(30)]
    fn run_new_strip(&mut self, command: &DeferredCommand, image: Option<PalettizedImg>, tile_name: &str) -> (r:
        Result<(), BankError>)
        requires
            old(self).wf(),
            *command is NewAnimationStrip,
        ensures
            final(self).wf(),
            final(self).same_setup(*old(self)),
            command_run(*old(self), *final(self), *command, image, tile_name@, r),
    {
        let ghost m = self.tile_model();
        match command {
            DeferredCommand::NewAnimationStrip { path, name, frames_h, frames_v } => {
                let img = match image {
                    None => {
                        return Err(BankError::MissingImage);
                    },
                    Some(img) => img,
                };
                if !check_image(&img) {
                    return Err(BankError::InvalidImage);
                }
                if img.frames_h == 0 || img.frames_v == 0 {
                    assert(frame_count(img) == 0) by (nonlinear_arith)
                        requires
                            img.frames_h == 0 || img.frames_v == 0,
                            frame_count(img) == img.frames_h * img.frames_v,
                    ;
                    return Err(BankError::NoFrames);
                }
                assert(frame_count(img) > 0) by (nonlinear_arith)
                    requires
                        img.frames_h > 0,
                        img.frames_v > 0,
                        frame_count(img) == img.frames_h * img.frames_v,
                ;
                if img.cols_per_frame > 255 || img.rows_per_frame > 255 {
                    return Err(BankError::MapTooLarge);
                }
                let ghost all = frames_of(m, img, old(self).allow_tile_transforms);
                let frames = match self.try_add_tiles(&img) {
                    Err(e) => {
                        return Err(e);
                    },
                    Ok(frames) => frames,
                };
                assert(frames@.map_values(|f: Vec<Cell>| f@) =~= all);
                let ghost before = self.strips@;
                proof {
                    lemma_strip_position(before, name@, 0);
                }
                self.put_strip(name.clone(), &frames, img.cols_per_frame as u8, img.rows_per_frame as u8);
                proof {
                    let made = |strip: StripBuilder|
                        strip_made(strip, name@, all, img.cols_per_frame as u8, img.rows_per_frame as u8);
                    assert forall|k: int| 0 <= k < self.strips@.len() implies (#[trigger] self.strips@[k]).frames@.len()
                        > 0 by {
                        match strip_position(before, name@, 0) {
                            Some(p) => {
                                if k != p {
                                    assert(self.strips@[k] == before[k]);
                                }
                            },
                            None => {
                                if k < before.len() {
                                    assert(self.strips@.drop_last()[k] == before[k]);
                                }
                            },
                        }
                    }
                    assert forall|k: int| 0 <= k < self.anims@.len() implies strip_position(
                        self.strips@,
                        (#[trigger] self.anims@[k]).strip_name@,
                        0,
                    ) is Some by {
                        let n = self.anims@[k].strip_name@;
                        match strip_position(before, name@, 0) {
                            Some(p) => {
                                assert(self.strips@ =~= before.update(p, self.strips@[p]));
                                lemma_strip_position_kept(before, n, 0, p, self.strips@[p]);
                            },
                            None => {
                                assert(self.strips@ =~= before.push(self.strips@.last()));
                                lemma_strip_position_push(before, n, 0, self.strips@.last());
                            },
                        }
                    }
                }
                Ok(())
            },
            _ => Err(BankError::MissingImage),
        }
    }

    /// Carries out a `NewAnim` request; see `command_run`.
    #[verifier::rlimit(30)]
    fn run_new_anim(&mut self, command: &DeferredCommand, image: Option<PalettizedImg>, tile_name: &str) -> (r:
        Result<(), BankError>)
        requires
            old(self).wf(),
            *command is NewAnim,
        ensures
            final(self).wf(),
            final(self).same_setup(*old(self)),
            command_run(*old(self), *final(self), *command, image, tile_name@, r),
    {
        let ghost m = self.tile_model();
        match command {
            DeferredCommand::NewAnim { name, fps, repeat, strip_name, frames } => {
                if self.anims.len() >= 255 {
                    return Err(BankError::AnimLimit);
                }
                let p = match self.find_strip(strip_name.as_str()) {
                    None => {
                        return Err(BankError::UnknownStrip);
                    },
                    Some(p) => p,
                };
                proof {
                    lemma_strip_position(self.strips@, strip_name@, 0);
                }
                let count = self.strips[p].frames.len();
                let mut k: usize = 0;
                #[verifier::loop_isolation(false)]
                while k < frames.len()
                    invariant
                        k <= frames@.len(),
                        count == old(self).strips@[p as int].frames@.len(),
                        forall|j: int| 0 <= j < k ==> (#[trigger] frames@[j] as int) < count,
                    decreases frames@.len() - k,
                {
                    if frames[k] as usize >= count {
                        return Err(BankError::InvalidFrame);
                    }
                    k += 1;
                }
                let list = copy_bytes(frames);
                self.anims.push(
                    Anim { name: name.clone(), fps: *fps, repeat: *repeat, frames: list, strip_name: strip_name.clone() },
                );
                assert(self.anims@.drop_last() =~= old(self).anims@);
                Ok(())
            },
            _ => Err(BankError::MissingImage),
        }
    }

    /// Defines the animation `name` over the frames `frames` of the strip `strip_name`.
    pub fn add_anim(&mut self, name: String, fps: u8, repeat: bool, strip_name: String, frames: Vec<u8>)
        requires
            old(self).anims@.len() < 255,
            strip_position(old(self).strips@, strip_name@, 0) matches Some(p) && forall|k: int|
                0 <= k < frames@.len() ==> (#[trigger] frames@[k] as int) < old(self).strips@[p].frames@.len(),
        ensures
            final(self).anims@.drop_last() == old(self).anims@,
            final(self).anims@.last().name@ == name@,
            final(self).anims@.last().fps == fps,
            final(self).anims@.last().repeat == repeat,
            final(self).anims@.last().frames@ == frames@,
            final(self).anims@.last().strip_name@ == strip_name@,
            final(self).tile_model() == old(self).tile_model(),
            final(self).same_setup(*old(self)),
            final(self).single_tiles@ == old(self).single_tiles@,
            final(self).maps@ == old(self).maps@,
            final(self).strips@ == old(self).strips@,
    {
        self.anims.push(Anim { name, fps, repeat, frames, strip_name });
        assert(self.anims@.drop_last() =~= old(self).anims@);
    }

    /// The cell that reuses the stored tile of `existing_cell` for the tile
    /// `source_pixels`, with the palette that shows its colors.
    fn create_reused_cell(&self, existing_cell: Cell, source_pixels: &Pixels) -> (r: Cell)
        requires
            model_ok(self.tile_model()),
            colors_ok(source_pixels@),
            existing_cell.id.0 < self.next_tile,
        ensures
            r == reused_cell(self.tile_model(), existing_cell, source_pixels@),
    {
        let stored_pixels = self.original_source_pixels[existing_cell.id.0 as usize];
        let ghost m = self.tile_model();
        proof {
            assert(m.1[existing_cell.id.0 as int] == stored_pixels@);
            assert(stored_ok(m.1[existing_cell.id.0 as int]));
            lemma_stored_canonical(stored_pixels@);
        }
        let (_, stored_canonical, _) = create_canonical_tile(&stored_pixels);
        assert(stored_canonical@ =~= canonical_of(stored_pixels@));
        let flip_x = existing_cell.flags.is_flipped_x();
        let flip_y = existing_cell.flags.is_flipped_y();
        let rotation = existing_cell.flags.is_rotated();
        proof {
            assert forall|k: u8| k < 4 implies ((#[trigger] first_seen_from(
                source_pixels@,
                stored_canonical@,
                flip_x,
                flip_y,
                rotation,
                k,
                0,
            )) matches Some(c) ==> c < 16) by {
                lemma_first_seen_bound(source_pixels@, stored_canonical@, flip_x, flip_y, rotation, k, 0);
            }
        }
        let tile_colors = compute_tile_colors_with_transform(
            source_pixels,
            &stored_canonical,
            flip_x,
            flip_y,
            rotation,
        );
        Cell { id: existing_cell.id, flags: existing_cell.flags, colors: tile_colors }
    }

    /// Stores the tile `source_pixels` as a new tile (its canonical indices
    /// `canonical_indices`, its colors `palette_mapping`) and records its transformed
    /// forms; the cell of the new tile.
    fn create_new_tile(&mut self, canonical_indices: Pixels, palette_mapping: Vec<u8>, source_pixels: Pixels) -> (r:
        Cell)
        requires
            model_ok(old(self).tile_model()),
            stored_ok(source_pixels@),
            canonical_indices@ == canonical_of(source_pixels@),
            palette_mapping@ == sorted_colors(source_pixels@),
            old(self).next_tile < 255,
        ensures
            r == new_cell(old(self).tile_model(), source_pixels@),
            final(self).tile_model() == (
                if old(self).allow_tile_transforms {
                    stored_variants(old(self).tile_model().0, r, source_pixels@, 0)
                } else {
                    old(self).tile_model().0
                },
                old(self).tile_model().1.push(source_pixels@),
                old(self).tile_model().2 + canonical_of(source_pixels@),
                old(self).tile_model().3 + 1,
            ),
            final(self).same_assets(*old(self)),
    {
        proof {
            lemma_stored_canonical(source_pixels@);
        }
        let tile_colors = create_tile_colors_from_mapping(palette_mapping.as_slice());
        assert(tile_colors.slots() =~= padded(sorted_colors(source_pixels@)));
        let new_cell = Cell { id: TileID(self.next_tile), flags: TileFlags(0), colors: tile_colors };
        let ghost before = self.original_source_pixels@;
        self.original_source_pixels.push(source_pixels);
        assert(self.original_source_pixels@.map_values(|p: Pixels| p@) =~= before.map_values(|p: Pixels| p@).push(
            source_pixels@,
        ));
        let ghost old_pixels = self.pixels@;
        self.pixels.extend_from_slice(&canonical_indices);
        assert(self.pixels@ =~= old_pixels + canonical_of(source_pixels@));
        store_transformed_variants(&mut self.tiles_to_cells, new_cell, &source_pixels, self.allow_tile_transforms);
        self.next_tile = self.next_tile + 1;
        new_cell
    }

    /// Main workhorse: adds every tile of the image, frame by frame and in each frame row
    /// by row, storing new tiles and reusing matching ones; the cells of each frame.
    pub fn add_tiles(&mut self, img: &PalettizedImg) -> (r: Vec<Vec<Cell>>)
        requires
            model_ok(old(self).tile_model()),
            img_ok(*img),
            tiles_fit(
                old(self).tile_model(),
                *img,
                old(self).allow_tile_transforms,
                frame_count(*img) * per_frame(*img),
            ),
        ensures
            final(self).tile_model() == tiles_added(
                old(self).tile_model(),
                *img,
                old(self).allow_tile_transforms,
                frame_count(*img) * per_frame(*img),
            ).0,
            r@.len() == frame_count(*img),
            forall|f: int|
                0 <= f < frame_count(*img) ==> #[trigger] r@[f]@ == tiles_added(
                    old(self).tile_model(),
                    *img,
                    old(self).allow_tile_transforms,
                    frame_count(*img) * per_frame(*img),
                ).1.subrange(f * per_frame(*img), (f + 1) * per_frame(*img)),
            model_ok(final(self).tile_model()),
            final(self).same_assets(*old(self)),
    {
        match self.try_add_tiles(img) {
            Ok(frames) => frames,
            Err(_) => {
                proof {
                    assert(false);
                }
                Vec::new()
            },
        }
    }

    /// Whether the tile `source` can be added now.
    fn tile_fits_now(&self, source: &Pixels) -> (r: bool)
        requires
            model_ok(self.tile_model()),
        ensures
            r == tile_fits(self.tile_model(), source@, self.allow_tile_transforms),
    {
        let (canonical_tile, _, colors) = create_canonical_tile(source);
        assert(canonical_tile.pixels@ =~= structure_of(source@));
        let found = find_matching_tile(&self.tiles_to_cells, &canonical_tile, source, self.allow_tile_transforms);
        found.is_some() || (colors.len() <= 4 && self.next_tile < 255)
    }

    /// Adds every tile of the image, as `add_tiles` does, up to the first tile that
    /// cannot be added: that tile has more than four colors (`TooManyColors`), or no tile
    /// id is left for it (`TileLimit`). Succeeds exactly when every tile fits.
    pub fn try_add_tiles(&mut self, img: &PalettizedImg) -> (r: Result<Vec<Vec<Cell>>, BankError>)
        requires
            model_ok(old(self).tile_model()),
            img_ok(*img),
        ensures
            model_ok(final(self).tile_model()),
            pixels_ok(old(self).tile_model()) ==> pixels_ok(final(self).tile_model()),
            final(self).same_assets(*old(self)),
            r is Ok <==> tiles_fit(
                old(self).tile_model(),
                *img,
                old(self).allow_tile_transforms,
                frame_count(*img) * per_frame(*img),
            ),
            r matches Ok(frames) ==> {
                &&& final(self).tile_model() == tiles_added(
                    old(self).tile_model(),
                    *img,
                    old(self).allow_tile_transforms,
                    frame_count(*img) * per_frame(*img),
                ).0
                &&& frames@.len() == frame_count(*img)
                &&& forall|f: int|
                    0 <= f < frame_count(*img) ==> #[trigger] frames@[f]@ == tiles_added(
                        old(self).tile_model(),
                        *img,
                        old(self).allow_tile_transforms,
                        frame_count(*img) * per_frame(*img),
                    ).1.subrange(f * per_frame(*img), (f + 1) * per_frame(*img))
            },
            r matches Err(e) ==> exists|t: int|
                0 <= t < frame_count(*img) * per_frame(*img) && tiles_fit(
                    old(self).tile_model(),
                    *img,
                    old(self).allow_tile_transforms,
                    t,
                ) && !tile_fits(
                    tiles_added(old(self).tile_model(), *img, old(self).allow_tile_transforms, t).0,
                    nth_tile(*img, t),
                    old(self).allow_tile_transforms,
                ) && e == misfit_error(#[trigger] nth_tile(*img, t)),
    {
        let ghost m0 = self.tile_model();
        let ghost allow = self.allow_tile_transforms;
        let frames_h = img.frames_h as usize;
        let frames_v = img.frames_v as usize;
        assert(frames_h * frames_v <= 255 * 255) by (nonlinear_arith)
            requires
                frames_h <= 255,
                frames_v <= 255,
        ;
        let frame_total = frames_h * frames_v;
        let mut frames: Vec<Vec<Cell>> = Vec::new();
        if frame_total == 0 {
            assert(frame_count(*img) * per_frame(*img) == 0) by (nonlinear_arith)
                requires
                    frame_count(*img) == 0,
            ;
            return Ok(frames);
        }
        let cols = img.cols_per_frame;
        let rows = img.rows_per_frame;
        let pixel_count = img.pixels.len();
        proof {
            let w = img.width as int;
            let c = cols as int;
            let r = rows as int;
            let fh = frames_h as int;
            let fv = frames_v as int;
            assert((c * fh * 8) * (r * fv * 8) <= w * (8 * r * fv)) by (nonlinear_arith)
                requires
                    8 * c * fh <= w,
                    0 <= r,
                    0 <= fv,
            ;
            assert(64 * ((fh * fv) * (c * r)) == (c * fh * 8) * (r * fv * 8)) by (nonlinear_arith);
            assert(c * r <= (fh * fv) * (c * r)) by (nonlinear_arith)
                requires
                    1 <= fh * fv,
                    0 <= c * r,
            ;
            assert(0 <= c * r) by (nonlinear_arith)
                requires
                    0 <= c,
                    0 <= r,
            ;
        }
        let tiles_per_frame = cols * rows;
        let total = frame_total * tiles_per_frame;
        assert(0 < frames_h) by (nonlinear_arith)
            requires
                frame_total == frames_h * frames_v,
                frame_total != 0,
        ;
        assert(cols * frames_h <= img.width) by (nonlinear_arith)
            requires
                8 * cols * frames_h <= img.width,
        ;
        let mut flat: Vec<Cell> = Vec::new();
        let mut t: usize = 0;
        while t < total
            invariant
                t <= total,
                total == frame_total * tiles_per_frame,
                frame_total == frame_count(*img),
                tiles_per_frame == per_frame(*img),
                frames_h == img.frames_h,
                frames_v == img.frames_v,
                0 < frames_h,
                cols * frames_h <= img.width,
                img.pixels@.len() == pixel_count,
                cols == img.cols_per_frame,
                rows == img.rows_per_frame,
                img_ok(*img),
                allow == self.allow_tile_transforms,
                tiles_fit(m0, *img, allow, t as int),
                m0 == old(self).tile_model(),
                allow == old(self).allow_tile_transforms,
                model_ok(self.tile_model()),
                pixels_ok(m0) ==> pixels_ok(self.tile_model()),
                self.tile_model() == tiles_added(m0, *img, allow, t as int).0,
                flat@ == tiles_added(m0, *img, allow, t as int).1,
                self.same_assets(*old(self)),
            decreases total - t,
        {
            proof {
                assert(0 < tiles_per_frame) by (nonlinear_arith)
                    requires
                        t < frame_total * tiles_per_frame,
                ;
            }
            let f = t / tiles_per_frame;
            let k = t % tiles_per_frame;
            let frame_h = f % frames_h;
            let frame_v = f / frames_h;
            proof {
                assert(f < frame_total) by (nonlinear_arith)
                    requires
                        f == t / tiles_per_frame,
                        t < frame_total * tiles_per_frame,
                        0 < tiles_per_frame,
                ;
                assert(0 < cols);
                assert(frame_v < frames_v) by (nonlinear_arith)
                    requires
                        frame_v == f / frames_h,
                        f < frames_h * frames_v,
                        0 < frames_h,
                ;
                assert(k / cols < rows) by (nonlinear_arith)
                    requires
                        k < cols * rows,
                        0 < cols,
                ;
                assert(frame_h * cols + k % cols < cols * frames_h) by (nonlinear_arith)
                    requires
                        frame_h < frames_h,
                        k % cols < cols,
                ;
                assert(frame_v * rows + k / cols < rows * frames_v) by (nonlinear_arith)
                    requires
                        frame_v < frames_v,
                        k / cols < rows,
                ;
                assert(1 <= img.width) by (nonlinear_arith)
                    requires
                        cols * frames_h <= img.width,
                        0 < cols,
                        0 < frames_h,
                ;
                assert(rows * frames_v <= img.width * (8 * rows * frames_v)) by (nonlinear_arith)
                    requires
                        1 <= img.width,
                ;
            }
            let abs_col = frame_h * cols + k % cols;
            let abs_row = frame_v * rows + k / cols;
            let source_pixels = extract_tile_pixels(img, abs_col, abs_row);
            assert(source_pixels@ == nth_tile(*img, t as int));
            if !self.tile_fits_now(&source_pixels) {
                proof {
                    if tiles_fit(m0, *img, allow, total as int) {
                        lemma_tiles_fit_prefix(m0, *img, allow, total as int, t + 1);
                        assert(tiles_fit(m0, *img, allow, t + 1));
                        assert(false);
                    }
                    assert(total as int == frame_count(*img) * per_frame(*img));
                }
                let e = misfit_of(&source_pixels);
                assert(0 <= t < frame_count(*img) * per_frame(*img) && tiles_fit(m0, *img, allow, t as int)
                    && !tile_fits(tiles_added(m0, *img, allow, t as int).0, nth_tile(*img, t as int), allow)
                    && e == misfit_error(nth_tile(*img, t as int)));
                return Err(e);
            }
            let cell = self.add_tile(&source_pixels);
            proof {
                if pixels_ok(m0) {
                    lemma_tiles_added_pixels(m0, *img, allow, t + 1);
                }
            }
            flat.push(cell);
            t = t + 1;
        }
        proof {
            lemma_tiles_added_len(m0, *img, allow, total as int);
        }
        let mut f: usize = 0;
        while f < frame_total
            invariant
                f <= frame_total,
                total == frame_total * tiles_per_frame,
                flat@.len() == total,
                frames@.len() == f,
                forall|g: int|
                    0 <= g < f ==> #[trigger] frames@[g]@ == flat@.subrange(
                        g * tiles_per_frame,
                        (g + 1) * tiles_per_frame,
                    ),
            decreases frame_total - f,
        {
            let mut frame: Vec<Cell> = Vec::new();
            let mut k: usize = 0;
            proof {
                assert((f + 1) * tiles_per_frame <= total) by (nonlinear_arith)
                    requires
                        f < frame_total,
                        total == frame_total * tiles_per_frame,
                        0 <= tiles_per_frame,
                ;
                assert((f + 1) * tiles_per_frame == f * tiles_per_frame + tiles_per_frame) by (nonlinear_arith);
            }
            while k < tiles_per_frame
                invariant
                    k <= tiles_per_frame,
                    f * tiles_per_frame + tiles_per_frame <= total,
                    flat@.len() == total,
                    frame@ == flat@.subrange(f * tiles_per_frame, f * tiles_per_frame + k),
                decreases tiles_per_frame - k,
            {
                frame.push(flat[f * tiles_per_frame + k]);
                k = k + 1;
                assert(frame@ =~= flat@.subrange(f * tiles_per_frame, f * tiles_per_frame + k));
            }
            frames.push(frame);
            f = f + 1;
        }
        Ok(frames)
    }

    /// Adds the tile `source_pixels`: reuses a stored tile matching it, directly or,
    /// when transforms are allowed, flipped or rotated, else stores it as a new tile.
    pub fn add_tile(&mut self, source_pixels: &Pixels) -> (r: Cell)
        requires
            model_ok(old(self).tile_model()),
            colors_ok(source_pixels@),
            tile_fits(old(self).tile_model(), source_pixels@, old(self).allow_tile_transforms),
        ensures
            (final(self).tile_model(), r) == tile_added(
                old(self).tile_model(),
                source_pixels@,
                old(self).allow_tile_transforms,
            ),
            model_ok(final(self).tile_model()),
            final(self).same_assets(*old(self)),
    {
        let (canonical_tile, canonical_indices, palette_mapping) = create_canonical_tile(source_pixels);
        assert(canonical_indices@ =~= canonical_of(source_pixels@));
        assert(canonical_tile.pixels@ =~= structure_of(source_pixels@));
        let found_cell = find_matching_tile(
            &self.tiles_to_cells,
            &canonical_tile,
            source_pixels,
            self.allow_tile_transforms,
        );
        proof {
            lemma_matching_id(self.tile_model(), source_pixels@, self.allow_tile_transforms);
            lemma_tile_added_ok(self.tile_model(), source_pixels@, self.allow_tile_transforms);
        }
        match found_cell {
            Some(existing_cell) => self.create_reused_cell(existing_cell, source_pixels),
            None => self.create_new_tile(canonical_indices, palette_mapping, *source_pixels),
        }
    }
}

} // verus!
