use vstd::prelude::*;
use vstd::arithmetic::div_mod::{lemma_fundamental_div_mod, lemma_mod_bound};
use crate::video::tile_flags::{
    TileFlags, has_flag, transform_source, lemma_transform_in_tile, FLAG_FLIP_H, FLAG_FLIP_V, FLAG_ROTATED,
};

verus! {

/// The color depths a cluster supports: 1, 2 or 4 bits per pixel.
pub open spec fn valid_depth(bpp: usize) -> bool {
    bpp == 1 || bpp == 2 || bpp == 4
}

/// The mask of one pixel's bits at a color depth.
pub open spec fn depth_mask(bpp: usize) -> u8 {
    if bpp == 1 {
        1
    } else if bpp == 2 {
        3
    } else {
        15
    }
}

/// How many pixels share one byte.
pub open spec fn pixels_per_byte(bpp: usize) -> int {
    8int / (bpp as int)
}

/// The byte that holds pixel `i`.
pub open spec fn pixel_byte(bpp: usize, i: int) -> int {
    i / pixels_per_byte(bpp)
}

/// How far to the right pixel `i` sits in its byte: pixel 0 is in the most significant
/// bits.
pub open spec fn pixel_shift(bpp: usize, i: int) -> int {
    (pixels_per_byte(bpp) - 1 - i % pixels_per_byte(bpp)) * (bpp as int)
}

/// The value of the `w`-bit field at shift `s` of byte `b`.
pub open spec fn field(b: u8, s: int, m: u8) -> u8 {
    (b >> (s as u8)) & m
}

/// Where the pixels of a cluster sit: each in one byte, at a shift that leaves room for
/// its bits, and two pixels of one byte never overlap.
pub proof fn lemma_layout(bpp: usize, i: int, j: int)
    requires
        valid_depth(bpp),
        0 <= i < 8,
        0 <= j < 8,
    ensures
        0 <= pixel_byte(bpp, i) < bpp,
        0 <= pixel_shift(bpp, i),
        pixel_shift(bpp, i) + bpp <= 8,
        pixels_per_byte(bpp) * (bpp as int) == 8,
        i != j && pixel_byte(bpp, i) == pixel_byte(bpp, j) ==> pixel_shift(bpp, i) + bpp
            <= pixel_shift(bpp, j) || pixel_shift(bpp, j) + bpp <= pixel_shift(bpp, i),
{
    let p = pixels_per_byte(bpp);
    if bpp == 1 {
        assert(p == 8);
    } else if bpp == 2 {
        assert(p == 4);
    } else {
        assert(p == 2);
    }
    lemma_fundamental_div_mod(i, p);
    lemma_fundamental_div_mod(j, p);
    lemma_mod_bound(i, p);
    lemma_mod_bound(j, p);
}

/// Replacing one field of a byte: the field reads back the new value, and a field that
/// does not overlap it keeps its value.
pub proof fn lemma_field_update(b: u8, v: u8, s: u8, t: u8, m: u8, w: u8)
    by (bit_vector)
    requires
        (w == 1 && m == 1) || (w == 2 && m == 3) || (w == 4 && m == 15),
        s + w <= 8,
        t + w <= 8,
        s == t || s + w <= t || t + w <= s,
    ensures
        (((b & !(m << s)) | ((v & m) << s)) >> t) & m == (if s == t {
            v & m
        } else {
            (b >> t) & m
        }),
        (v & m) <= m,
        (b >> t) & m <= m,
        ((b >> t) & m) & m == (b >> t) & m,
        (0u8 >> t) & m == 0,
{
}

/// A row of 8 pixels packed at `BITS_PER_PIXEL` bits each; pixel 0 sits in the most
/// significant bits of the first byte.
#[derive(Debug, Clone, Copy, Hash, PartialEq)]
pub struct Cluster<const BITS_PER_PIXEL: usize> {
    pub data: [u8; BITS_PER_PIXEL],
}

impl<const BITS_PER_PIXEL: usize> Default for Cluster<BITS_PER_PIXEL> {
    /// A cluster with every pixel 0.
    fn default() -> (r: Self)
        ensures
            forall|k: int| 0 <= k < BITS_PER_PIXEL ==> #[trigger] r.data@[k] == 0,
    {
        Self { data: [0u8; BITS_PER_PIXEL] }
    }
}

impl<const BITS_PER_PIXEL: usize> Cluster<BITS_PER_PIXEL> {
    /// The value of pixel `i`.
    pub open spec fn pixel(self, i: int) -> u8 {
        field(
            self.data@[pixel_byte(BITS_PER_PIXEL, i)],
            pixel_shift(BITS_PER_PIXEL, i),
            depth_mask(BITS_PER_PIXEL),
        )
    }

    /// The eight pixel values, pixel 0 first.
    pub open spec fn pixels(self) -> Seq<u8> {
        Seq::new(8, |i: int| self.pixel(i))
    }

    /// A cluster with every pixel 0.
    pub fn blank() -> (r: Self)
        requires
            valid_depth(BITS_PER_PIXEL),
        ensures
            r.pixels() == Seq::new(8, |i: int| 0u8),
    {
        let r = Self { data: [0u8; BITS_PER_PIXEL] };
        proof {
            assert forall|i: int| 0 <= i < 8 implies #[trigger] r.pixel(i) == 0u8 by {
                lemma_layout(BITS_PER_PIXEL, i, i);
                lemma_field_update(
                    0,
                    0,
                    0,
                    pixel_shift(BITS_PER_PIXEL, i) as u8,
                    depth_mask(BITS_PER_PIXEL),
                    BITS_PER_PIXEL as u8,
                );
            }
            assert(r.pixels() =~= Seq::new(8, |i: int| 0u8));
        }
        r
    }

    /// The mask of one pixel's bits.
    fn mask() -> (m: u8)
        requires
            valid_depth(BITS_PER_PIXEL),
        ensures
            m == depth_mask(BITS_PER_PIXEL),
    {
        if BITS_PER_PIXEL == 1 {
            1
        } else if BITS_PER_PIXEL == 2 {
            3
        } else {
            15
        }
    }

    /// Where pixel `index` sits: its byte and its shift within the byte.
    fn locate(index: u8) -> (r: (usize, u8))
        requires
            valid_depth(BITS_PER_PIXEL),
            index < 8,
        ensures
            r.0 == pixel_byte(BITS_PER_PIXEL, index as int),
            r.1 == pixel_shift(BITS_PER_PIXEL, index as int),
            r.0 < BITS_PER_PIXEL,
            r.1 + BITS_PER_PIXEL <= 8,
    {
        proof {
            lemma_layout(BITS_PER_PIXEL, index as int, index as int);
        }
        let pixels_per_byte: usize = 8 / BITS_PER_PIXEL;
        let byte_idx = index as usize / pixels_per_byte;
        let pos_in_byte = index as usize % pixels_per_byte;
        let shift = (pixels_per_byte - 1 - pos_in_byte) * BITS_PER_PIXEL;
        (byte_idx, shift as u8)
    }

    /// The value of pixel `index`.
    pub fn get_subpixel(&self, index: u8) -> (r: u8)
        requires
            valid_depth(BITS_PER_PIXEL),
            index < 8,
        ensures
            r == self.pixels()[index as int],
            r <= depth_mask(BITS_PER_PIXEL),
            r & depth_mask(BITS_PER_PIXEL) == r,
    {
        let (byte_idx, shift) = Self::locate(index);
        let mask = Self::mask();
        proof {
            lemma_field_update(self.data@[byte_idx as int], 0, shift, shift, mask, BITS_PER_PIXEL as u8);
        }
        (self.data[byte_idx] >> shift) & mask
    }

    /// Stores `value` (its low bits, as many as a pixel has) in pixel `index`; the other
    /// pixels keep their values.
    pub fn set_subpixel(&mut self, value: u8, index: u8)
        requires
            valid_depth(BITS_PER_PIXEL),
            index < 8,
        ensures
            final(self).pixels() == old(self).pixels().update(
                index as int,
                value & depth_mask(BITS_PER_PIXEL),
            ),
    {
        let mask = Self::mask();
        let masked = value & mask;
        let (byte_idx, shift) = Self::locate(index);
        let ghost before = *self;
        let slot_mask: u8 = mask << shift;
        let byte = (self.data[byte_idx] & !slot_mask) | (masked << shift);
        self.data[byte_idx] = byte;
        proof {
            assert forall|j: int| 0 <= j < 8 implies #[trigger] self.pixel(j) == before.pixels().update(
                index as int,
                masked,
            )[j] by {
                lemma_layout(BITS_PER_PIXEL, index as int, j);
                lemma_layout(BITS_PER_PIXEL, j, index as int);
                if pixel_byte(BITS_PER_PIXEL, j) == byte_idx {
                    lemma_field_update(
                        before.data@[byte_idx as int],
                        value,
                        shift,
                        pixel_shift(BITS_PER_PIXEL, j) as u8,
                        mask,
                        BITS_PER_PIXEL as u8,
                    );
                    if j != index {
                        assert(pixel_shift(BITS_PER_PIXEL, j) != shift);
                    }
                }
            }
            assert(self.pixels() =~= before.pixels().update(index as int, masked));
        }
    }

    /// The cluster mirrored horizontally: pixel `i` of the result is pixel `7 - i` of
    /// `self`.
    pub fn flip(&self) -> (r: Self)
        requires
            valid_depth(BITS_PER_PIXEL),
        ensures
            r.pixels() == self.pixels().reverse(),
    {
        let mut flipped = Self::blank();
        let mut left_pixel: u8 = 0;
        let mut right_pixel: u8 = 7;
        while left_pixel < right_pixel
            invariant
                valid_depth(BITS_PER_PIXEL),
                left_pixel + right_pixel == 7,
                left_pixel <= 4,
                forall|k: int|
                    0 <= k < left_pixel ==> #[trigger] flipped.pixels()[k] == self.pixels()[7 - k],
                forall|k: int|
                    0 <= k < left_pixel ==> #[trigger] flipped.pixels()[7 - k] == self.pixels()[k],
            decreases 4 - left_pixel,
        {
            let left_val = self.get_subpixel(left_pixel);
            let right_val = self.get_subpixel(right_pixel);
            flipped.set_subpixel(right_val, left_pixel);
            flipped.set_subpixel(left_val, right_pixel);
            left_pixel += 1;
            right_pixel -= 1;
        }
        proof {
            assert forall|k: int| 0 <= k < 8 implies #[trigger] flipped.pixels()[k]
                == self.pixels().reverse()[k] by {
                if k >= 4 {
                    assert(flipped.pixels()[7 - (7 - k)] == self.pixels()[7 - k]);
                }
            }
            assert(flipped.pixels() =~= self.pixels().reverse());
        }
        flipped
    }

    /// Row `row` of a `tile_size` by `tile_size` tile (its rows `tile_pixels`) as drawn
    /// with `flags`: each pixel taken from where `transform_coords` says; pixels past the
    /// tile's width stay 0.
    pub fn from_tile(tile_pixels: &[Self], flags: TileFlags, row: u8, tile_size: u8) -> (r: Self)
        requires
            valid_depth(BITS_PER_PIXEL),
            row < tile_size <= 8,
            tile_size <= tile_pixels@.len(),
        ensures
            forall|col: int|
                0 <= col < 8 ==> #[trigger] r.pixels()[col] == if col < tile_size {
                    let s = transform_source(
                        has_flag(flags.0, FLAG_FLIP_H),
                        has_flag(flags.0, FLAG_FLIP_V),
                        has_flag(flags.0, FLAG_ROTATED),
                        col,
                        row as int,
                        tile_size as int,
                    );
                    tile_pixels@[s.1].pixels()[s.0]
                } else {
                    0u8
                },
    {
        let mut result = Self::blank();
        let mut col: u8 = 0;
        while col < tile_size
            invariant
                valid_depth(BITS_PER_PIXEL),
                row < tile_size <= 8,
                tile_size <= tile_pixels@.len(),
                col <= tile_size,
                forall|k: int|
                    0 <= k < 8 ==> #[trigger] result.pixels()[k] == if k < col {
                        let s = transform_source(
                            has_flag(flags.0, FLAG_FLIP_H),
                            has_flag(flags.0, FLAG_FLIP_V),
                            has_flag(flags.0, FLAG_ROTATED),
                            k,
                            row as int,
                            tile_size as int,
                        );
                        tile_pixels@[s.1].pixels()[s.0]
                    } else {
                        0u8
                    },
            decreases tile_size - col,
        {
            let (src_col, src_row) = flags.transform_coords(col, row, tile_size);
            proof {
                lemma_transform_in_tile(
                    has_flag(flags.0, FLAG_FLIP_H),
                    has_flag(flags.0, FLAG_FLIP_V),
                    has_flag(flags.0, FLAG_ROTATED),
                    col as int,
                    row as int,
                    tile_size as int,
                );
            }
            let pixel_value = tile_pixels[src_row as usize].get_subpixel(src_col);
            result.set_subpixel(pixel_value, col);
            col += 1;
        }
        result
    }

    /// A cluster holding the eight values of `pixels` (each cut to a pixel's bits).
    pub fn from_pixels(pixels: &[u8]) -> (r: Self)
        requires
            valid_depth(BITS_PER_PIXEL),
            pixels@.len() == 8,
        ensures
            r.pixels() == Seq::new(8, |i: int| pixels@[i] & depth_mask(BITS_PER_PIXEL)),
    {
        let mut cluster = Self::blank();
        let mut i: usize = 0;
        while i < pixels.len()
            invariant
                valid_depth(BITS_PER_PIXEL),
                pixels@.len() == 8,
                i <= 8,
                forall|k: int|
                    0 <= k < 8 ==> #[trigger] cluster.pixels()[k] == if k < i {
                        pixels@[k] & depth_mask(BITS_PER_PIXEL)
                    } else {
                        0u8
                    },
            decreases 8 - i,
        {
            cluster.set_subpixel(pixels[i], i as u8);
            i += 1;
        }
        assert(cluster.pixels() =~= Seq::new(8, |i: int| pixels@[i] & depth_mask(BITS_PER_PIXEL)));
        cluster
    }
}

/// Mirroring a cluster twice gives back its pixels.
pub proof fn lemma_flip_twice(pixels: Seq<u8>)
    ensures
        pixels.reverse().reverse() == pixels,
{
    assert(pixels.reverse().reverse() =~= pixels);
}

/// A byte is determined by its fields of one pixel width: its eight bits, its four 2-bit
/// fields, or its two 4-bit fields.
proof fn lemma_byte_from_fields(x: u8, y: u8)
    by (bit_vector)
    ensures
        ((x >> 7u8) & 1 == (y >> 7u8) & 1 && (x >> 6u8) & 1 == (y >> 6u8) & 1 && (x >> 5u8) & 1 == (y >> 5u8) & 1
            && (x >> 4u8) & 1 == (y >> 4u8) & 1 && (x >> 3u8) & 1 == (y >> 3u8) & 1 && (x >> 2u8) & 1 == (y
            >> 2u8) & 1 && (x >> 1u8) & 1 == (y >> 1u8) & 1 && (x >> 0u8) & 1 == (y >> 0u8) & 1) ==> x == y,
        ((x >> 6u8) & 3 == (y >> 6u8) & 3 && (x >> 4u8) & 3 == (y >> 4u8) & 3 && (x >> 2u8) & 3 == (y >> 2u8) & 3
            && (x >> 0u8) & 3 == (y >> 0u8) & 3) ==> x == y,
        ((x >> 4u8) & 15 == (y >> 4u8) & 15 && (x >> 0u8) & 15 == (y >> 0u8) & 15) ==> x == y,
{
}

/// The field of a byte that holds its `j`-th pixel at depth `bpp`.
pub open spec fn slot_field(x: u8, bpp: usize, j: int) -> u8 {
    field(x, (pixels_per_byte(bpp) - 1 - j) * (bpp as int), depth_mask(bpp))
}

/// The pixels of a cluster determine its bytes: two clusters showing the same pixels
/// hold the same bytes.
pub proof fn lemma_pixels_determine_bytes<const BITS_PER_PIXEL: usize>(
    a: Cluster<BITS_PER_PIXEL>,
    b: Cluster<BITS_PER_PIXEL>,
)
    requires
        valid_depth(BITS_PER_PIXEL),
        a.pixels() == b.pixels(),
    ensures
        a.data@ == b.data@,
{
    assert forall|k: int| 0 <= k < BITS_PER_PIXEL implies a.data@[k] == b.data@[k] by {
        let x = a.data@[k];
        let y = b.data@[k];
        let p = pixels_per_byte(BITS_PER_PIXEL);
        assert forall|j: int| 0 <= j < p implies #[trigger] slot_field(x, BITS_PER_PIXEL, j) == slot_field(
            y,
            BITS_PER_PIXEL,
            j,
        ) by {
            let i = k * p + j;
            lemma_layout(BITS_PER_PIXEL, 0, 0);
            assert(0 <= i < 8) by (nonlinear_arith)
                requires
                    i == k * p + j,
                    0 <= k < BITS_PER_PIXEL,
                    0 <= j < p,
                    p * (BITS_PER_PIXEL as int) == 8,
            ;
            assert(i / p == k && i % p == j) by (nonlinear_arith)
                requires
                    i == k * p + j,
                    0 <= j < p,
                    0 < p,
            ;
            assert(a.pixels()[i] == b.pixels()[i]);
            assert(pixel_byte(BITS_PER_PIXEL, i) == k);
            assert(pixel_shift(BITS_PER_PIXEL, i) == (p - 1 - j) * (BITS_PER_PIXEL as int));
            assert(a.pixel(i) == slot_field(x, BITS_PER_PIXEL, j));
            assert(b.pixel(i) == slot_field(y, BITS_PER_PIXEL, j));
            assert(a.pixels()[i] == a.pixel(i) && b.pixels()[i] == b.pixel(i));
        }
        if BITS_PER_PIXEL == 1 {
            assert(p == 8);
            assert(slot_field(x, BITS_PER_PIXEL, 0) == slot_field(y, BITS_PER_PIXEL, 0));
            assert(slot_field(x, BITS_PER_PIXEL, 1) == slot_field(y, BITS_PER_PIXEL, 1));
            assert(slot_field(x, BITS_PER_PIXEL, 2) == slot_field(y, BITS_PER_PIXEL, 2));
            assert(slot_field(x, BITS_PER_PIXEL, 3) == slot_field(y, BITS_PER_PIXEL, 3));
            assert(slot_field(x, BITS_PER_PIXEL, 4) == slot_field(y, BITS_PER_PIXEL, 4));
            assert(slot_field(x, BITS_PER_PIXEL, 5) == slot_field(y, BITS_PER_PIXEL, 5));
            assert(slot_field(x, BITS_PER_PIXEL, 6) == slot_field(y, BITS_PER_PIXEL, 6));
            assert(slot_field(x, BITS_PER_PIXEL, 7) == slot_field(y, BITS_PER_PIXEL, 7));
        } else if BITS_PER_PIXEL == 2 {
            assert(p == 4);
            assert(slot_field(x, BITS_PER_PIXEL, 0) == slot_field(y, BITS_PER_PIXEL, 0));
            assert(slot_field(x, BITS_PER_PIXEL, 1) == slot_field(y, BITS_PER_PIXEL, 1));
            assert(slot_field(x, BITS_PER_PIXEL, 2) == slot_field(y, BITS_PER_PIXEL, 2));
            assert(slot_field(x, BITS_PER_PIXEL, 3) == slot_field(y, BITS_PER_PIXEL, 3));
        } else {
            assert(p == 2);
            assert(slot_field(x, BITS_PER_PIXEL, 0) == slot_field(y, BITS_PER_PIXEL, 0));
            assert(slot_field(x, BITS_PER_PIXEL, 1) == slot_field(y, BITS_PER_PIXEL, 1));
        }
        lemma_byte_from_fields(x, y);
    }
    assert(a.data@ =~= b.data@);
}

/// Flipping a cluster twice gives back its bytes: when `once` shows `c`'s pixels reversed
/// and `twice` shows `once`'s reversed, as `flip` promises, `twice` holds `c`'s bytes.
pub proof fn lemma_flip_twice_same_bytes<const BITS_PER_PIXEL: usize>(
    c: Cluster<BITS_PER_PIXEL>,
    once: Cluster<BITS_PER_PIXEL>,
    twice: Cluster<BITS_PER_PIXEL>,
)
    requires
        valid_depth(BITS_PER_PIXEL),
        once.pixels() == c.pixels().reverse(),
        twice.pixels() == once.pixels().reverse(),
    ensures
        twice.data@ == c.data@,
{
    assert(c.pixels().reverse().reverse() =~= c.pixels());
    lemma_pixels_determine_bytes(twice, c);
}

} // verus!
