//! Tile analysis of the asset pipeline.

use vstd::prelude::*;
use crate::video::palette::{Palette, pack_nibbles};
use crate::video::cell::Cell;
use crate::video::tile_flags::{
    TileFlags, has_flag, with_flag, transform_source, lemma_transform_in_tile, lemma_transform_roundtrip, lemma_flip_involution,
    lemma_rotation_order_four, FLAG_FLIP_H, FLAG_FLIP_V, FLAG_ROTATED,
};

verus! {

/// Whether the neighbor at offset `(dx, dy)` of cell `(x, y)` of a `width` by `height`
/// map lies inside it and holds the same value as the cell.
pub open spec fn neighbor_matches(
    map: Seq<u8>,
    x: int,
    y: int,
    width: int,
    height: int,
    dx: int,
    dy: int,
) -> bool {
    let tx = x + dx;
    let ty = y + dy;
    0 <= tx < width && 0 <= ty < height && map[ty * width + tx] == map[y * width + x]
}

/// `bit` when the neighbor at `(dx, dy)` matches, else 0.
pub open spec fn neighbor_bit(
    map: Seq<u8>,
    x: int,
    y: int,
    width: int,
    height: int,
    dx: int,
    dy: int,
    bit: int,
) -> int {
    if neighbor_matches(map, x, y, width, height, dx, dy) {
        bit
    } else {
        0
    }
}

/// Which of the 8 neighbors of cell `(x, y)` hold the cell's value, one bit each: top
/// left 128, top 64, top right 32, left 16, right 8, bottom left 4, bottom 2, bottom right
/// 1. A cell outside the map has mask 0.
pub open spec fn neighbor_mask_spec(map: Seq<u8>, x: int, y: int, width: int, height: int) -> int {
    if x >= width || y >= height {
        0
    } else {
        neighbor_bit(map, x, y, width, height, -1, -1, 128) + neighbor_bit(
            map,
            x,
            y,
            width,
            height,
            0,
            -1,
            64,
        ) + neighbor_bit(map, x, y, width, height, 1, -1, 32) + neighbor_bit(
            map,
            x,
            y,
            width,
            height,
            -1,
            0,
            16,
        ) + neighbor_bit(map, x, y, width, height, 1, 0, 8) + neighbor_bit(
            map,
            x,
            y,
            width,
            height,
            -1,
            1,
            4,
        ) + neighbor_bit(map, x, y, width, height, 0, 1, 2) + neighbor_bit(
            map,
            x,
            y,
            width,
            height,
            1,
            1,
            1,
        )
    }
}

/// Whether the neighbor at `(dx, dy)` of `(x, y)` is inside the map and holds `value`.
fn neighbor_is(map: &[u8], x: u32, y: u32, width: u32, height: u32, dx: i32, dy: i32, value: u8) -> (r:
    bool)
    requires
        x < width,
        y < height,
        -1 <= dx <= 1,
        -1 <= dy <= 1,
        width * height <= map@.len(),
        value == map@[y * width + x],
    ensures
        r == neighbor_matches(map@, x as int, y as int, width as int, height as int, dx as int, dy as int),
{
    let len = map.len();
    let target_x = x as i64 + dx as i64;
    let target_y = y as i64 + dy as i64;
    if target_x >= 0 && target_y >= 0 {
        if (target_x as u64) < width as u64 && (target_y as u64) < height as u64 {
            proof {
                lemma_cell_index(target_x as int, target_y as int, width as int, height as int);
            }
            let index = (target_y as usize) * (width as usize) + (target_x as usize);
            return map[index] == value;
        }
    }
    false
}

/// The index of a cell inside a map is below the map's size.
proof fn lemma_cell_index(x: int, y: int, width: int, height: int)
    requires
        0 <= x < width,
        0 <= y < height,
    ensures
        0 <= y * width + x < width * height,
        0 <= y * width,
{
    assert(y * width + x < width * height) by (nonlinear_arith)
        requires
            0 <= x < width,
            0 <= y < height,
    ;
    assert(0 <= y * width) by (nonlinear_arith)
        requires
            0 <= y,
            0 <= x < width,
    ;
}

/// Returns a bitmask indicating which neighbors match the center pixel's value.
/// Bits represent: top_left, top_center, top_right, middle_left, middle_right,
/// bottom_left, bottom_center, bottom_right.
pub fn neighbor_mask(map: &[u8], x: u32, y: u32, width: u32, height: u32) -> (r: u8)
    requires
        x < width && y < height ==> width * height <= map@.len(),
    ensures
        r == neighbor_mask_spec(map@, x as int, y as int, width as int, height as int),
{
    if x >= width || y >= height {
        return 0;
    }
    let len = map.len();
    proof {
        lemma_cell_index(x as int, y as int, width as int, height as int);
    }
    let value = map[(y as usize) * (width as usize) + (x as usize)];
    let mut mask: u8 = 0;
    if neighbor_is(map, x, y, width, height, -1, -1, value) {
        mask += 128;
    }
    if neighbor_is(map, x, y, width, height, 0, -1, value) {
        mask += 64;
    }
    if neighbor_is(map, x, y, width, height, 1, -1, value) {
        mask += 32;
    }
    if neighbor_is(map, x, y, width, height, -1, 0, value) {
        mask += 16;
    }
    if neighbor_is(map, x, y, width, height, 1, 0, value) {
        mask += 8;
    }
    if neighbor_is(map, x, y, width, height, -1, 1, value) {
        mask += 4;
    }
    if neighbor_is(map, x, y, width, height, 0, 1, value) {
        mask += 2;
    }
    if neighbor_is(map, x, y, width, height, 1, 1, value) {
        mask += 1;
    }
    mask
}

/// Number of pixels in a tile.
pub const TILE_LEN: usize = 64;

/// The 64 pixels of a tile, row by row.
pub type Pixels = [u8; 64];

/// The colors below `n` that occur in `p`, in increasing order.
pub open spec fn colors_below(p: Seq<u8>, n: int) -> Seq<u8>
    decreases n,
{
    if n <= 0 {
        seq![]
    } else if p.contains((n - 1) as u8) {
        colors_below(p, n - 1).push((n - 1) as u8)
    } else {
        colors_below(p, n - 1)
    }
}

/// The colors that occur in `p`, in increasing order, each once.
pub open spec fn sorted_colors(p: Seq<u8>) -> Seq<u8> {
    colors_below(p, 256)
}

/// The canonical index of the color `c`: how many colors of `p` are below it, which is its
/// position in `sorted_colors(p)` when it occurs.
pub open spec fn canonical_index(p: Seq<u8>, c: u8) -> int {
    colors_below(p, c as int).len() as int
}

/// Facts of `colors_below`: no more colors than values below `n`, all below `n`, strictly
/// increasing, and each color of `p` below `n` at its canonical index.
pub proof fn lemma_colors_below(p: Seq<u8>, n: int)
    requires
        0 <= n <= 256,
    ensures
        colors_below(p, n).len() <= n,
        forall|i: int| 0 <= i < colors_below(p, n).len() ==> (#[trigger] colors_below(p, n)[i]) < n && p.contains(
            colors_below(p, n)[i],
        ),
        forall|i: int, j: int|
            0 <= i < j < colors_below(p, n).len() ==> colors_below(p, n)[i] < colors_below(p, n)[j],
        forall|c: u8|
            #![trigger canonical_index(p, c)]
            c < n && p.contains(c) ==> canonical_index(p, c) < colors_below(p, n).len()
                && colors_below(p, n)[canonical_index(p, c)] == c,
    decreases n,
{
    if n > 0 {
        lemma_colors_below(p, n - 1);
        let prev = colors_below(p, n - 1);
        let cur = colors_below(p, n);
        assert forall|c: u8| #![trigger canonical_index(p, c)] c < n && p.contains(c) implies canonical_index(p, c)
            < cur.len() && cur[canonical_index(p, c)] == c by {
            if c < n - 1 {
                assert(cur[canonical_index(p, c)] == prev[canonical_index(p, c)]);
            } else {
                assert(c as int == n - 1);
                assert(canonical_index(p, c) == prev.len());
            }
        }
    }
}

/// A tile's pattern for matching: the neighbor mask of each pixel of its canonical form.
pub struct CanonicalTile {
    pub pixels: Pixels,
}

/// The structure mask of a tile of canonical indices: the neighbor mask of each pixel.
pub fn create_structure_mask(canonical_pixels: &Pixels) -> (r: Pixels)
    ensures
        forall|i: int|
            0 <= i < 64 ==> r@[i] == neighbor_mask_spec(canonical_pixels@, i % 8, i / 8, 8, 8),
{
    let mut structure: Pixels = [0u8; 64];
    let mut y: u32 = 0;
    while y < 8
        invariant
            y <= 8,
            forall|i: int| 0 <= i < y * 8 ==> structure@[i] == neighbor_mask_spec(canonical_pixels@, i % 8, i / 8, 8, 8),
        decreases 8 - y,
    {
        let mut x: u32 = 0;
        while x < 8
            invariant
                y < 8,
                x <= 8,
                forall|i: int|
                    0 <= i < y * 8 + x ==> structure@[i] == neighbor_mask_spec(canonical_pixels@, i % 8, i / 8, 8, 8),
            decreases 8 - x,
        {
            let index = (y * 8 + x) as usize;
            let mask = neighbor_mask(canonical_pixels, x, y, 8, 8);
            structure[index] = mask;
            proof {
                assert(index as int % 8 == x as int && index as int / 8 == y as int);
            }
            x += 1;
        }
        y += 1;
    }
    structure
}

/// The canonical form of a tile: its structure mask for matching, its pixels as canonical
/// indices (each color replaced by its position among the tile's colors in increasing
/// order), and those colors.
pub fn create_canonical_tile(tile_pixels: &Pixels) -> (r: (CanonicalTile, Pixels, Vec<u8>))
    ensures
        r.2@ == sorted_colors(tile_pixels@),
        forall|i: int| 0 <= i < 64 ==> r.1@[i] == canonical_index(tile_pixels@, tile_pixels@[i]),
        forall|i: int| 0 <= i < 64 ==> r.0.pixels@[i] == neighbor_mask_spec(r.1@, i % 8, i / 8, 8, 8),
{
    let ghost p = tile_pixels@;
    let mut present: [bool; 256] = [false; 256];
    let mut i: usize = 0;
    while i < 64
        invariant
            i <= 64,
            p == tile_pixels@,
            forall|c: int| 0 <= c < 256 ==> present@[c] == p.take(i as int).contains(c as u8),
        decreases 64 - i,
    {
        let c = tile_pixels[i];
        present[c as usize] = true;
        proof {
            let t = p.take(i + 1);
            assert(t == p.take(i as int).push(c));
            assert forall|d: int| 0 <= d < 256 implies present@[d] == t.contains(d as u8) by {
                if t.contains(d as u8) && d as u8 != c {
                    let k = choose|k: int| 0 <= k < t.len() && t[k] == d as u8;
                    assert(p.take(i as int)[k] == d as u8);
                }
                if p.take(i as int).contains(d as u8) {
                    let k = choose|k: int| 0 <= k < i && p.take(i as int)[k] == d as u8;
                    assert(t[k] == d as u8);
                }
                if d as u8 == c {
                    assert(t[i as int] == c);
                }
            }
        }
        i += 1;
    }
    proof {
        assert(p.take(64) =~= p);
    }
    let mut sorted: Vec<u8> = Vec::new();
    let mut table: [u8; 256] = [0u8; 256];
    let mut c: usize = 0;
    while c < 256
        invariant
            c <= 256,
            p == tile_pixels@,
            forall|d: int| 0 <= d < 256 ==> present@[d] == p.contains(d as u8),
            sorted@ == colors_below(p, c as int),
            forall|d: int| 0 <= d < c ==> table@[d] == colors_below(p, d).len(),
        decreases 256 - c,
    {
        proof {
            lemma_colors_below(p, c as int);
        }
        table[c] = sorted.len() as u8;
        if present[c] {
            sorted.push(c as u8);
        }
        c += 1;
    }
    let mut canonical: Pixels = [0u8; 64];
    let mut k: usize = 0;
    while k < 64
        invariant
            k <= 64,
            p == tile_pixels@,
            forall|d: int| 0 <= d < 256 ==> table@[d] == colors_below(p, d).len(),
            forall|j: int| 0 <= j < k ==> canonical@[j] == canonical_index(p, p[j]),
        decreases 64 - k,
    {
        canonical[k] = table[tile_pixels[k] as usize];
        k += 1;
    }
    let structure = create_structure_mask(&canonical);
    (CanonicalTile { pixels: structure }, canonical, sorted)
}

/// The canonical form of a tile loses nothing: the tile's colors, indexed by the
/// canonical pixels, give the tile back.
pub proof fn lemma_canonical_roundtrip(p: Seq<u8>, i: int)
    requires
        0 <= i < p.len(),
    ensures
        canonical_index(p, p[i]) < sorted_colors(p).len(),
        sorted_colors(p)[canonical_index(p, p[i])] == p[i],
{
    lemma_colors_below(p, 256);
    assert(p.contains(p[i]));
}

/// The index in a tile's pixels of the source of pixel `i` under the given transform.
pub open spec fn transform_index(flip_x: bool, flip_y: bool, rotation: bool, i: int) -> int {
    let s = transform_source(flip_x, flip_y, rotation, i % 8, i / 8, 8);
    s.1 * 8 + s.0
}

/// The pixels of a tile as drawn with the given flips and rotation.
pub open spec fn transformed(p: Seq<u8>, flip_x: bool, flip_y: bool, rotation: bool) -> Seq<u8> {
    Seq::new(64, |i: int| p[transform_index(flip_x, flip_y, rotation, i)])
}

/// The source of a tile pixel is a pixel of the tile.
pub proof fn lemma_transform_index(flip_x: bool, flip_y: bool, rotation: bool, i: int)
    requires
        0 <= i < 64,
    ensures
        0 <= transform_index(flip_x, flip_y, rotation, i) < 64,
{
    lemma_transform_in_tile(flip_x, flip_y, rotation, i % 8, i / 8, 8);
}

/// The tile `tile` as drawn with the given flips and rotation: each pixel taken from where
/// `transform_source` says.
pub fn transform_tile(tile: &Pixels, flip_x: bool, flip_y: bool, rotation: bool) -> (r: Pixels)
    ensures
        r@ == transformed(tile@, flip_x, flip_y, rotation),
{
    let flags = TileFlags(0).with_transform(flip_x, flip_y, rotation);
    proof {
        lemma_transform_roundtrip(0, flip_x, flip_y, rotation);
    }
    let mut result: Pixels = [0u8; 64];
    let mut dst_y: u8 = 0;
    while dst_y < 8
        invariant
            dst_y <= 8,
            has_flag(flags.0, FLAG_FLIP_H) == flip_x,
            has_flag(flags.0, FLAG_FLIP_V) == flip_y,
            has_flag(flags.0, FLAG_ROTATED) == rotation,
            forall|i: int| 0 <= i < dst_y * 8 ==> result@[i] == tile@[transform_index(flip_x, flip_y, rotation, i)],
        decreases 8 - dst_y,
    {
        let mut dst_x: u8 = 0;
        while dst_x < 8
            invariant
                dst_y < 8,
                dst_x <= 8,
                has_flag(flags.0, FLAG_FLIP_H) == flip_x,
                has_flag(flags.0, FLAG_FLIP_V) == flip_y,
                has_flag(flags.0, FLAG_ROTATED) == rotation,
                forall|i: int|
                    0 <= i < dst_y * 8 + dst_x ==> result@[i] == tile@[transform_index(flip_x, flip_y, rotation, i)],
            decreases 8 - dst_x,
        {
            let (src_x, src_y) = flags.transform_coords(dst_x, dst_y, 8);
            proof {
                lemma_transform_in_tile(flip_x, flip_y, rotation, dst_x as int, dst_y as int, 8);
            }
            let dst = (dst_y as usize) * 8 + dst_x as usize;
            let src = (src_y as usize) * 8 + src_x as usize;
            result[dst] = tile[src];
            proof {
                assert(dst as int % 8 == dst_x as int && dst as int / 8 == dst_y as int);
            }
            dst_x += 1;
        }
        dst_y += 1;
    }
    assert(result@ =~= transformed(tile@, flip_x, flip_y, rotation));
    result
}

/// Drawing a tile flipped, and drawing that flipped the same way, gives the tile back.
pub proof fn lemma_transform_tile_involution(p: Seq<u8>, flip_x: bool, flip_y: bool)
    requires
        p.len() == 64,
    ensures
        transformed(transformed(p, flip_x, flip_y, false), flip_x, flip_y, false) == p,
{
    let once = transformed(p, flip_x, flip_y, false);
    assert forall|i: int| 0 <= i < 64 implies #[trigger] transformed(once, flip_x, flip_y, false)[i] == p[i] by {
        let j = transform_index(flip_x, flip_y, false, i);
        lemma_transform_index(flip_x, flip_y, false, i);
        let t = transform_source(flip_x, flip_y, false, i % 8, i / 8, 8);
        lemma_transform_in_tile(flip_x, flip_y, false, i % 8, i / 8, 8);
        assert(j % 8 == t.0 && j / 8 == t.1);
        lemma_flip_involution(flip_x, flip_y, i % 8, i / 8, 8);
        assert(transform_index(flip_x, flip_y, false, j) == i);
    }
    assert(transformed(once, flip_x, flip_y, false) =~= p);
}

/// Turning a tile a quarter four times gives it back.
#[verifier::spinoff_prover]
#[verifier::rlimit(50)]
pub proof fn lemma_transform_tile_rotation_order_four(p: Seq<u8>)
    requires
        p.len() == 64,
    ensures
        transformed(
            transformed(transformed(transformed(p, false, false, true), false, false, true), false, false, true),
            false,
            false,
            true,
        ) == p,
{
    let t1 = transformed(p, false, false, true);
    let t2 = transformed(t1, false, false, true);
    let t3 = transformed(t2, false, false, true);
    let t4 = transformed(t3, false, false, true);
    assert forall|i: int| 0 <= i < 64 implies #[trigger] t4[i] == p[i] by {
        let a = transform_index(false, false, true, i);
        lemma_transform_index(false, false, true, i);
        let b = transform_index(false, false, true, a);
        lemma_transform_index(false, false, true, a);
        let c = transform_index(false, false, true, b);
        lemma_transform_index(false, false, true, b);
        let d = transform_index(false, false, true, c);
        lemma_transform_index(false, false, true, c);
        lemma_rotation_order_four(i % 8, i / 8, 8);
        lemma_transform_in_tile(false, false, true, i % 8, i / 8, 8);
        lemma_transform_in_tile(false, false, true, a % 8, a / 8, 8);
        lemma_transform_in_tile(false, false, true, b % 8, b / 8, 8);
        lemma_transform_in_tile(false, false, true, c % 8, c / 8, 8);
        assert(d == i);
    }
    assert(t4 =~= p);
}

/// The color that the new tile `new` shows first (in row order) where the stored tile,
/// of canonical indices `canon`, drawn with the given transform, shows canonical index
/// `k`; looking from pixel `i` on.
pub open spec fn first_seen_from(
    new: Seq<u8>,
    canon: Seq<u8>,
    flip_x: bool,
    flip_y: bool,
    rotation: bool,
    k: u8,
    i: int,
) -> Option<u8>
    decreases 64 - i,
{
    if i < 0 || i >= 64 {
        None
    } else if canon[transform_index(flip_x, flip_y, rotation, i)] == k {
        Some(new[i])
    } else {
        first_seen_from(new, canon, flip_x, flip_y, rotation, k, i + 1)
    }
}

/// The color a reused tile's palette gives canonical index `k`: the first one the new
/// tile shows where the stored tile shows `k`, or 0 when it shows `k` nowhere.
pub open spec fn slot_color(new: Seq<u8>, canon: Seq<u8>, flip_x: bool, flip_y: bool, rotation: bool, k: u8) -> u8 {
    match first_seen_from(new, canon, flip_x, flip_y, rotation, k, 0) {
        Some(c) => c,
        None => 0,
    }
}

/// The palette with which a stored tile of canonical indices `stored_canonical`, drawn
/// with the given flips and rotation, shows the new tile `new_pixels`: each canonical
/// index gets the color the new tile shows first where the stored one shows that index.
pub fn compute_tile_colors_with_transform(
    new_pixels: &Pixels,
    stored_canonical: &Pixels,
    flip_x: bool,
    flip_y: bool,
    rotation: bool,
) -> (r: Palette)
    requires
        forall|i: int| 0 <= i < 64 ==> stored_canonical@[i] < 4,
        forall|k: u8|
            k < 4 ==> ((#[trigger] first_seen_from(new_pixels@, stored_canonical@, flip_x, flip_y, rotation, k, 0)) matches Some(
                c,
            ) ==> c < 16),
    ensures
        r.slots() == seq![
            slot_color(new_pixels@, stored_canonical@, flip_x, flip_y, rotation, 0),
            slot_color(new_pixels@, stored_canonical@, flip_x, flip_y, rotation, 1),
            slot_color(new_pixels@, stored_canonical@, flip_x, flip_y, rotation, 2),
            slot_color(new_pixels@, stored_canonical@, flip_x, flip_y, rotation, 3),
        ],
        r == palette_of(r.slots()),
{
    let ghost new = new_pixels@;
    let ghost canon = stored_canonical@;
    let flags = TileFlags(0).with_transform(flip_x, flip_y, rotation);
    proof {
        lemma_transform_roundtrip(0, flip_x, flip_y, rotation);
    }
    let mut canonical_colors: [Option<u8>; 4] = [None; 4];
    let mut i: usize = 0;
    while i < 64
        invariant
            i <= 64,
            new == new_pixels@,
            canon == stored_canonical@,
            has_flag(flags.0, FLAG_FLIP_H) == flip_x,
            has_flag(flags.0, FLAG_FLIP_V) == flip_y,
            has_flag(flags.0, FLAG_ROTATED) == rotation,
            forall|j: int| 0 <= j < 64 ==> canon[j] < 4,
            forall|k: int|
                0 <= k < 4 ==> (#[trigger] canonical_colors@[k] is Some ==> first_seen_from(
                    new,
                    canon,
                    flip_x,
                    flip_y,
                    rotation,
                    k as u8,
                    0,
                ) == canonical_colors@[k]) && (canonical_colors@[k] is None ==> first_seen_from(
                    new,
                    canon,
                    flip_x,
                    flip_y,
                    rotation,
                    k as u8,
                    0,
                ) == first_seen_from(new, canon, flip_x, flip_y, rotation, k as u8, i as int)),
        decreases 64 - i,
    {
        let screen_x = (i % 8) as u8;
        let screen_y = (i / 8) as u8;
        let (tile_x, tile_y) = flags.transform_coords(screen_x, screen_y, 8);
        proof {
            lemma_transform_in_tile(flip_x, flip_y, rotation, screen_x as int, screen_y as int, 8);
        }
        let tile_idx = (tile_y as usize) * 8 + tile_x as usize;
        let k = stored_canonical[tile_idx] as usize;
        proof {
            assert(tile_idx == transform_index(flip_x, flip_y, rotation, i as int));
            assert forall|m: int| 0 <= m < 4 && m != k implies #[trigger] first_seen_from(new, canon, flip_x, flip_y, rotation, m as u8, i as int)
                == first_seen_from(new, canon, flip_x, flip_y, rotation, m as u8, i + 1) by {
                assert(canon[transform_index(flip_x, flip_y, rotation, i as int)] == k as u8);
            }
        }
        if canonical_colors[k].is_none() {
            canonical_colors[k] = Some(new_pixels[i]);
        }
        i += 1;
    }
    let mut slots: [u8; 4] = [0u8; 4];
    let mut k: usize = 0;
    while k < 4
        invariant
            k <= 4,
            new == new_pixels@,
            canon == stored_canonical@,
            forall|m: int|
                0 <= m < 4 ==> #[trigger] canonical_colors@[m] == first_seen_from(
                    new,
                    canon,
                    flip_x,
                    flip_y,
                    rotation,
                    m as u8,
                    0,
                ),
            forall|m: int| 0 <= m < k ==> slots@[m] == slot_color(new, canon, flip_x, flip_y, rotation, m as u8),
        decreases 4 - k,
    {
        slots[k] = match canonical_colors[k] {
            Some(c) => c,
            None => 0,
        };
        k += 1;
    }
    proof {
        assert(first_seen_from(new, canon, flip_x, flip_y, rotation, 0, 0) is Some ==> first_seen_from(new, canon, flip_x, flip_y, rotation, 0, 0)->0 < 16);
        assert(first_seen_from(new, canon, flip_x, flip_y, rotation, 1, 0) is Some ==> first_seen_from(new, canon, flip_x, flip_y, rotation, 1, 0)->0 < 16);
        assert(first_seen_from(new, canon, flip_x, flip_y, rotation, 2, 0) is Some ==> first_seen_from(new, canon, flip_x, flip_y, rotation, 2, 0)->0 < 16);
        assert(first_seen_from(new, canon, flip_x, flip_y, rotation, 3, 0) is Some ==> first_seen_from(new, canon, flip_x, flip_y, rotation, 3, 0)->0 < 16);
    }
    Palette::new(slots[0], slots[1], slots[2], slots[3])
}

/// The palette whose slots 0 to 3 hold the first four entries of `slots`.
pub open spec fn palette_of(slots: Seq<u8>) -> Palette {
    Palette(pack_nibbles(slots[0] as u16, slots[1] as u16, slots[2] as u16, slots[3] as u16))
}

/// The palette of a new tile from its colors in canonical order (at most four): slot `k`
/// holds color `k`, unused slots 0.
pub fn create_tile_colors_from_mapping(palette_mapping: &[u8]) -> (r: Palette)
    requires
        palette_mapping@.len() <= 4,
        forall|k: int| 0 <= k < palette_mapping@.len() ==> palette_mapping@[k] < 16,
    ensures
        forall|k: int|
            0 <= k < 4 ==> #[trigger] r.slots()[k] == if k < palette_mapping@.len() {
                palette_mapping@[k]
            } else {
                0u8
            },
        r == palette_of(r.slots()),
{
    let mut slot_colors: [u8; 4] = [0u8; 4];
    let mut i: usize = 0;
    while i < palette_mapping.len()
        invariant
            i <= palette_mapping@.len() <= 4,
            forall|k: int| 0 <= k < i ==> slot_colors@[k] == palette_mapping@[k],
            forall|k: int| i <= k < 4 ==> slot_colors@[k] == 0,
        decreases palette_mapping@.len() - i,
    {
        slot_colors[i] = palette_mapping[i];
        i += 1;
    }
    Palette::new(slot_colors[0], slot_colors[1], slot_colors[2], slot_colors[3])
}

/// The canonical indices of a tile's pixels.
pub open spec fn canonical_of(p: Seq<u8>) -> Seq<u8> {
    Seq::new(64, |i: int| canonical_index(p, p[i]) as u8)
}

/// The structure of a tile: the neighbor masks of its canonical form, the key a tile is
/// found again by.
pub open spec fn structure_of(p: Seq<u8>) -> Seq<u8> {
    Seq::new(64, |i: int| neighbor_mask_spec(canonical_of(p), i % 8, i / 8, 8, 8) as u8)
}

/// The `n`-th of the eight transforms, in the order flip x, then flip y, then rotation,
/// each first off then on.
pub open spec fn variant(n: int) -> (bool, bool, bool) {
    (n >= 4, n % 4 >= 2, n % 2 == 1)
}

/// A table of tile structures and the cells they stand for, as values.
pub open spec fn table_view(t: Seq<(Pixels, Cell)>) -> Seq<(Seq<u8>, Cell)> {
    t.map_values(|e: (Pixels, Cell)| (e.0@, e.1))
}

/// The cell last recorded for the structure `key`.
pub open spec fn find_cell(table: Seq<(Seq<u8>, Cell)>, key: Seq<u8>) -> Option<Cell>
    decreases table.len(),
{
    if table.len() == 0 {
        None
    } else if table.last().0 == key {
        Some(table.last().1)
    } else {
        find_cell(table.drop_last(), key)
    }
}

/// The cell found for the first of the transforms `n` on of the tile `source` whose
/// structure is recorded.
pub open spec fn find_variant_from(table: Seq<(Seq<u8>, Cell)>, source: Seq<u8>, n: int) -> Option<Cell>
    decreases 8 - n,
{
    if n < 0 || n >= 8 {
        None
    } else {
        let v = variant(n);
        match find_cell(table, structure_of(transformed(source, v.0, v.1, v.2))) {
            Some(c) => Some(c),
            None => find_variant_from(table, source, n + 1),
        }
    }
}

/// The cell an existing tile gives a new one: found by the new tile's structure, or,
/// when transforms are allowed, by the structure of one of its seven transformed forms.
pub open spec fn matching_tile(
    table: Seq<(Seq<u8>, Cell)>,
    canonical: Seq<u8>,
    source: Seq<u8>,
    allow_transforms: bool,
) -> Option<Cell> {
    match find_cell(table, canonical) {
        Some(c) => Some(c),
        None => if allow_transforms {
            find_variant_from(table, source, 1)
        } else {
            None
        },
    }
}

/// `base` with its flip and rotation flags set to those of a transform.
pub open spec fn cell_with_transform(base: Cell, v: (bool, bool, bool)) -> Cell {
    Cell {
        flags: TileFlags(
            with_flag(with_flag(with_flag(base.flags.0, FLAG_FLIP_H, v.0), FLAG_FLIP_V, v.1), FLAG_ROTATED, v.2),
        ),
        ..base
    }
}

/// The table after recording, for each transform from `n` on, the structure of the tile
/// `source` so transformed with `base` carrying that transform, unless that structure is
/// recorded already.
pub open spec fn stored_variants(table: Seq<(Seq<u8>, Cell)>, base: Cell, source: Seq<u8>, n: int) -> Seq<(Seq<u8>, Cell)>
    decreases 8 - n,
{
    if n < 0 || n >= 8 {
        table
    } else {
        let v = variant(n);
        let key = structure_of(transformed(source, v.0, v.1, v.2));
        let next = if find_cell(table, key) is Some {
            table
        } else {
            table.push((key, cell_with_transform(base, v)))
        };
        stored_variants(next, base, source, n + 1)
    }
}

/// The structure of the canonical form of `tile`.
fn structure_key(tile: &Pixels) -> (r: Pixels)
    ensures
        r@ == structure_of(tile@),
{
    let (canonical, indices, _) = create_canonical_tile(tile);
    assert(indices@ =~= canonical_of(tile@));
    assert(canonical.pixels@ =~= structure_of(tile@));
    canonical.pixels
}

/// The cell last recorded for the structure `key`.
fn lookup_cell(table: &Vec<(Pixels, Cell)>, key: &Pixels) -> (r: Option<Cell>)
    ensures
        r == find_cell(table_view(table@), key@),
{
    let mut i = table.len();
    proof {
        assert(table_view(table@).take(i as int) =~= table_view(table@));
    }
    while i > 0
        invariant
            i <= table@.len(),
            find_cell(table_view(table@), key@) == find_cell(table_view(table@).take(i as int), key@),
        decreases i,
    {
        let entry = &table[i - 1];
        proof {
            let t = table_view(table@).take(i as int);
            assert(t.last() == (entry.0@, entry.1));
            assert(t.drop_last() =~= table_view(table@).take(i - 1));
        }
        if same_tile(&entry.0, key) {
            return Some(entry.1);
        }
        i -= 1;
    }
    None
}

/// Whether two tiles hold the same pixels.
fn same_tile(a: &Pixels, b: &Pixels) -> (r: bool)
    ensures
        r == (a@ == b@),
{
    let mut i: usize = 0;
    while i < 64
        invariant
            i <= 64,
            forall|k: int| 0 <= k < i ==> a@[k] == b@[k],
        decreases 64 - i,
    {
        if a[i] != b[i] {
            return false;
        }
        i += 1;
    }
    assert(a@ =~= b@);
    true
}

/// Searches the table for an existing tile matching `source_pixels` (whose canonical form
/// is `canonical_tile`): directly, or, when transforms are allowed, through one of its
/// flipped or rotated forms.
pub fn find_matching_tile(
    table: &Vec<(Pixels, Cell)>,
    canonical_tile: &CanonicalTile,
    source_pixels: &Pixels,
    allow_tile_transforms: bool,
) -> (r: Option<Cell>)
    ensures
        r == matching_tile(table_view(table@), canonical_tile.pixels@, source_pixels@, allow_tile_transforms),
{
    if let Some(existing) = lookup_cell(table, &canonical_tile.pixels) {
        return Some(existing);
    }
    if !allow_tile_transforms {
        return None;
    }
    let mut n: u8 = 1;
    while n < 8
        invariant
            1 <= n <= 8,
            allow_tile_transforms,
            find_cell(table_view(table@), canonical_tile.pixels@) is None,
            find_variant_from(table_view(table@), source_pixels@, 1) == find_variant_from(
                table_view(table@),
                source_pixels@,
                n as int,
            ),
        decreases 8 - n,
    {
        let flip_x = n >= 4;
        let flip_y = n % 4 >= 2;
        let rotation = n % 2 == 1;
        let transformed_pixels = transform_tile(source_pixels, flip_x, flip_y, rotation);
        let key = structure_key(&transformed_pixels);
        proof {
            assert(variant(n as int) == (flip_x, flip_y, rotation));
        }
        if let Some(existing) = lookup_cell(table, &key) {
            return Some(existing);
        }
        n += 1;
    }
    None
}

/// Records every transformed form of `source_pixels` not recorded yet, with `base_cell`
/// carrying that transform's flags; nothing when transforms are not allowed.
pub fn store_transformed_variants(
    table: &mut Vec<(Pixels, Cell)>,
    base_cell: Cell,
    source_pixels: &Pixels,
    allow_tile_transforms: bool,
)
    ensures
        table_view(final(table)@) == if allow_tile_transforms {
            stored_variants(table_view(old(table)@), base_cell, source_pixels@, 0)
        } else {
            table_view(old(table)@)
        },
{
    if !allow_tile_transforms {
        return;
    }
    let mut n: u8 = 0;
    while n < 8
        invariant
            n <= 8,
            stored_variants(table_view(old(table)@), base_cell, source_pixels@, 0) == stored_variants(
                table_view(table@),
                base_cell,
                source_pixels@,
                n as int,
            ),
        decreases 8 - n,
    {
        let flip_x = n >= 4;
        let flip_y = n % 4 >= 2;
        let rotation = n % 2 == 1;
        let transformed_pixels = transform_tile(source_pixels, flip_x, flip_y, rotation);
        let key = structure_key(&transformed_pixels);
        proof {
            assert(variant(n as int) == (flip_x, flip_y, rotation));
        }
        if lookup_cell(table, &key).is_none() {
            let mut cell = base_cell;
            cell.flags = cell.flags.with_transform(flip_x, flip_y, rotation);
            let ghost before = table@;
            table.push((key, cell));
            proof {
                assert(table_view(table@) =~= table_view(before).push((key@, cell_with_transform(
                    base_cell,
                    (flip_x, flip_y, rotation),
                ))));
            }
        }
        n += 1;
    }
}

/// A recorded structure stays found when more entries are recorded.
proof fn lemma_find_cell_push(table: Seq<(Seq<u8>, Cell)>, key: Seq<u8>, e: (Seq<u8>, Cell))
    requires
        find_cell(table, key) is Some,
    ensures
        find_cell(table.push(e), key) is Some,
{
    assert(table.push(e).drop_last() =~= table);
}

/// Recording variants keeps every structure found that was found before.
proof fn lemma_stored_variants_keep(table: Seq<(Seq<u8>, Cell)>, base: Cell, source: Seq<u8>, n: int, key: Seq<u8>)
    requires
        find_cell(table, key) is Some,
    ensures
        find_cell(stored_variants(table, base, source, n), key) is Some,
    decreases 8 - n,
{
    if 0 <= n < 8 {
        let v = variant(n);
        let k = structure_of(transformed(source, v.0, v.1, v.2));
        if find_cell(table, k) is None {
            lemma_find_cell_push(table, key, (k, cell_with_transform(base, v)));
            lemma_stored_variants_keep(table.push((k, cell_with_transform(base, v))), base, source, n + 1, key);
        } else {
            lemma_stored_variants_keep(table, base, source, n + 1, key);
        }
    }
}

/// Drawing a tile without flips or rotation shows it as it is.
pub proof fn lemma_transformed_identity(p: Seq<u8>)
    requires
        p.len() == 64,
    ensures
        transformed(p, false, false, false) == p,
{
    assert forall|i: int| 0 <= i < 64 implies #[trigger] transformed(p, false, false, false)[i] == p[i] by {
        assert(transform_index(false, false, false, i) == i);
    }
    assert(transformed(p, false, false, false) =~= p);
}

/// Once a tile's variants are recorded (transforms allowed), the tile is found again.
pub proof fn lemma_stored_tile_found(table: Seq<(Seq<u8>, Cell)>, base: Cell, source: Seq<u8>)
    requires
        source.len() == 64,
    ensures
        matching_tile(stored_variants(table, base, source, 0), structure_of(source), source, true) is Some,
{
    lemma_transformed_identity(source);
    let key = structure_of(source);
    let v = variant(0);
    assert(v == (false, false, false));
    let next = if find_cell(table, key) is Some {
        table
    } else {
        table.push((key, cell_with_transform(base, v)))
    };
    if find_cell(table, key) is None {
        assert(next.drop_last() =~= table);
    }
    assert(find_cell(next, key) is Some);
    lemma_stored_variants_keep(next, base, source, 1, key);
}

} // verus!