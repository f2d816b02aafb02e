//! Rendering the screen pixel by pixel. For each screen line a sprite line and a
//! background line are prepared; each pixel is then the front one of the two.

use vstd::prelude::*;
use crate::math::scalar::{wrap, lemma_trunc_rem_floor};
use crate::math::rect::min_int;
use crate::video::cell::Cell;
use crate::video::color::{RGBA12, RGBA32, pack12, widen_channel, lemma_field_ranges, lemma_pack12};
use crate::video::consts::{MAX_LINES, SPRITES_PER_LINE, TILE_COUNT};
use crate::video::sprite::{pixel_slot, Scanline, SpriteEntry};
use crate::video::tile_flags::{
    TileFlags,
    has_flag, lemma_transform_in_tile, transform_source, FLAG_FG, FLAG_FLIP_H, FLAG_FLIP_V, FLAG_INVISIBLE,
    FLAG_ROTATED,
};
use crate::video::tilemap_ref::TilemapRef;
use crate::video::video_bank::VideoBank;
use crate::video::video_chip::VideoChip;

verus! {

/// Z-buffer priority of the background color (lowest).
pub const Z_BG: u8 = 0;

/// Z-buffer priority of background tiles.
pub const Z_BG_TILE: u8 = 1;

/// Z-buffer priority of sprites.
pub const Z_SPRITE: u8 = 2;

/// Z-buffer priority of background tiles drawn in front (highest).
pub const Z_BG_FOREGROUND: u8 = 3;

/// The color `c` with z-buffer priority `z`.
pub open spec fn z_color(c: RGBA12, z: u16) -> RGBA12 {
    RGBA12 { data: pack12(z, c.spec_a(), c.spec_r(), c.spec_g(), c.spec_b()) }
}

/// Fully transparent black, at priority 0.
pub open spec fn clear_color() -> RGBA12 {
    RGBA12 { data: 0 }
}

/// The bank at `index`, or the first one when there is none there.
pub open spec fn bank_at(banks: Seq<VideoBank<TILE_COUNT>>, index: u8) -> VideoBank<TILE_COUNT> {
    if index < banks.len() {
        banks[index as int]
    } else {
        banks[0]
    }
}

/// The tilemap at `index`, or the first one when there is none there.
pub open spec fn map_at<'a>(maps: Seq<TilemapRef<'a>>, index: u8) -> TilemapRef<'a> {
    if index < maps.len() {
        maps[index as int]
    } else {
        maps[0]
    }
}

/// The value (0 to 3) of pixel `(x, y)` of tile `id` of `bank` drawn with `flags`.
pub open spec fn tile_pixel_value(bank: VideoBank<TILE_COUNT>, id: u8, flags: u8, x: int, y: int) -> u8 {
    let s = transform_source(
        has_flag(flags, FLAG_FLIP_H),
        has_flag(flags, FLAG_FLIP_V),
        has_flag(flags, FLAG_ROTATED),
        x,
        y,
        8,
    );
    bank.tiles_view()[id as int].pixel(s.0, s.1)
}

/// The palette color pixel `(x, y)` of a background cell shows: its tile's pixel, drawn
/// with the cell's flags, through the cell's palette.
pub open spec fn cell_color(bank: VideoBank<TILE_COUNT>, cell: Cell, x: int, y: int) -> RGBA12 {
    let pixel = tile_pixel_value(bank, cell.id.0, cell.flags.0, x, y);
    bank.palette_view()[cell.colors.slots()[pixel as int] as int]
}

/// The palette color pixel `(x, y)` of a sprite shows: its tile's pixel, drawn with the
/// sprite's flags, through the bank's color mapping the sprite names.
pub open spec fn sprite_color(bank: VideoBank<TILE_COUNT>, sprite: SpriteEntry, x: int, y: int) -> RGBA12 {
    let pixel = tile_pixel_value(bank, sprite.id.0, sprite.flags.0, x, y);
    bank.palette_view()[bank.mapping_view(sprite.sub_palette as int)[pixel as int] as int]
}

/// The background at screen pixel `(x, y)` inside the viewport: the map scrolled by
/// `(scroll_x, scroll_y)` and repeated when `wrap`, else the background color outside
/// it; an invisible cell or a transparent pixel shows the background color too. A tile
/// pixel is in front of sprites when its cell has the foreground flag.
pub open spec fn background_pixel(
    bank: VideoBank<TILE_COUNT>,
    map: TilemapRef,
    scroll_x: int,
    scroll_y: int,
    wrap_bg: bool,
    bg_color: RGBA12,
    x: int,
    y: int,
) -> RGBA12 {
    let w = map.columns * 8;
    let h = map.rows * 8;
    let bx = x + scroll_x;
    let by = y + scroll_y;
    if !wrap_bg && (by < 0 || by >= h || bx < 0 || bx >= w) {
        z_color(bg_color, Z_BG as u16)
    } else {
        let px = bx % (w as int);
        let py = by % (h as int);
        let cell = map.cells@[(py / 8) * map.columns + px / 8];
        if has_flag(cell.flags.0, FLAG_INVISIBLE) {
            z_color(bg_color, Z_BG as u16)
        } else {
            let c = cell_color(bank, cell, px % 8, py % 8);
            if c.spec_a() > 0 {
                z_color(
                    c,
                    if has_flag(cell.flags.0, FLAG_FG) {
                        Z_BG_FOREGROUND as u16
                    } else {
                        Z_BG_TILE as u16
                    },
                )
            } else {
                z_color(bg_color, Z_BG as u16)
            }
        }
    }
}

/// Scrolling moves the map, not the screen: the background at screen pixel `(x, y)`
/// with scroll `(scroll_x, scroll_y)` is the unscrolled background at
/// `(x + scroll_x, y + scroll_y)`; so raising `scroll_y` by 8 shows the map one cell row
/// further down, and `scroll_x` never changes the row.
pub proof fn lemma_scroll_moves_map(
    bank: VideoBank<TILE_COUNT>,
    map: TilemapRef,
    scroll_x: int,
    scroll_y: int,
    wrap_bg: bool,
    bg_color: RGBA12,
    x: int,
    y: int,
)
    ensures
        background_pixel(bank, map, scroll_x, scroll_y, wrap_bg, bg_color, x, y) == background_pixel(
            bank,
            map,
            0,
            0,
            wrap_bg,
            bg_color,
            x + scroll_x,
            y + scroll_y,
        ),
        background_pixel(bank, map, scroll_x, scroll_y + 8, wrap_bg, bg_color, x, y) == background_pixel(
            bank,
            map,
            scroll_x,
            scroll_y,
            wrap_bg,
            bg_color,
            x,
            y + 8,
        ),
{
}

/// A repeated map shows, at any pixel, its own pixel at that position taken modulo its
/// size in pixels.
pub proof fn lemma_wrapped_map_repeats(
    bank: VideoBank<TILE_COUNT>,
    map: TilemapRef,
    bg_color: RGBA12,
    x: int,
    y: int,
)
    requires
        map.columns >= 1,
        map.rows >= 1,
    ensures
        background_pixel(bank, map, 0, 0, true, bg_color, x, y) == background_pixel(
            bank,
            map,
            0,
            0,
            true,
            bg_color,
            x % (map.columns * 8),
            y % (map.rows * 8),
        ),
        0 <= x % (map.columns * 8) < map.columns * 8,
        0 <= y % (map.rows * 8) < map.rows * 8,
{
    let w = map.columns * 8;
    let h = map.rows * 8;
    vstd::arithmetic::div_mod::lemma_mod_twice(x, w);
    vstd::arithmetic::div_mod::lemma_mod_twice(y, h);
    vstd::arithmetic::div_mod::lemma_mod_bound(x, w);
    vstd::arithmetic::div_mod::lemma_mod_bound(y, h);
}

/// Whether `sprite` covers screen pixel `(x, y)` of a screen `width` wide whose viewport
/// spans the columns `view_start..view_end`, with `line`'s slot of `x` marked.
pub open spec fn sprite_covers(
    sprite: SpriteEntry,
    line: Scanline,
    width: int,
    view_start: int,
    view_end: int,
    x: int,
    y: int,
) -> bool {
    &&& !has_flag(sprite.flags.0, FLAG_INVISIBLE)
    &&& 0 <= y - sprite.y < 8
    &&& 0 <= x && sprite.x <= x < sprite.x + 8 && x < width
    &&& view_start <= x < view_end
    &&& (line.mask >> (pixel_slot(x, width) as u16)) & 1 == 1
}

/// The sprite color at screen pixel `(x, y)` among the first `n` sprites of `line`,
/// searched from the last: the first covering sprite whose pixel there is not
/// transparent; transparent when there is none.
pub open spec fn sprite_pixel(
    bank: VideoBank<TILE_COUNT>,
    sprites: Seq<SpriteEntry>,
    line: Scanline,
    width: int,
    view_start: int,
    view_end: int,
    x: int,
    y: int,
    n: int,
) -> RGBA12
    decreases n,
{
    if n <= 0 {
        clear_color()
    } else {
        let s = sprites[line.sprites@[n - 1] as int];
        let c = sprite_color(bank, s, x - s.x, y - s.y);
        if sprite_covers(s, line, width, view_start, view_end, x, y) && c.spec_a() > 0 {
            z_color(c, Z_SPRITE as u16)
        } else {
            sprite_pixel(bank, sprites, line, width, view_start, view_end, x, y, n - 1)
        }
    }
}

/// The pixel shown where the sprite line holds `sprite` and the background line `bg`:
/// the sprite when it is not transparent and at least as far in front, else the
/// background when it is not transparent, else the background color.
pub open spec fn composite(sprite: RGBA12, bg: RGBA12, bg_color: RGBA12) -> RGBA12 {
    if sprite.spec_a() > 0 && sprite.spec_z() >= bg.spec_z() {
        sprite
    } else if bg.spec_a() > 0 {
        bg
    } else {
        z_color(bg_color, Z_BG as u16)
    }
}

/// A color with 8 bits per channel.
pub open spec fn widened(c: RGBA12) -> RGBA32 {
    RGBA32 {
        r: widen_channel(c.spec_r() as int) as u8,
        g: widen_channel(c.spec_g() as int) as u8,
        b: widen_channel(c.spec_b() as int) as u8,
        a: widen_channel(c.spec_a() as int) as u8,
    }
}

/// The tilemap can be drawn: its size in pixels fits an `i16`, its cells cover its grid,
/// and a repeated map is not empty.
pub open spec fn map_ok(map: TilemapRef, wrap_bg: bool) -> bool {
    &&& map.columns * 8 <= i16::MAX
    &&& map.rows * 8 <= i16::MAX
    &&& map.columns * map.rows <= map.cells@.len()
    &&& wrap_bg ==> map.columns >= 1 && map.rows >= 1
}

/// The value of pixel `(x, y)` of tile `id` drawn with `flags`.
fn tile_pixel_at(bank: &VideoBank<TILE_COUNT>, id: u8, flags: TileFlags, x: u8, y: u8) -> (r: u8)
    requires
        x < 8,
        y < 8,
    ensures
        r == tile_pixel_value(*bank, id, flags.0, x as int, y as int),
        r < 4,
{
    let (sx, sy) = flags.transform_coords(x, y, 8);
    proof {
        lemma_transform_in_tile(
            has_flag(flags.0, FLAG_FLIP_H),
            has_flag(flags.0, FLAG_FLIP_V),
            has_flag(flags.0, FLAG_ROTATED),
            x as int,
            y as int,
            8,
        );
    }
    bank.tile_pixel(id, sx, sy)
}

/// The color pixel `(x, y)` of a background cell shows.
fn cell_color_at(bank: &VideoBank<TILE_COUNT>, cell: &Cell, x: u8, y: u8) -> (r: RGBA12)
    requires
        x < 8,
        y < 8,
    ensures
        r == cell_color(*bank, *cell, x as int, y as int),
{
    let pixel = tile_pixel_at(bank, cell.id.0, cell.flags, x, y);
    let index = cell.colors.get(pixel);
    bank.palette_color(index)
}

/// The color pixel `(x, y)` of a sprite shows.
fn sprite_color_at(bank: &VideoBank<TILE_COUNT>, sprite: &SpriteEntry, x: u8, y: u8) -> (r: RGBA12)
    requires
        x < 8,
        y < 8,
        sprite_ok(*sprite, *bank),
    ensures
        r == sprite_color(*bank, *sprite, x as int, y as int),
{
    let pixel = tile_pixel_at(bank, sprite.id.0, sprite.flags, x, y);
    let index = bank.mapped_index(sprite.sub_palette, pixel);
    proof {
        assert(bank.mapping_view(sprite.sub_palette as int)[pixel as int] < 16);
    }
    bank.palette_color(index)
}

/// `v` modulo `m`, in `0..m`.
fn euclid_rem(v: i32, m: i32) -> (r: i32)
    requires
        0 < m <= i16::MAX,
    ensures
        r == v % m,
        0 <= r < m,
{
    proof {
        lemma_trunc_rem_floor(v as int, m as int);
    }
    wrap(v, m)
}

/// The background at screen pixel `(x, y)`; see `background_pixel`.
fn background_at(
    bank: &VideoBank<TILE_COUNT>,
    map: &TilemapRef,
    scroll_x: i16,
    scroll_y: i16,
    wrap_bg: bool,
    bg_color: RGBA12,
    x: u16,
    y: u16,
) -> (r: RGBA12)
    requires
        map_ok(*map, wrap_bg),
    ensures
        r == background_pixel(*bank, *map, scroll_x as int, scroll_y as int, wrap_bg, bg_color, x as int, y as int),
{
    let w = map.columns as i32 * 8;
    let h = map.rows as i32 * 8;
    let bx = x as i32 + scroll_x as i32;
    let by = y as i32 + scroll_y as i32;
    if !wrap_bg && (by < 0 || by >= h || bx < 0 || bx >= w) {
        return bg_color.with_z(Z_BG);
    }
    let px = euclid_rem(bx, w);
    let py = euclid_rem(by, h);
    let col = (px / 8) as usize;
    let row = (py / 8) as usize;
    let cell_count = map.cells.len();
    proof {
        assert(map.columns * map.rows <= cell_count);
        assert((map.rows as int) * (map.columns as int) == map.columns * map.rows) by (nonlinear_arith);
        assert(row * (map.columns as int) + col < (map.rows as int) * (map.columns as int)) by (nonlinear_arith)
            requires
                row < map.rows,
                col < map.columns,
        ;
        assert(row * (map.columns as int) + col >= 0) by (nonlinear_arith)
            requires
                row >= 0,
                col >= 0,
                map.columns >= 0,
        ;
    }
    let index = row * (map.columns as usize) + col;
    let cell = map.cells[index];
    if cell.flags.is_invisible() {
        return bg_color.with_z(Z_BG);
    }
    let c = cell_color_at(bank, &cell, (px % 8) as u8, (py % 8) as u8);
    if c.a() > 0 {
        let z = if cell.flags.is_fg() {
            Z_BG_FOREGROUND
        } else {
            Z_BG_TILE
        };
        c.with_z(z)
    } else {
        bg_color.with_z(Z_BG)
    }
}

/// Whether `sprite` covers screen pixel `(x, y)`; see `sprite_covers`.
fn covers(sprite: &SpriteEntry, line: &Scanline, width: u16, view_start: u16, view_end: u16, x: u16, y: u16) -> (r: bool)
    requires
        x < width,
    ensures
        r == sprite_covers(*sprite, *line, width as int, view_start as int, view_end as int, x as int, y as int),
{
    if sprite.flags.is_invisible() {
        return false;
    }
    let dy = y as i32 - sprite.y as i32;
    if dy < 0 || dy >= 8 {
        return false;
    }
    let xi = x as i32;
    if xi < sprite.x as i32 || xi >= sprite.x as i32 + 8 {
        return false;
    }
    if x < view_start || x >= view_end {
        return false;
    }
    proof {
        crate::video::sprite::lemma_pixel_slot(x as int, width as int);
    }
    let slot = ((x as u32 * 16) / width as u32) as u16;
    (line.mask >> slot) & 1 == 1
}

/// The columns `start..end` of a screen line that the viewport covers: from its left
/// edge to its right edge, cut at the screen's width.
pub open spec fn view_columns(chip: VideoChip) -> (int, int) {
    let vp = chip.viewport_spec();
    (vp.0 as int, min_int(vp.2 as int, chip.width_spec() as int))
}

/// Whether preparing screen row `y` leaves both lines as they were: the viewport covers
/// no column, the row is above the viewport, or the row is past the screen.
pub open spec fn row_kept(chip: VideoChip, y: int) -> bool {
    let (start, end) = view_columns(chip);
    start >= end || y < chip.viewport_spec().1 || y >= chip.height_spec()
}

/// Whether screen pixel `(x, y)` lies outside the viewport.
pub open spec fn outside_view(chip: VideoChip, x: int, y: int) -> bool {
    let (start, end) = view_columns(chip);
    x < start || x >= end || y < chip.viewport_spec().1 || y > chip.viewport_spec().3
}

/// The sprite line prepared for screen row `y` from the line `prev` of the row before:
/// unchanged for a kept row; all transparent below the viewport; else, inside the
/// viewport's columns, the sprite pixels of the row's scanline drawn from `bank`.
pub open spec fn sprite_line_for(
    chip: VideoChip,
    bank: VideoBank<TILE_COUNT>,
    prev: Seq<RGBA12>,
    y: int,
) -> Seq<RGBA12> {
    let (start, end) = view_columns(chip);
    let w = chip.width_spec() as int;
    let line = chip.sprites_spec().lines_view()[y];
    if row_kept(chip, y) {
        prev
    } else if y > chip.viewport_spec().3 {
        Seq::new(w as nat, |x: int| z_color(clear_color(), Z_SPRITE as u16))
    } else {
        Seq::new(
            w as nat,
            |x: int|
                if start <= x < end {
                    sprite_pixel(
                        bank,
                        chip.sprites_spec().sprites_view(),
                        line,
                        w,
                        start,
                        end,
                        x,
                        y,
                        line.sprite_count as int,
                    )
                } else {
                    prev[x]
                },
        )
    }
}

/// The background line prepared for screen row `y` from the line `prev` of the row
/// before: unchanged for a kept row; all the chip's background color below the
/// viewport; else the background inside the viewport's columns and `crop` outside them.
pub open spec fn bg_line_for(
    chip: VideoChip,
    bank: VideoBank<TILE_COUNT>,
    map: TilemapRef,
    scroll_x: int,
    scroll_y: int,
    wrap_bg: bool,
    bg_color: RGBA12,
    crop: RGBA12,
    prev: Seq<RGBA12>,
    y: int,
) -> Seq<RGBA12> {
    let (start, end) = view_columns(chip);
    let w = chip.width_spec() as int;
    if row_kept(chip, y) {
        prev
    } else if y > chip.viewport_spec().3 {
        Seq::new(w as nat, |x: int| z_color(chip.bg_color_spec(), Z_BG as u16))
    } else {
        Seq::new(
            w as nat,
            |x: int|
                if start <= x < end {
                    background_pixel(bank, map, scroll_x, scroll_y, wrap_bg, bg_color, x, y)
                } else {
                    z_color(crop, Z_BG as u16)
                },
        )
    }
}

/// The background line before the first row is prepared: the chip's background color
/// when the first row is outside the viewport, else transparent.
pub open spec fn first_bg_line(chip: VideoChip) -> Seq<RGBA12> {
    let c = if 0 < chip.viewport_spec().1 || 0 > chip.viewport_spec().3 {
        z_color(chip.bg_color_spec(), Z_BG as u16)
    } else {
        z_color(clear_color(), Z_BG as u16)
    };
    Seq::new(chip.width_spec() as nat, |x: int| c)
}

/// The sprite line before the first row is prepared: transparent.
pub open spec fn first_sprite_line(chip: VideoChip) -> Seq<RGBA12> {
    Seq::new(chip.width_spec() as nat, |x: int| z_color(clear_color(), Z_SPRITE as u16))
}

/// The sprites the scanline of every screen row lists can be drawn from `bank`: a line
/// lists at most 16 sprites, and each names one of the bank's color mappings, whose
/// entries for tile pixels name palette entries.
pub open spec fn sprites_ok(chip: VideoChip, bank: VideoBank<TILE_COUNT>) -> bool {
    forall|r: int|
        0 <= r < chip.height_spec() ==> #[trigger] line_ok(
            chip.sprites_spec().sprites_view(),
            chip.sprites_spec().lines_view()[r],
            bank,
        )
}

/// The sprites `line` lists can be drawn from `bank`.
pub open spec fn line_ok(sprites: Seq<SpriteEntry>, line: Scanline, bank: VideoBank<TILE_COUNT>) -> bool {
    &&& line.sprite_count <= SPRITES_PER_LINE
    &&& forall|n: int| 0 <= n < line.sprite_count ==> #[trigger] sprite_ok(sprites[line.sprites@[n] as int], bank)
}

/// `sprite` names a color mapping of `bank` whose entries for tile pixels name palette
/// entries.
pub open spec fn sprite_ok(sprite: SpriteEntry, bank: VideoBank<TILE_COUNT>) -> bool {
    &&& sprite.sub_palette < 16
    &&& forall|k: int| 0 <= k < 4 ==> #[trigger] bank.mapping_view(sprite.sub_palette as int)[k] < 16
}

/// Column `x` of a sprite line and a background line shows nothing but `crop`: the
/// sprite pixel is transparent, and the background pixel is transparent or `crop`.
pub open spec fn clear_at(sprite: Seq<RGBA12>, bg: Seq<RGBA12>, crop: RGBA12, x: int) -> bool {
    &&& sprite[x].spec_a() == 0
    &&& (bg[x].spec_a() == 0 || bg[x] == z_color(crop, Z_BG as u16))
}

/// A color with priority `z` has the alpha of `c`.
proof fn lemma_z_color_alpha(c: RGBA12, z: u16)
    requires
        z < 16,
    ensures
        z_color(c, z).spec_a() == c.spec_a(),
        clear_color().spec_a() == 0,
{
    let d = c.data;
    lemma_field_ranges(d);
    lemma_pack12(z, c.spec_a(), c.spec_r(), c.spec_g(), c.spec_b());
    assert((0u16 >> 9u16) & 7u16 == 0) by (bit_vector);
}

/// Preparing a row keeps the viewport's masking: when every column of the previous lines
/// that is outside the viewport's columns (or every column, for a row above the viewport
/// or no columns at all) shows nothing but the chip's background color, so does every
/// pixel of the new row outside the viewport.
proof fn lemma_row_masked(
    chip: VideoChip,
    fg_bank: VideoBank<TILE_COUNT>,
    bg_bank: VideoBank<TILE_COUNT>,
    map: TilemapRef,
    scroll_x: int,
    scroll_y: int,
    wrap_bg: bool,
    bg_color: RGBA12,
    crop: RGBA12,
    prev_sprite: Seq<RGBA12>,
    prev_bg: Seq<RGBA12>,
    y: int,
)
    requires
        crop == chip.bg_color_spec(),
        0 <= y < chip.height_spec(),
        prev_sprite.len() == chip.width_spec(),
        prev_bg.len() == chip.width_spec(),
        forall|x: int|
            0 <= x < chip.width_spec() && (x < view_columns(chip).0 || x >= view_columns(chip).1 || y
                < chip.viewport_spec().1) ==> #[trigger] clear_at(prev_sprite, prev_bg, crop, x),
    ensures
        forall|x: int|
            0 <= x < chip.width_spec() && outside_view(chip, x, y) ==> #[trigger] clear_at(
                sprite_line_for(chip, fg_bank, prev_sprite, y),
                bg_line_for(chip, bg_bank, map, scroll_x, scroll_y, wrap_bg, bg_color, crop, prev_bg, y),
                crop,
                x,
            ),
{
    lemma_z_color_alpha(clear_color(), Z_SPRITE as u16);
    assert forall|x: int| 0 <= x < chip.width_spec() && outside_view(chip, x, y) implies #[trigger] clear_at(
        sprite_line_for(chip, fg_bank, prev_sprite, y),
        bg_line_for(chip, bg_bank, map, scroll_x, scroll_y, wrap_bg, bg_color, crop, prev_bg, y),
        crop,
        x,
    ) by {
        if row_kept(chip, y) {
            assert(clear_at(prev_sprite, prev_bg, crop, x));
        } else if y > chip.viewport_spec().3 {
        } else {
            assert(clear_at(prev_sprite, prev_bg, crop, x));
        }
    }
}

/// Renders every pixel of the screen, row by row. For each row a sprite line and a
/// background line are prepared; each pixel is then the front one of the two.
#[derive(Debug, Clone)]
pub struct PixelIter<'a> {
    /// The chip being rendered.
    pub vid: &'a VideoChip,
    /// The column of the next pixel.
    pub x: u16,
    /// The row of the next pixel.
    pub y: u16,
    /// Whether the background map repeats.
    pub wrap_bg: bool,
    /// The tile bank sprites are drawn from.
    pub fg_tile_bank: u8,
    /// The tile bank the background is drawn from.
    pub bg_tile_bank: u8,
    /// The tilemap drawn as background.
    pub bg_map_bank: u8,
    /// The tile banks.
    pub tile_banks: &'a [VideoBank<TILE_COUNT>],
    /// The background tilemaps.
    pub tilemaps: &'a [TilemapRef<'a>],
    /// Horizontal scroll of the background.
    pub scroll_x: i16,
    /// Vertical scroll of the background.
    pub scroll_y: i16,
    /// The color shown where nothing else is.
    pub bg_color: RGBA12,
    /// The color shown outside the viewport.
    pub crop_color: RGBA12,
    /// The sprite line of the current row.
    pub sprite_buffer: Vec<RGBA12>,
    /// The background line of the current row.
    pub bg_buffer: Vec<RGBA12>,
}

/// The sprite color at screen pixel `(x, y)`; see `sprite_pixel`.
fn sprite_at(
    chip: &VideoChip,
    bank: &VideoBank<TILE_COUNT>,
    line: &Scanline,
    width: u16,
    start: u16,
    end: u16,
    x: u16,
    y: u16,
) -> (r: RGBA12)
    requires
        x < width,
        line_ok(chip.sprites_spec().sprites_view(), *line, *bank),
    ensures
        r == sprite_pixel(
            *bank,
            chip.sprites_spec().sprites_view(),
            *line,
            width as int,
            start as int,
            end as int,
            x as int,
            y as int,
            line.sprite_count as int,
        ),
{
    let ghost sprites = chip.sprites_spec().sprites_view();
    let mut n: u8 = line.sprite_count;
    while n > 0
        invariant
            n <= line.sprite_count <= SPRITES_PER_LINE,
            x < width,
            line_ok(sprites, *line, *bank),
            sprites == chip.sprites_spec().sprites_view(),
            sprite_pixel(*bank, sprites, *line, width as int, start as int, end as int, x as int, y as int, line.sprite_count as int)
                == sprite_pixel(*bank, sprites, *line, width as int, start as int, end as int, x as int, y as int, n as int),
        decreases n,
    {
        let index = line.sprites[(n - 1) as usize];
        let sprite = chip.sprite_entry(index);
        proof {
            assert(sprite_ok(sprites[line.sprites@[n - 1] as int], *bank));
        }
        if covers(sprite, line, width, start, end, x, y) {
            let c = sprite_color_at(
                bank,
                sprite,
                (x as i32 - sprite.x as i32) as u8,
                (y as i32 - sprite.y as i32) as u8,
            );
            if c.a() > 0 {
                return c.with_z(Z_SPRITE);
            }
        }
        n = n - 1;
    }
    RGBA12::transparent()
}

/// A line of `width` pixels of color `c`.
fn filled_line(width: u16, c: RGBA12) -> (r: Vec<RGBA12>)
    ensures
        r@ == Seq::new(width as nat, |x: int| c),
{
    let mut v: Vec<RGBA12> = Vec::new();
    let mut i: u16 = 0;
    while i < width
        invariant
            i <= width,
            v@ == Seq::new(i as nat, |x: int| c),
        decreases width - i,
    {
        v.push(c);
        i = i + 1;
        assert(v@ =~= Seq::new(i as nat, |x: int| c));
    }
    v
}

/// Draws the sprite pixels of screen row `y` into the columns `start..end` of `buf`.
fn draw_sprite_row(
    buf: &mut Vec<RGBA12>,
    chip: &VideoChip,
    bank: &VideoBank<TILE_COUNT>,
    start: u16,
    end: u16,
    y: u16,
)
    requires
        chip.wf(),
        old(buf)@.len() == chip.width_spec(),
        end <= chip.width_spec(),
        y < chip.height_spec(),
        sprites_ok(*chip, *bank),
    ensures
        final(buf)@ == Seq::new(
            chip.width_spec() as nat,
            |x: int|
                if start <= x < end {
                    sprite_pixel(
                        *bank,
                        chip.sprites_spec().sprites_view(),
                        chip.sprites_spec().lines_view()[y as int],
                        chip.width_spec() as int,
                        start as int,
                        end as int,
                        x,
                        y as int,
                        chip.sprites_spec().lines_view()[y as int].sprite_count as int,
                    )
                } else {
                    old(buf)@[x]
                },
        ),
{
    proof {
        chip.lemma_screen();
    }
    let width = chip.width();
    let line = chip.scanline(y);
    let ghost sprites = chip.sprites_spec().sprites_view();
    let ghost target = Seq::new(
        width as nat,
        |x: int|
            if start <= x < end {
                sprite_pixel(*bank, sprites, *line, width as int, start as int, end as int, x, y as int, line.sprite_count as int)
            } else {
                old(buf)@[x]
            },
    );
    assert(line_ok(sprites, *line, *bank));
    let mut x: u16 = start;
    if x < end {
        while x < end
            invariant
                start <= x <= end <= width,
                width == chip.width_spec(),
                buf@.len() == width,
                line_ok(sprites, *line, *bank),
                sprites == chip.sprites_spec().sprites_view(),
                target.len() == width,
                forall|k: int|
                    start <= k < end ==> #[trigger] target[k] == sprite_pixel(
                        *bank,
                        sprites,
                        *line,
                        width as int,
                        start as int,
                        end as int,
                        k,
                        y as int,
                        line.sprite_count as int,
                    ),
                forall|k: int| 0 <= k < width ==> #[trigger] buf@[k] == if start <= k < x { target[k] } else { old(buf)@[k] },
            decreases end - x,
        {
            let c = sprite_at(chip, bank, line, width, start, end, x, y);
            assert(c == target[x as int]);
            buf.set(x as usize, c);
            x = x + 1;
        }
    }
    assert(buf@ =~= target);
}

/// Draws the background of screen row `y` into the columns `start..end` of `buf`, and
/// `crop` into the others.
fn draw_bg_row(
    buf: &mut Vec<RGBA12>,
    bank: &VideoBank<TILE_COUNT>,
    map: &TilemapRef,
    scroll_x: i16,
    scroll_y: i16,
    wrap_bg: bool,
    bg_color: RGBA12,
    crop: RGBA12,
    start: u16,
    end: u16,
    y: u16,
)
    requires
        map_ok(*map, wrap_bg),
        old(buf)@.len() <= u16::MAX,
    ensures
        final(buf)@ == Seq::new(
            old(buf)@.len(),
            |x: int|
                if start <= x < end {
                    background_pixel(*bank, *map, scroll_x as int, scroll_y as int, wrap_bg, bg_color, x, y as int)
                } else {
                    z_color(crop, Z_BG as u16)
                },
        ),
{
    let ghost target = Seq::new(
        old(buf)@.len(),
        |x: int|
            if start <= x < end {
                background_pixel(*bank, *map, scroll_x as int, scroll_y as int, wrap_bg, bg_color, x, y as int)
            } else {
                z_color(crop, Z_BG as u16)
            },
    );
    let width = buf.len();
    let mut x: usize = 0;
    while x < width
        invariant
            x <= width <= u16::MAX,
            buf@.len() == width,
            width == old(buf)@.len(),
            map_ok(*map, wrap_bg),
            target.len() == width,
            forall|k: int|
                0 <= k < width ==> #[trigger] target[k] == if start <= k < end {
                    background_pixel(*bank, *map, scroll_x as int, scroll_y as int, wrap_bg, bg_color, k, y as int)
                } else {
                    z_color(crop, Z_BG as u16)
                },
            forall|k: int| 0 <= k < x ==> #[trigger] buf@[k] == target[k],
        decreases width - x,
    {
        let xx = x as u16;
        let c = if start <= xx && xx < end {
            background_at(bank, map, scroll_x, scroll_y, wrap_bg, bg_color, xx, y)
        } else {
            crop.with_z(Z_BG)
        };
        assert(c == target[x as int]);
        buf.set(x, c);
        x = x + 1;
    }
    assert(buf@ =~= target);
}

impl<'a> PixelIter<'a> {
    /// The chip being rendered.
    pub open spec fn chip(self) -> VideoChip {
        *self.vid
    }

    /// The screen position of the next pixel.
    pub open spec fn position(self) -> (u16, u16) {
        (self.x, self.y)
    }

    /// Whether the background map repeats.
    pub open spec fn wraps(self) -> bool {
        self.wrap_bg
    }

    /// The sprite line of the current row.
    pub open spec fn sprite_line(self) -> Seq<RGBA12> {
        self.sprite_buffer@
    }

    /// The background line of the current row.
    pub open spec fn bg_line(self) -> Seq<RGBA12> {
        self.bg_buffer@
    }

    /// The bank sprites are drawn from.
    pub open spec fn fg_bank(self) -> VideoBank<TILE_COUNT> {
        bank_at(self.tile_banks@, self.fg_tile_bank)
    }

    /// The bank the background is drawn from.
    pub open spec fn bg_bank(self) -> VideoBank<TILE_COUNT> {
        bank_at(self.tile_banks@, self.bg_tile_bank)
    }

    /// The tilemap drawn as background.
    pub open spec fn bg_map(self) -> TilemapRef<'a> {
        map_at(self.tilemaps@, self.bg_map_bank)
    }

    /// The lines prepared for screen row `y` from the current ones.
    pub open spec fn lines_for(self, y: int) -> (Seq<RGBA12>, Seq<RGBA12>) {
        (
            sprite_line_for(self.chip(), self.fg_bank(), self.sprite_line(), y),
            bg_line_for(
                self.chip(),
                self.bg_bank(),
                self.bg_map(),
                self.scroll_x as int,
                self.scroll_y as int,
                self.wraps(),
                self.bg_color,
                self.crop_color,
                self.bg_line(),
                y,
            ),
        )
    }

    /// The pixel at the current position: the front one of the two lines.
    pub open spec fn pixel(self) -> RGBA32 {
        let x = self.position().0 as int;
        widened(composite(self.sprite_line()[x], self.bg_line()[x], self.bg_color))
    }

    /// The private state is consistent: the chip is well formed, both lines span the
    /// screen's width and the position is on screen or just past its last row.
    pub open spec fn state_ok(self) -> bool {
        &&& self.vid.wf()
        &&& self.sprite_buffer@.len() == self.vid.width_spec()
        &&& self.bg_buffer@.len() == self.vid.width_spec()
        &&& self.x < self.vid.width_spec()
        &&& self.y <= self.vid.height_spec()
    }

    /// The iterator can go on: its state is consistent, there are banks and tilemaps, the
    /// background tilemap can be drawn and every scanline's sprites can be drawn.
    pub open spec fn wf(self) -> bool {
        &&& self.state_ok()
        &&& self.tile_banks@.len() >= 1
        &&& self.tilemaps@.len() >= 1
        &&& map_ok(self.bg_map(), self.wraps())
        &&& sprites_ok(self.chip(), self.fg_bank())
    }

    /// Every pixel of the current row outside the viewport shows nothing but the chip's
    /// background color.
    pub open spec fn masked(self) -> bool {
        self.y < self.vid.height_spec() ==> forall|x: int|
            0 <= x < self.vid.width_spec() && outside_view(*self.vid, x, self.y as int)
                ==> #[trigger] clear_at(self.sprite_buffer@, self.bg_buffer@, self.vid.bg_color_spec(), x)
    }

    /// `self` is a renderer just made for `vid` from the tile banks `banks` and the
    /// tilemaps `maps`: it has the chip's settings, stands at the first pixel, and holds
    /// the lines of the first row, prepared from a transparent sprite line and the
    /// background line `first_bg_line`.
    pub open spec fn starts(self, vid: VideoChip, banks: Seq<VideoBank<TILE_COUNT>>, maps: Seq<TilemapRef<'a>>) -> bool {
        &&& self.wf()
        &&& self.masked()
        &&& self.chip() == vid
        &&& self.position() == (0u16, 0u16)
        &&& self.wraps() == vid.wrap_bg_spec()
        &&& self.fg_tile_bank == vid.banks_spec().0
        &&& self.bg_tile_bank == vid.banks_spec().1
        &&& self.bg_map_bank == 0
        &&& self.tile_banks@ == banks
        &&& self.tilemaps@ == maps
        &&& self.scroll_x == vid.scroll_x_spec()
        &&& self.scroll_y == vid.scroll_y_spec()
        &&& self.bg_color == vid.bg_color_spec()
        &&& self.crop_color == vid.bg_color_spec()
        &&& self.sprite_line() == sprite_line_for(vid, self.fg_bank(), first_sprite_line(vid), 0)
        &&& self.bg_line() == bg_line_for(
            vid,
            self.bg_bank(),
            self.bg_map(),
            self.scroll_x as int,
            self.scroll_y as int,
            self.wraps(),
            self.bg_color,
            self.crop_color,
            first_bg_line(vid),
            0,
        )
    }

    /// `self` and `other` render the same chip with the same settings.
    pub open spec fn same_setup(self, other: PixelIter<'a>) -> bool {
        &&& self.vid == other.vid
        &&& self.wrap_bg == other.wrap_bg
        &&& self.fg_tile_bank == other.fg_tile_bank
        &&& self.bg_tile_bank == other.bg_tile_bank
        &&& self.bg_map_bank == other.bg_map_bank
        &&& self.tile_banks == other.tile_banks
        &&& self.tilemaps == other.tilemaps
        &&& self.scroll_x == other.scroll_x
        &&& self.scroll_y == other.scroll_y
        &&& self.bg_color == other.bg_color
        &&& self.crop_color == other.crop_color
    }

    /// A renderer of `vid`'s screen from the tile banks `video_mem` and the background
    /// tilemaps `bg_maps`, with the chip's settings, positioned at the first pixel with
    /// the lines of the first row prepared.
    pub fn new(vid: &'a VideoChip, video_mem: &'a [VideoBank<TILE_COUNT>], bg_maps: &'a [TilemapRef<'a>]) -> (r:
        Self)
        requires
            vid.wf(),
            video_mem@.len() >= 1,
            bg_maps@.len() >= 1,
            map_ok(bg_maps@[0], vid.wrap_bg_spec()),
            sprites_ok(*vid, bank_at(video_mem@, vid.banks_spec().0)),
        ensures
            r.starts(*vid, video_mem@, bg_maps@),
    {
        proof {
            vid.lemma_screen();
        }
        let width = vid.width();
        let (bg_color, wrap_bg, scroll_x, scroll_y) = vid.background_settings();
        let (fg_tile_bank, bg_tile_bank) = vid.banks();
        let (_, top, _, bottom) = vid.viewport();
        let first_bg = if 0 < top || 0 > bottom {
            bg_color.with_z(Z_BG)
        } else {
            RGBA12::transparent().with_z(Z_BG)
        };
        let mut result = Self {
            vid,
            x: 0,
            y: 0,
            wrap_bg,
            fg_tile_bank,
            bg_tile_bank,
            bg_map_bank: 0,
            tile_banks: video_mem,
            tilemaps: bg_maps,
            scroll_x,
            scroll_y,
            bg_color,
            crop_color: bg_color,
            sprite_buffer: filled_line(width, RGBA12::transparent().with_z(Z_SPRITE)),
            bg_buffer: filled_line(width, first_bg),
        };
        assert(result.sprite_buffer@ =~= first_sprite_line(*vid));
        assert(result.bg_buffer@ =~= first_bg_line(*vid));
        proof {
            lemma_z_color_alpha(clear_color(), Z_SPRITE as u16);
            lemma_z_color_alpha(clear_color(), Z_BG as u16);
            lemma_row_masked(
                *vid,
                result.fg_bank(),
                result.bg_bank(),
                result.bg_map(),
                scroll_x as int,
                scroll_y as int,
                wrap_bg,
                bg_color,
                bg_color,
                result.sprite_buffer@,
                result.bg_buffer@,
                0,
            );
        }
        result.render_line();
        assert(result.starts(*vid, video_mem@, bg_maps@));
        result
    }

    /// The column of the next pixel.
    pub fn x(&self) -> (r: u16)
        ensures
            r == self.position().0,
    {
        self.x
    }

    /// The row of the next pixel.
    pub fn y(&self) -> (r: u16)
        ensures
            r == self.position().1,
    {
        self.y
    }

    /// The next pixel of the screen, row by row, or `None` past the last row. At the end
    /// of a row the lines of the next one are prepared.
    pub fn next(&mut self) -> (r: Option<RGBA32>)
        requires
            old(self).wf(),
        ensures
            final(self).wf(),
            final(self).same_setup(*old(self)),
            old(self).masked() && old(self).crop_color == old(self).chip().bg_color_spec()
                ==> final(self).masked(),
            old(self).position().1 >= old(self).chip().height_spec() ==> r is None && *final(self)
                == *old(self),
            old(self).position().1 < old(self).chip().height_spec() ==> {
                let (x, y) = old(self).position();
                &&& r == Some(old(self).pixel())
                &&& x + 1 < old(self).chip().width_spec() ==> {
                    &&& final(self).position() == ((x + 1) as u16, y)
                    &&& final(self).sprite_line() == old(self).sprite_line()
                    &&& final(self).bg_line() == old(self).bg_line()
                }
                &&& x + 1 >= old(self).chip().width_spec() ==> {
                    &&& final(self).position() == (0u16, (y + 1) as u16)
                    &&& final(self).sprite_line() == old(self).lines_for(y + 1).0
                    &&& final(self).bg_line() == old(self).lines_for(y + 1).1
                }
            },
    {
        if self.y >= self.vid.height() {
            return None;
        }
        let sprite = self.sprite_buffer[self.x as usize];
        let bg = self.bg_buffer[self.x as usize];
        let front = if sprite.a() > 0 && sprite.z() >= bg.z() {
            sprite
        } else if bg.a() > 0 {
            bg
        } else {
            self.bg_color.with_z(Z_BG)
        };
        let color = RGBA32::from(front);
        self.x = self.x + 1;
        if self.x == self.vid.width() {
            self.x = 0;
            self.y = self.y + 1;
            proof {
                if old(self).masked() && old(self).crop_color == old(self).chip().bg_color_spec()
                    && self.y < self.vid.height_spec() {
                    lemma_row_masked(
                        *self.vid,
                        self.fg_bank(),
                        self.bg_bank(),
                        self.bg_map(),
                        self.scroll_x as int,
                        self.scroll_y as int,
                        self.wrap_bg,
                        self.bg_color,
                        self.crop_color,
                        self.sprite_buffer@,
                        self.bg_buffer@,
                        self.y as int,
                    );
                }
            }
            self.render_line();
        }
        Some(color)
    }

    /// The bank at `index`, or the first one when there is none there.
    fn bank(&self, index: u8) -> (r: &'a VideoBank<TILE_COUNT>)
        requires
            self.tile_banks@.len() >= 1,
        ensures
            *r == bank_at(self.tile_banks@, index),
    {
        let banks = self.tile_banks;
        if (index as usize) < banks.len() {
            &banks[index as usize]
        } else {
            &banks[0]
        }
    }

    /// The tilemap drawn as background.
    fn map(&self) -> (r: &'a TilemapRef<'a>)
        requires
            self.tilemaps@.len() >= 1,
        ensures
            *r == self.bg_map(),
    {
        let maps = self.tilemaps;
        if (self.bg_map_bank as usize) < maps.len() {
            &maps[self.bg_map_bank as usize]
        } else {
            &maps[0]
        }
    }

    /// Prepares the sprite and background lines of the current row.
    fn render_line(&mut self)
        requires
            old(self).wf(),
        ensures
            final(self).sprite_buffer@ == old(self).lines_for(old(self).y as int).0,
            final(self).bg_buffer@ == old(self).lines_for(old(self).y as int).1,
            *final(self) == (PixelIter {
                sprite_buffer: final(self).sprite_buffer,
                bg_buffer: final(self).bg_buffer,
                ..*old(self)
            }),
    {
        proof {
            self.vid.lemma_screen();
        }
        let vid = self.vid;
        let width = vid.width();
        let (left, top, right, bottom) = vid.viewport();
        let start = left;
        let end = if right < width {
            right
        } else {
            width
        };
        if start >= end || self.y < top || self.y >= vid.height() {
            return;
        }
        if self.y > bottom {
            let (chip_bg, _, _, _) = vid.background_settings();
            self.bg_buffer = filled_line(width, chip_bg.with_z(Z_BG));
            self.sprite_buffer = filled_line(width, RGBA12::transparent().with_z(Z_SPRITE));
            assert(self.bg_buffer@ =~= old(self).lines_for(old(self).y as int).1);
            assert(self.sprite_buffer@ =~= old(self).lines_for(old(self).y as int).0);
            return;
        }
        let fg = self.bank(self.fg_tile_bank);
        let bg = self.bank(self.bg_tile_bank);
        let map = self.map();
        let y = self.y;
        draw_sprite_row(&mut self.sprite_buffer, vid, fg, start, end, y);
        draw_bg_row(
            &mut self.bg_buffer,
            bg,
            map,
            self.scroll_x,
            self.scroll_y,
            self.wrap_bg,
            self.bg_color,
            self.crop_color,
            start,
            end,
            y,
        );
    }
}

/// The viewport masks the screen: with the background and crop colors a renderer starts
/// with, every pixel outside the viewport shows the chip's background color. A renderer
/// starts masked, and `next` keeps it masked.
pub proof fn lemma_outside_viewport_shows_bg_color(it: PixelIter)
    requires
        it.wf(),
        it.masked(),
        it.crop_color == it.chip().bg_color_spec(),
        it.bg_color == it.chip().bg_color_spec(),
        it.position().1 < it.chip().height_spec(),
        outside_view(it.chip(), it.position().0 as int, it.position().1 as int),
    ensures
        it.pixel() == widened(z_color(it.chip().bg_color_spec(), Z_BG as u16)),
{
    assert(clear_at(it.sprite_buffer@, it.bg_buffer@, it.vid.bg_color_spec(), it.x as int));
}

impl VideoChip {
    /// An iterator over the screen's pixels, row by row, drawn from the tile banks
    /// `video_banks` and the background tilemaps `bg_banks`.
    pub fn iter_pixels<'a>(&'a self, video_banks: &'a [VideoBank<TILE_COUNT>], bg_banks: &'a [TilemapRef<'a>]) -> (r:
        PixelIter<'a>)
        requires
            self.wf(),
            video_banks@.len() >= 1,
            bg_banks@.len() >= 1,
            map_ok(bg_banks@[0], self.wrap_bg_spec()),
            sprites_ok(*self, bank_at(video_banks@, self.banks_spec().0)),
        ensures
            r.starts(*self, video_banks@, bg_banks@),
    {
        PixelIter::new(self, video_banks, bg_banks)
    }
}

} // verus!