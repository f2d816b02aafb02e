use vstd::prelude::*;
use crate::math::scalar::{trunc_rem, lemma_trunc_rem_floor};
use crate::video::color::RGBA12;
use crate::video::tile::TileID;
use crate::video::tile_flags::{TileFlags, FLAG_FLIP_H, FLAG_FLIP_V};
use crate::video::palette::PaletteID;
use crate::video::cell::Cell;
use crate::video::consts::MAX_LINES;
use crate::video::sprite::{SpriteGenerator, inserted};
use crate::video::tilemap::{DynTilemap, fits_i16, u16_as_i16, lemma_u16_as_i16};

verus! {

/// A convenient packet of data used to draw a single tile as a sprite.
#[derive(Debug, Clone, Copy)]
pub struct DrawBundle {
    pub x: i16,
    pub y: i16,
    pub id: TileID,
    pub flags: TileFlags,
    pub sub_palette: PaletteID,
}

/// A convenient packet of data used to draw a tilemap as a sprite.
#[derive(Debug, Clone, Copy)]
pub struct SpriteBundle {
    pub x: i16,
    pub y: i16,
    pub flip_x: bool,
    pub flip_y: bool,
}

/// Where a foreground tile at `(x, y)` lands on a `w` by `h` screen scrolled by
/// `(scroll_x, scroll_y)`, or `None` when it is not drawn. With wrapping, positions
/// wrap around a band one tile wider than the screen on each side; without, a tile
/// outside the scrolled screen is not drawn.
pub open spec fn fg_tile_position(
    wrap: bool,
    x: int,
    y: int,
    scroll_x: int,
    scroll_y: int,
    w: u16,
    h: u16,
) -> Option<(int, int)> {
    let wi = u16_as_i16(w);
    let hi = u16_as_i16(h);
    if wrap {
        Some(((x - scroll_x + 8) % (wi + 16) - 8, (y - scroll_y + 8) % (hi + 16) - 8))
    } else if x + 8 < scroll_x || x > scroll_x + u16_as_i16((w - 1) as u16) {
        None
    } else if y + 8 < scroll_y || y > scroll_y + u16_as_i16((h - 1) as u16) {
        None
    } else {
        Some((x - scroll_x, y - scroll_y))
    }
}

/// Every step of placing a foreground tile fits an `i16`, and the screen width leaves
/// room for a tile.
pub open spec fn fg_tile_fits(
    wrap: bool,
    x: int,
    y: int,
    scroll_x: int,
    scroll_y: int,
    w: u16,
    h: u16,
) -> bool {
    let wi = u16_as_i16(w);
    let hi = u16_as_i16(h);
    &&& fits_i16(wi + 8)
    &&& wrap ==> {
        &&& fits_i16(x - scroll_x)
        &&& fits_i16(x - scroll_x + 8)
        &&& fits_i16(y - scroll_y)
        &&& fits_i16(y - scroll_y + 8)
        &&& fits_i16(wi + 16)
        &&& fits_i16(hi + 16)
        &&& wi + 16 > 0
        &&& hi + 16 > 0
        &&& fits_i16(trunc_rem(x - scroll_x + 8, wi + 16) + wi + 16)
        &&& fits_i16(trunc_rem(y - scroll_y + 8, hi + 16) + hi + 16)
    }
    &&& !wrap ==> {
        &&& fits_i16(scroll_x + u16_as_i16((w - 1) as u16))
        &&& fits_i16(scroll_y + u16_as_i16((h - 1) as u16))
        &&& fits_i16(x + 8)
        &&& fits_i16(y + 8)
        &&& fits_i16(x - scroll_x)
        &&& fits_i16(y - scroll_y)
    }
}

/// Main drawing context that manages the screen, tiles, and palette.
#[derive(Debug)]
pub struct VideoChip {
    /// The color rendered if resulting pixel is transparent
    pub bg_color: RGBA12,
    /// Brings sprites "outside the screen" into view.
    pub wrap_sprites: bool,
    /// Repeats the BG Map outside its borders
    pub wrap_bg: bool,
    /// Offsets the BG Map and Sprite tiles horizontally
    pub scroll_x: i16,
    /// Offsets the BG Map and Sprite tiles vertically
    pub scroll_y: i16,
    pub fg_tile_bank: u8,
    pub bg_tile_bank: u8,
    // ---------------------- Main Data ----------------------
    pub(crate) sprite_gen: SpriteGenerator,
    pub(crate) w: u16,
    pub(crate) h: u16,
    // ---------------------- Bookkeeping ----------------------
    // view rect cache
    pub(crate) view_left: u16,
    pub(crate) view_top: u16,
    pub(crate) view_right: u16,
    pub(crate) view_bottom: u16,
    // Internal timer.
    frame_number: usize,
}

/// `after` is the sprite generator `before` after drawing `data` as a foreground tile
/// on `chip`'s screen.
pub open spec fn fg_tile_drawn(
    chip: VideoChip,
    before: SpriteGenerator,
    after: SpriteGenerator,
    data: DrawBundle,
) -> bool {
    match fg_tile_position(
        chip.wrap_sprites_spec(),
        data.x as int,
        data.y as int,
        chip.scroll_x_spec() as int,
        chip.scroll_y_spec() as int,
        chip.width_spec(),
        chip.height_spec(),
    ) {
        Some(p) => inserted(
            before,
            after,
            p.0 as i16,
            p.1 as i16,
            chip.width_spec(),
            chip.height_spec(),
            data.flags,
            data.id,
            data.sub_palette,
        ),
        None => after == before,
    }
}

/// The tile a sprite drawn from a tilemap puts down for the cell at column `col`, row
/// `row` of a map `columns` by `rows`: mirrored where the bundle flips, with the flip
/// flags toggled, and drawn with sub-palette 0.
pub open spec fn sprite_cell_bundle(
    bundle: SpriteBundle,
    cell: Cell,
    col: int,
    row: int,
    columns: int,
    rows: int,
) -> DrawBundle {
    let draw_col = if bundle.flip_x {
        columns - col - 1
    } else {
        col
    };
    let draw_row = if bundle.flip_y {
        rows - row - 1
    } else {
        row
    };
    let f1 = if bundle.flip_x {
        cell.flags.0 ^ FLAG_FLIP_H
    } else {
        cell.flags.0
    };
    let f2 = if bundle.flip_y {
        f1 ^ FLAG_FLIP_V
    } else {
        f1
    };
    DrawBundle {
        x: (draw_col * 8 + bundle.x) as i16,
        y: (draw_row * 8 + bundle.y) as i16,
        id: cell.id,
        flags: TileFlags(f2),
        sub_palette: PaletteID(0),
    }
}

/// The tiles a sprite drawn from a map puts down, row by row: `columns` cells per row.
pub open spec fn sprite_bundles(
    bundle: SpriteBundle,
    cells: Seq<Cell>,
    columns: int,
    rows: int,
    map_columns: int,
) -> Seq<DrawBundle> {
    Seq::new(
        (columns * rows) as nat,
        |i: int|
            sprite_cell_bundle(
                bundle,
                cells[(i / columns) * map_columns + i % columns],
                i % columns,
                i / columns,
                columns,
                rows,
            ),
    )
}

/// Drawing the cell of bundle `i` of a sprite from a map `columns` by `rows` fits: its
/// position's arithmetic fits an `i16`, and so does placing the tile on `chip`'s screen.
pub open spec fn sprite_draw_fits(
    chip: VideoChip,
    bundle: SpriteBundle,
    bundles: Seq<DrawBundle>,
    columns: int,
    rows: int,
    i: int,
) -> bool {
    let draw_col = if bundle.flip_x {
        columns - i % columns - 1
    } else {
        i % columns
    };
    let draw_row = if bundle.flip_y {
        rows - i / columns - 1
    } else {
        i / columns
    };
    &&& fits_i16(draw_col * 8)
    &&& fits_i16(draw_col * 8 + bundle.x)
    &&& fits_i16(draw_row * 8)
    &&& fits_i16(draw_row * 8 + bundle.y)
    &&& fg_tile_fits(
        chip.wrap_sprites_spec(),
        bundles[i].x as int,
        bundles[i].y as int,
        chip.scroll_x_spec() as int,
        chip.scroll_y_spec() as int,
        chip.width_spec(),
        chip.height_spec(),
    )
}

/// The sprite generators `gens` follow each other by drawing the tiles `bundles` on
/// `chip`'s screen, in order.
pub open spec fn drawn_in_order(
    chip: VideoChip,
    gens: Seq<SpriteGenerator>,
    bundles: Seq<DrawBundle>,
) -> bool {
    &&& gens.len() == bundles.len() + 1
    &&& forall|i: int|
        0 <= i < bundles.len() ==> fg_tile_drawn(chip, #[trigger] gens[i], gens[i + 1], bundles[i])
}

impl VideoChip {
    /// The screen is at least one pixel wide and 8 to 240 pixels high.
    pub closed spec fn wf(self) -> bool {
        &&& self.w >= 1
        &&& 8 <= self.h <= MAX_LINES
    }

    /// Screen width.
    pub closed spec fn width_spec(self) -> u16 {
        self.w
    }

    /// Screen height.
    pub closed spec fn height_spec(self) -> u16 {
        self.h
    }

    /// The frame counter.
    pub closed spec fn frame_spec(self) -> int {
        self.frame_number as int
    }

    /// The viewport: left, top, right and bottom.
    pub closed spec fn viewport_spec(self) -> (u16, u16, u16, u16) {
        (self.view_left, self.view_top, self.view_right, self.view_bottom)
    }

    /// The sprites of the frame.
    pub closed spec fn sprites_spec(self) -> SpriteGenerator {
        self.sprite_gen
    }

    /// The background color.
    pub closed spec fn bg_color_spec(self) -> RGBA12 {
        self.bg_color
    }

    /// Whether sprites wrap around the screen.
    pub closed spec fn wrap_sprites_spec(self) -> bool {
        self.wrap_sprites
    }

    /// Whether the background map repeats.
    pub closed spec fn wrap_bg_spec(self) -> bool {
        self.wrap_bg
    }

    /// Horizontal scroll.
    pub closed spec fn scroll_x_spec(self) -> i16 {
        self.scroll_x
    }

    /// Vertical scroll.
    pub closed spec fn scroll_y_spec(self) -> i16 {
        self.scroll_y
    }

    /// The tile banks of the foreground and the background.
    pub closed spec fn banks_spec(self) -> (u8, u8) {
        (self.fg_tile_bank, self.bg_tile_bank)
    }

    /// Everything but the sprites and the frame counter is the same in `self` and `other`.
    pub open spec fn same_settings(self, other: VideoChip) -> bool {
        &&& self.wf() == other.wf()
        &&& self.width_spec() == other.width_spec()
        &&& self.height_spec() == other.height_spec()
        &&& self.viewport_spec() == other.viewport_spec()
        &&& self.bg_color_spec() == other.bg_color_spec()
        &&& self.wrap_sprites_spec() == other.wrap_sprites_spec()
        &&& self.wrap_bg_spec() == other.wrap_bg_spec()
        &&& self.scroll_x_spec() == other.scroll_x_spec()
        &&& self.scroll_y_spec() == other.scroll_y_spec()
        &&& self.banks_spec() == other.banks_spec()
    }

    /// The screen dimensions of a well-formed chip.
    pub proof fn lemma_screen(self)
        requires
            self.wf(),
        ensures
            self.width_spec() >= 1,
            8 <= self.height_spec() <= MAX_LINES,
    {
    }

    /// Creates a new drawing context with default settings.
    pub fn new(w: u16, h: u16) -> (r: Self)
        requires
            w >= 1,
            8 <= h <= MAX_LINES,
        ensures
            r.wf(),
            r.width_spec() == w,
            r.height_spec() == h,
            r.frame_spec() == 0,
            r.viewport_spec() == (0u16, 0u16, (w - 1) as u16, (h - 1) as u16),
            r.bg_color_spec() == (RGBA12 { data: 3584 }),
            r.wrap_sprites_spec(),
            r.wrap_bg_spec(),
            r.scroll_x_spec() == 0,
            r.scroll_y_spec() == 0,
            r.banks_spec() == (0u8, 0u8),
            r.sprites_spec().count() == 0,
    {
        let mut result = Self {
            bg_color: RGBA12::black(),
            wrap_sprites: true,
            wrap_bg: true,
            sprite_gen: SpriteGenerator::new(),
            view_left: 0,
            view_top: 0,
            view_right: w - 1,
            view_bottom: h - 1,
            w,
            h,
            scroll_x: 0,
            scroll_y: 0,
            frame_number: 0,
            fg_tile_bank: 0,
            bg_tile_bank: 0,
        };
        result.reset_all();
        result
    }

    /// The largest x coordinate on screen.
    pub fn max_x(&self) -> (r: u16)
        requires
            self.wf(),
        ensures
            r == self.width_spec() - 1,
    {
        self.w - 1
    }

    /// The largest y coordinate on screen.
    pub fn max_y(&self) -> (r: u16)
        requires
            self.wf(),
        ensures
            r == self.height_spec() - 1,
    {
        self.h - 1
    }

    /// Screen width.
    pub fn width(&self) -> (r: u16)
        ensures
            r == self.width_spec(),
    {
        self.w
    }

    /// Screen height.
    pub fn height(&self) -> (r: u16)
        ensures
            r == self.height_spec(),
    {
        self.h
    }

    /// Everything but the background settings (color, wrapping and scroll) is the same in
    /// `self` and `other`.
    pub open spec fn same_but_background(self, other: VideoChip) -> bool {
        &&& self.wf() == other.wf()
        &&& self.width_spec() == other.width_spec()
        &&& self.height_spec() == other.height_spec()
        &&& self.viewport_spec() == other.viewport_spec()
        &&& self.frame_spec() == other.frame_spec()
        &&& self.sprites_spec() == other.sprites_spec()
        &&& self.wrap_sprites_spec() == other.wrap_sprites_spec()
        &&& self.banks_spec() == other.banks_spec()
    }

    /// The background color.
    pub fn bg_color(&self) -> (r: RGBA12)
        ensures
            r == self.bg_color_spec(),
    {
        self.bg_color
    }

    /// Sets the background color.
    pub fn set_bg_color(&mut self, color: RGBA12)
        ensures
            final(self).bg_color_spec() == color,
            final(self).wrap_bg_spec() == old(self).wrap_bg_spec(),
            final(self).scroll_x_spec() == old(self).scroll_x_spec(),
            final(self).scroll_y_spec() == old(self).scroll_y_spec(),
            final(self).same_but_background(*old(self)),
    {
        self.bg_color = color;
    }

    /// The scroll of the background map and of sprite tiles.
    pub fn scroll(&self) -> (r: (i16, i16))
        ensures
            r == (self.scroll_x_spec(), self.scroll_y_spec()),
    {
        (self.scroll_x, self.scroll_y)
    }

    /// Sets the scroll of the background map and of sprite tiles.
    pub fn set_scroll(&mut self, x: i16, y: i16)
        ensures
            final(self).scroll_x_spec() == x,
            final(self).scroll_y_spec() == y,
            final(self).bg_color_spec() == old(self).bg_color_spec(),
            final(self).wrap_bg_spec() == old(self).wrap_bg_spec(),
            final(self).same_but_background(*old(self)),
    {
        self.scroll_x = x;
        self.scroll_y = y;
    }

    /// Whether the background map repeats.
    pub fn wrap_bg(&self) -> (r: bool)
        ensures
            r == self.wrap_bg_spec(),
    {
        self.wrap_bg
    }

    /// Sets whether the background map repeats.
    pub fn set_wrap_bg(&mut self, wrap: bool)
        ensures
            final(self).wrap_bg_spec() == wrap,
            final(self).bg_color_spec() == old(self).bg_color_spec(),
            final(self).scroll_x_spec() == old(self).scroll_x_spec(),
            final(self).scroll_y_spec() == old(self).scroll_y_spec(),
            final(self).same_but_background(*old(self)),
    {
        self.wrap_bg = wrap;
    }

    /// The viewport: left, top, right and bottom.
    pub(crate) fn viewport(&self) -> (r: (u16, u16, u16, u16))
        ensures
            r == self.viewport_spec(),
    {
        (self.view_left, self.view_top, self.view_right, self.view_bottom)
    }

    /// The background settings: color, wrapping and scroll.
    pub(crate) fn background_settings(&self) -> (r: (RGBA12, bool, i16, i16))
        ensures
            r == (self.bg_color_spec(), self.wrap_bg_spec(), self.scroll_x_spec(), self.scroll_y_spec()),
    {
        (self.bg_color, self.wrap_bg, self.scroll_x, self.scroll_y)
    }

    /// The tile banks of the foreground and the background.
    pub(crate) fn banks(&self) -> (r: (u8, u8))
        ensures
            r == self.banks_spec(),
    {
        (self.fg_tile_bank, self.bg_tile_bank)
    }

    /// The scanline of screen row `y`.
    pub(crate) fn scanline(&self, y: u16) -> (r: &crate::video::sprite::Scanline)
        requires
            y < MAX_LINES,
        ensures
            *r == self.sprites_spec().lines_view()[y as int],
    {
        self.sprite_gen.line(y)
    }

    /// Sprite entry `index` of the frame.
    pub(crate) fn sprite_entry(&self, index: u8) -> (r: &crate::video::sprite::SpriteEntry)
        ensures
            *r == self.sprites_spec().sprites_view()[index as int],
    {
        self.sprite_gen.entry(index)
    }

    /// The frame counter.
    pub fn frame_number(&self) -> (r: usize)
        ensures
            r == self.frame_spec(),
    {
        self.frame_number
    }

    /// Does not affect BG or Sprites calculation, but "masks" PixelIter pixels outside
    /// this rectangular area with the BG Color
    pub fn set_viewport(&mut self, left: u16, top: u16, w: u16, h: u16)
        ensures
            final(self).viewport_spec() == (
                left,
                top,
                if left + w > u16::MAX {
                    u16::MAX
                } else {
                    (left + w) as u16
                },
                if top + h > u16::MAX {
                    u16::MAX
                } else {
                    (top + h) as u16
                },
            ),
            final(self).wf() == old(self).wf(),
            final(self).width_spec() == old(self).width_spec(),
            final(self).height_spec() == old(self).height_spec(),
            final(self).frame_spec() == old(self).frame_spec(),
            final(self).sprites_spec() == old(self).sprites_spec(),
            final(self).bg_color_spec() == old(self).bg_color_spec(),
            final(self).wrap_sprites_spec() == old(self).wrap_sprites_spec(),
            final(self).wrap_bg_spec() == old(self).wrap_bg_spec(),
            final(self).scroll_x_spec() == old(self).scroll_x_spec(),
            final(self).scroll_y_spec() == old(self).scroll_y_spec(),
            final(self).banks_spec() == old(self).banks_spec(),
    {
        self.view_left = left;
        self.view_top = top;
        self.view_right = left.saturating_add(w);
        self.view_bottom = top.saturating_add(h);
    }

    /// Resets the chip to its initial state: black background, wrapping sprites, frame
    /// 0, banks 0, no scroll, the whole screen as viewport and no sprites. Background
    /// wrapping stays.
    pub fn reset_all(&mut self)
        requires
            old(self).wf(),
        ensures
            final(self).wf(),
            final(self).width_spec() == old(self).width_spec(),
            final(self).height_spec() == old(self).height_spec(),
            final(self).bg_color_spec() == (RGBA12 { data: 3584 }),
            final(self).wrap_sprites_spec(),
            final(self).wrap_bg_spec() == old(self).wrap_bg_spec(),
            final(self).frame_spec() == 0,
            final(self).banks_spec() == (0u8, 0u8),
            final(self).scroll_x_spec() == 0,
            final(self).scroll_y_spec() == 0,
            final(self).viewport_spec() == (
                0u16,
                0u16,
                (old(self).width_spec() - 1) as u16,
                (old(self).height_spec() - 1) as u16,
            ),
            final(self).sprites_spec().count() == 0,
    {
        self.bg_color = RGBA12::black();
        self.wrap_sprites = true;
        self.frame_number = 0;
        self.fg_tile_bank = 0;
        self.bg_tile_bank = 0;
        self.reset_scroll();
        self.reset_viewport();
        self.reset_sprites();
    }

    /// Sets the scroll back to `(0, 0)`.
    pub fn reset_scroll(&mut self)
        ensures
            final(self).scroll_x_spec() == 0,
            final(self).scroll_y_spec() == 0,
            final(self).wf() == old(self).wf(),
            final(self).width_spec() == old(self).width_spec(),
            final(self).height_spec() == old(self).height_spec(),
            final(self).frame_spec() == old(self).frame_spec(),
            final(self).viewport_spec() == old(self).viewport_spec(),
            final(self).sprites_spec() == old(self).sprites_spec(),
            final(self).bg_color_spec() == old(self).bg_color_spec(),
            final(self).wrap_sprites_spec() == old(self).wrap_sprites_spec(),
            final(self).wrap_bg_spec() == old(self).wrap_bg_spec(),
            final(self).banks_spec() == old(self).banks_spec(),
    {
        self.scroll_x = 0;
        self.scroll_y = 0;
    }

    /// Sets the viewport back to the whole screen.
    pub fn reset_viewport(&mut self)
        requires
            old(self).wf(),
        ensures
            final(self).viewport_spec() == (
                0u16,
                0u16,
                (old(self).width_spec() - 1) as u16,
                (old(self).height_spec() - 1) as u16,
            ),
            final(self).wf(),
            final(self).width_spec() == old(self).width_spec(),
            final(self).height_spec() == old(self).height_spec(),
            final(self).frame_spec() == old(self).frame_spec(),
            final(self).sprites_spec() == old(self).sprites_spec(),
            final(self).bg_color_spec() == old(self).bg_color_spec(),
            final(self).wrap_sprites_spec() == old(self).wrap_sprites_spec(),
            final(self).wrap_bg_spec() == old(self).wrap_bg_spec(),
            final(self).scroll_x_spec() == old(self).scroll_x_spec(),
            final(self).scroll_y_spec() == old(self).scroll_y_spec(),
            final(self).banks_spec() == old(self).banks_spec(),
    {
        self.view_left = 0;
        self.view_top = 0;
        self.view_right = self.max_x();
        self.view_bottom = self.max_y();
    }

    /// Forgets every sprite of the frame.
    pub fn reset_sprites(&mut self)
        ensures
            final(self).sprites_spec().count() == 0,
            final(self).sprites_spec().sprites_view() == old(self).sprites_spec().sprites_view(),
            forall|r: int|
                0 <= r < MAX_LINES ==> #[trigger] final(self).sprites_spec().lines_view()[r]
                    == (crate::video::sprite::Scanline {
                    sprite_count: 0,
                    mask: 0,
                    ..old(self).sprites_spec().lines_view()[r]
                }),
            final(self).same_settings(*old(self)),
            final(self).frame_spec() == old(self).frame_spec(),
    {
        self.sprite_gen.reset();
    }

    /// Starts a new frame: the counter goes up and the sprites are forgotten.
    pub fn frame_start(&mut self)
        requires
            old(self).frame_spec() < usize::MAX,
        ensures
            final(self).frame_spec() == old(self).frame_spec() + 1,
            final(self).sprites_spec().count() == 0,
            final(self).sprites_spec().sprites_view() == old(self).sprites_spec().sprites_view(),
            forall|r: int|
                0 <= r < MAX_LINES ==> #[trigger] final(self).sprites_spec().lines_view()[r]
                    == (crate::video::sprite::Scanline {
                    sprite_count: 0,
                    mask: 0,
                    ..old(self).sprites_spec().lines_view()[r]
                }),
            final(self).same_settings(*old(self)),
    {
        self.frame_number += 1;
        self.reset_sprites();
    }

    /// Draws a tile anywhere on the screen using i16 coordinates for convenience. You can
    /// also provide various tile flags, like flipping, and specify a palette id.
    pub fn draw_fg_tile(&mut self, data: DrawBundle)
        requires
            old(self).wf(),
            fg_tile_fits(
                old(self).wrap_sprites_spec(),
                data.x as int,
                data.y as int,
                old(self).scroll_x_spec() as int,
                old(self).scroll_y_spec() as int,
                old(self).width_spec(),
                old(self).height_spec(),
            ),
        ensures
            fg_tile_drawn(*old(self), old(self).sprites_spec(), final(self).sprites_spec(), data),
            final(self).same_settings(*old(self)),
            final(self).frame_spec() == old(self).frame_spec(),
    {
        let size: i16 = 8;
        proof {
            lemma_u16_as_i16(self.w);
            lemma_u16_as_i16(self.h);
            lemma_u16_as_i16((self.w - 1) as u16);
            lemma_u16_as_i16((self.h - 1) as u16);
        }
        // Handle wrapping
        let wrapped_x: i16;
        let wrapped_y: i16;
        if self.wrap_sprites {
            let screen_x = data.x - self.scroll_x;
            let screen_y = data.y - self.scroll_y;
            let w = self.w as i16;
            let h = self.h as i16;
            let adjusted_x = screen_x + size;
            let adjusted_y = screen_y + size;
            // Apply proper modulo wrapping
            wrapped_x = wrap_band(adjusted_x, w + size * 2) - size;
            wrapped_y = wrap_band(adjusted_y, h + size * 2) - size;
        } else {
            let max_x = self.scroll_x + self.max_x() as i16;
            if data.x + size < self.scroll_x || data.x > max_x {
                return;
            } else {
                wrapped_x = data.x - self.scroll_x;
            }
            let max_y = self.scroll_y + self.max_y() as i16;
            if data.y + size < self.scroll_y || data.y > max_y {
                return;
            } else {
                wrapped_y = data.y - self.scroll_y;
            }
        }
        self.sprite_gen.insert(
            wrapped_x,
            wrapped_y,
            self.w,
            self.h,
            data.flags,
            data.id,
            data.sub_palette,
        );
    }

    /// A sprite is in reality a Tilemap, since it is a collection of tiles! This function
    /// will draw all the tiles in the FG layer at cordinates x and y.
    pub fn draw_sprite<M: DynTilemap>(&mut self, bundle: SpriteBundle, sprite: &M)
        requires
            old(self).wf(),
            sprite.columns_view() * sprite.rows_view() <= sprite.cells_view().len(),
            sprite.columns_view() <= 32767,
            sprite.rows_view() <= 32767,
            forall|i: int|
                0 <= i < sprite.columns_view() * sprite.rows_view() ==> #[trigger] sprite_draw_fits(
                    *old(self),
                    bundle,
                    sprite_bundles(
                        bundle,
                        sprite.cells_view(),
                        sprite.columns_view() as int,
                        sprite.rows_view() as int,
                        sprite.columns_view() as int,
                    ),
                    sprite.columns_view() as int,
                    sprite.rows_view() as int,
                    i,
                ),
        ensures
            final(self).same_settings(*old(self)),
            final(self).frame_spec() == old(self).frame_spec(),
            exists|gens: Seq<SpriteGenerator>|
                gens[0] == old(self).sprites_spec() && gens.last() == final(self).sprites_spec()
                    && drawn_in_order(
                    *old(self),
                    gens,
                    sprite_bundles(
                        bundle,
                        sprite.cells_view(),
                        sprite.columns_view() as int,
                        sprite.rows_view() as int,
                        sprite.columns_view() as int,
                    ),
                ),
    {
        let ghost chip0 = *self;
        let ghost columns = sprite.columns_view() as int;
        let ghost rows = sprite.rows_view() as int;
        let ghost bundles = sprite_bundles(bundle, sprite.cells_view(), columns, rows, columns);
        let ghost mut gens: Seq<SpriteGenerator> = seq![self.sprite_gen];
        let sprite_rows = sprite.rows() as i16;
        let sprite_columns = sprite.columns() as i16;
        let mut row: i16 = 0;
        while row < sprite_rows
            invariant
                0 <= row <= sprite_rows,
                sprite_rows == rows,
                sprite_columns == columns,
                columns == sprite.columns_view(),
                rows == sprite.rows_view(),
                columns <= 32767,
                rows <= 32767,
                columns * rows <= sprite.cells_view().len(),
                bundles == sprite_bundles(bundle, sprite.cells_view(), columns, rows, columns),
                self.same_settings(chip0),
                self.frame_spec() == chip0.frame_spec(),
                self.wf(),
                gens.len() == row * columns + 1,
                gens[0] == chip0.sprites_spec(),
                gens.last() == self.sprites_spec(),
                drawn_in_order(chip0, gens, bundles.take(row * columns)),
                forall|i: int|
                    0 <= i < columns * rows ==> #[trigger] sprite_draw_fits(
                        chip0,
                        bundle,
                        bundles,
                        columns,
                        rows,
                        i,
                    ),
            decreases sprite_rows - row,
        {
            let mut col: i16 = 0;
            while col < sprite_columns
                invariant
                    0 <= row < sprite_rows,
                    0 <= col <= sprite_columns,
                    sprite_rows == rows,
                    sprite_columns == columns,
                    columns == sprite.columns_view(),
                    rows == sprite.rows_view(),
                    columns <= 32767,
                    rows <= 32767,
                    columns * rows <= sprite.cells_view().len(),
                    bundles == sprite_bundles(bundle, sprite.cells_view(), columns, rows, columns),
                    self.same_settings(chip0),
                    self.frame_spec() == chip0.frame_spec(),
                    self.wf(),
                    gens.len() == row * columns + col + 1,
                    gens[0] == chip0.sprites_spec(),
                    gens.last() == self.sprites_spec(),
                    drawn_in_order(chip0, gens, bundles.take(row * columns + col)),
                    forall|i: int|
                        0 <= i < columns * rows ==> #[trigger] sprite_draw_fits(
                            chip0,
                            bundle,
                            bundles,
                            columns,
                            rows,
                            i,
                        ),
                decreases sprite_columns - col,
            {
                let ghost i = row * columns + col;
                proof {
                    lemma_bundle_index(columns, rows, row as int, col as int);
                }
                assert(sprite_draw_fits(chip0, bundle, bundles, columns, rows, i));
                let cell = sprite.get_cell(col, row).unwrap();
                let draw_col = if bundle.flip_x {
                    sprite_columns - col - 1
                } else {
                    col
                };
                let draw_row = if bundle.flip_y {
                    sprite_rows - row - 1
                } else {
                    row
                };
                let mut flags = cell.flags;
                if bundle.flip_x {
                    flags = flags.toggle_flip_x();
                }
                if bundle.flip_y {
                    flags = flags.toggle_flip_y();
                }
                let data = DrawBundle {
                    x: (draw_col * 8) + bundle.x,
                    y: (draw_row * 8) + bundle.y,
                    id: cell.id,
                    flags,
                    sub_palette: PaletteID(0),
                };
                assert(data == bundles[i]);
                let ghost before = self.sprite_gen;
                self.draw_fg_tile(data);
                proof {
                    let old_gens = gens;
                    gens = gens.push(self.sprite_gen);
                    assert(bundles.take(i + 1).drop_last() =~= bundles.take(i));
                    assert forall|j: int| 0 <= j < bundles.take(i + 1).len() implies fg_tile_drawn(
                        chip0,
                        #[trigger] gens[j],
                        gens[j + 1],
                        bundles.take(i + 1)[j],
                    ) by {
                        if j < i {
                            assert(gens[j] == old_gens[j]);
                            assert(gens[j + 1] == old_gens[j + 1]);
                            assert(bundles.take(i + 1)[j] == bundles.take(i)[j]);
                        }
                    }
                }
                col += 1;
            }
            proof {
                assert((row + 1) * columns == row * columns + columns) by (nonlinear_arith);
            }
            row += 1;
        }
        proof {
            assert(bundles.take(rows * columns) =~= bundles);
        }
    }
}

/// Wraps `v` into `0..m`, the way the chip wraps sprite positions: the remainder, plus
/// `m`, then the remainder again.
fn wrap_band(v: i16, m: i16) -> (r: i16)
    requires
        m > 0,
        fits_i16(trunc_rem(v as int, m as int) + m),
    ensures
        r == (v as int) % (m as int),
{
    proof {
        lemma_trunc_rem_floor(v as int, m as int);
    }
    let t = match v.checked_rem(m) {
        Some(t) => t,
        None => {
            proof {
                assert(false);
            }
            0
        },
    };
    let s = t + m;
    proof {
        lemma_trunc_rem_floor(s as int, m as int);
        assert(trunc_rem(s as int, m as int) == (v as int) % (m as int)) by {
            vstd::arithmetic::div_mod::lemma_mod_bound(v as int, m as int);
            if t < 0 {
                vstd::arithmetic::div_mod::lemma_small_mod((t + m) as nat, m as nat);
            } else {
                vstd::arithmetic::div_mod::lemma_mod_bound(s as int, m as int);
                vstd::arithmetic::div_mod::lemma_fundamental_div_mod_converse(s as int, m as int, 1, t as int);
            }
        }
    }
    match s.checked_rem(m) {
        Some(r) => r,
        None => {
            proof {
                assert(false);
            }
            0
        },
    }
}

/// Cell `(col, row)` of a map drawn as a sprite is bundle `row * columns + col`.
proof fn lemma_bundle_index(columns: int, rows: int, row: int, col: int)
    requires
        0 <= row < rows,
        0 <= col < columns,
    ensures
        0 <= row * columns + col < columns * rows,
        (row * columns + col) / columns == row,
        (row * columns + col) % columns == col,
        (row * columns + col + 1) <= columns * rows,
{
    assert(row * columns + col < columns * rows) by (nonlinear_arith)
        requires
            0 <= row < rows,
            0 <= col < columns,
    ;
    assert(0 <= row * columns) by (nonlinear_arith)
        requires
            0 <= row,
            0 <= col < columns,
    ;
    vstd::arithmetic::div_mod::lemma_fundamental_div_mod_converse(row * columns + col, columns, row, col);
}

} // verus!
