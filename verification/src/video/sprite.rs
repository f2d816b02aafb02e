use vstd::prelude::*;
use crate::math::rect::{max_int, min_int};
use crate::video::tile::TileID;
use crate::video::tile_flags::TileFlags;
use crate::video::palette::PaletteID;
use crate::video::consts::{MAX_SPRITES, MAX_LINES, SPRITES_PER_LINE};
use crate::video::tilemap::{u16_as_i16, lemma_u16_as_i16, fits_i16};

verus! {

/// The slot (0 to 15) of a scanline that screen column `screen_x` falls in, for a screen
/// `screen_width` wide divided into 16 equal slots.
pub open spec fn pixel_slot(screen_x: int, screen_width: int) -> int {
    (screen_x * 16) / screen_width
}

/// The mask bits of the slots that the screen columns `from..to` fall in.
pub open spec fn slot_bits(screen_width: int, from: int, to: int) -> u16
    decreases to - from,
{
    if to <= from {
        0
    } else {
        slot_bits(screen_width, from, to - 1) | (1u16 << (pixel_slot(to - 1, screen_width) as u16))
    }
}

/// Or-ing in bits, one group at a time.
pub proof fn lemma_mask_bits(a: u16, b: u16, c: u16, s: u16, t: u16)
    by (bit_vector)
    requires
        s < 16,
        t < 16,
    ensures
        a | 0u16 == a,
        (a | b) | c == a | (b | c),
        ((a | (1u16 << s)) & (1u16 << t) != 0) == ((a & (1u16 << t) != 0) || s == t),
        (0u16 & (1u16 << t)) == 0,
{
}

/// A sprite's bit `s` of the mask of the slots it covers is set exactly when one of its
/// columns falls in slot `s`.
pub proof fn lemma_slot_bits(screen_width: int, from: int, to: int, s: u16)
    requires
        s < 16,
        0 <= from,
        to <= screen_width,
    ensures
        (slot_bits(screen_width, from, to) & (1u16 << s) != 0) == (exists|sx: int|
            from <= sx < to && #[trigger] pixel_slot(sx, screen_width) == s),
    decreases to - from,
{
    if to <= from {
        lemma_mask_bits(0, 0, 0, 0, s);
    } else {
        lemma_slot_bits(screen_width, from, to - 1, s);
        lemma_pixel_slot(to - 1, screen_width);
        let p = pixel_slot(to - 1, screen_width) as u16;
        lemma_mask_bits(slot_bits(screen_width, from, to - 1), 0, 0, p, s);
        if pixel_slot(to - 1, screen_width) == s {
        } else if exists|sx: int| from <= sx < to && #[trigger] pixel_slot(sx, screen_width) == s {
            let sx = choose|sx: int| from <= sx < to && #[trigger] pixel_slot(sx, screen_width) == s;
            assert(from <= sx < to - 1);
        }
    }
}

/// The slot of a screen column is in `0..16`.
pub proof fn lemma_pixel_slot(screen_x: int, screen_width: int)
    requires
        0 <= screen_x < screen_width,
    ensures
        0 <= pixel_slot(screen_x, screen_width) < 16,
{
    assert(0 <= (screen_x * 16) / screen_width < 16) by (nonlinear_arith)
        requires
            0 <= screen_x < screen_width,
    ;
}

/// The first row in `from..to` whose scanline holds as many sprites as a line can show,
/// or `to` when there is none.
pub open spec fn first_full_line(lines: Seq<Scanline>, from: int, to: int) -> int
    decreases to - from,
{
    if from >= to {
        to
    } else if lines[from].sprite_count >= SPRITES_PER_LINE {
        from
    } else {
        first_full_line(lines, from + 1, to)
    }
}

/// What `first_full_line` finds: a row in range (or `to`) before which no line is full.
pub proof fn lemma_first_full_line(lines: Seq<Scanline>, from: int, to: int)
    requires
        from <= to,
    ensures
        from <= first_full_line(lines, from, to) <= to,
        first_full_line(lines, from, to) < to ==> lines[first_full_line(lines, from, to)].sprite_count
            >= SPRITES_PER_LINE,
        forall|r: int|
            from <= r < first_full_line(lines, from, to) ==> #[trigger] lines[r].sprite_count
                < SPRITES_PER_LINE,
    decreases to - from,
{
    if from < to && lines[from].sprite_count < SPRITES_PER_LINE {
        lemma_first_full_line(lines, from + 1, to);
    }
}

/// `line` is `before` with one more sprite, `sprite`, and the slot bits `columns` set.
pub open spec fn marked_line(line: Scanline, before: Scanline, columns: u16, sprite: u8) -> bool {
    &&& line.sprite_count == before.sprite_count + 1
    &&& line.mask == before.mask | columns
    &&& line.sprites@ == before.sprites@.update(before.sprite_count as int, sprite)
}

/// A sprite represents a tile's position on the screen and the palette
/// used to draw it.
#[derive(Debug, Clone, Copy, Default)]
pub struct SpriteEntry {
    pub y: i16,
    pub x: i16,
    pub id: TileID,
    pub flags: TileFlags,
    pub sub_palette: u8,
}

/// Holds a "presence" mask that helps the iterator figure out if any given slot
/// is occupied by a sprite, and an array containing which sprite entries are visible
/// in this scanline.
#[derive(Debug, Clone, Copy)]
pub struct Scanline {
    pub sprite_count: u8,
    // Tracks Which slots contain sprites
    pub mask: u16,
    // Tracks which sprites are visible in this line
    pub sprites: [u8; SPRITES_PER_LINE],
}

/// Manages sprites inserted in a single frame
#[derive(Debug)]
pub struct SpriteGenerator {
    pub sprites: [SpriteEntry; MAX_SPRITES],
    pub scanlines: [Scanline; MAX_LINES],
    sprite_count: u8,
}

/// `after` is the generator `before` after inserting a tile-sized sprite at screen
/// position `(x, y)` on a screen `screen_width` by `screen_height`: a sprite fully off
/// screen, or one past the 255th of the frame, changes nothing; otherwise its entry is
/// stored, and each screen row it covers, from the top, gets it in its scanline with the
/// slots of its columns marked, up to the first row whose scanline is full. The sprite is
/// counted only when no row was full.
pub open spec fn inserted(
    before: SpriteGenerator,
    after: SpriteGenerator,
    x: i16,
    y: i16,
    screen_width: u16,
    screen_height: u16,
    flags: TileFlags,
    id: TileID,
    sub_palette: PaletteID,
) -> bool {
    let visible = before.count() != 255 && x < u16_as_i16(screen_width) && y < u16_as_i16(
        screen_height,
    ) && x > -8 && y > -8;
    let first_row = max_int(y as int, 0);
    let end_row = y + min_int(max_int(u16_as_i16(screen_height) - y, 0), 8);
    let stop = first_full_line(before.lines_view(), first_row, end_row);
    let columns = slot_bits(
        screen_width as int,
        x + max_int(-x, 0),
        x + min_int(max_int(u16_as_i16(screen_width) - x, 0), 8),
    );
    &&& !visible ==> after.count() == before.count() && after.sprites_view() == before.sprites_view()
        && after.lines_view() == before.lines_view()
    &&& visible ==> after.sprites_view() == before.sprites_view().update(
        before.count(),
        SpriteEntry { x, y, id, flags, sub_palette: sub_palette.0 },
    )
    &&& visible ==> after.count() == if stop == end_row {
        before.count() + 1
    } else {
        before.count()
    }
    &&& visible ==> forall|r: int|
        0 <= r < MAX_LINES ==> if first_row <= r < stop {
            marked_line(
                #[trigger] after.lines_view()[r],
                before.lines_view()[r],
                columns,
                before.count() as u8,
            )
        } else {
            after.lines_view()[r] == before.lines_view()[r]
        }
}

impl SpriteGenerator {
    /// The number of sprites inserted this frame.
    pub closed spec fn count(self) -> int {
        self.sprite_count as int
    }

    /// The sprite entries.
    pub closed spec fn sprites_view(self) -> Seq<SpriteEntry> {
        self.sprites@
    }

    /// The scanlines.
    pub closed spec fn lines_view(self) -> Seq<Scanline> {
        self.scanlines@
    }

    /// The sizes of the storage.
    pub proof fn lemma_sizes(self)
        ensures
            self.sprites_view().len() == MAX_SPRITES,
            self.lines_view().len() == MAX_LINES,
            0 <= self.count() <= 255,
    {
    }

    /// The scanline of screen row `y`.
    pub(crate) fn line(&self, y: u16) -> (r: &Scanline)
        requires
            y < MAX_LINES,
        ensures
            *r == self.lines_view()[y as int],
    {
        &self.scanlines[y as usize]
    }

    /// Sprite entry `index`.
    pub(crate) fn entry(&self, index: u8) -> (r: &SpriteEntry)
        ensures
            *r == self.sprites_view()[index as int],
    {
        &self.sprites[index as usize]
    }

    /// A generator with no sprites and empty scanlines.
    pub fn new() -> (r: Self)
        ensures
            r.count() == 0,
            forall|k: int| 0 <= k < MAX_SPRITES ==> #[trigger] r.sprites_view()[k] == (SpriteEntry {
                y: 0,
                x: 0,
                id: TileID(0),
                flags: TileFlags(0),
                sub_palette: 0,
            }),
            forall|r2: int|
                0 <= r2 < MAX_LINES ==> #[trigger] r.lines_view()[r2].mask == 0
                    && r.lines_view()[r2].sprite_count == 0,
    {
        let entry = SpriteEntry { y: 0, x: 0, id: TileID(0), flags: TileFlags(0), sub_palette: 0 };
        let line = Scanline { mask: 0, sprite_count: 0, sprites: [0u8; SPRITES_PER_LINE] };
        let r = Self { sprites: [entry; MAX_SPRITES], scanlines: [line; MAX_LINES], sprite_count: 0 };
        assert(forall|k: int| 0 <= k < MAX_SPRITES ==> r.sprites@[k] == entry);
        assert(forall|k: int| 0 <= k < MAX_LINES ==> r.scanlines@[k] == line);
        r
    }

    /// Forgets every sprite: the count and every scanline's count and mask go to 0.
    pub fn reset(&mut self)
        ensures
            final(self).count() == 0,
            final(self).sprites_view() == old(self).sprites_view(),
            forall|r: int|
                0 <= r < MAX_LINES ==> #[trigger] final(self).lines_view()[r] == (Scanline {
                    sprite_count: 0,
                    mask: 0,
                    ..old(self).lines_view()[r]
                }),
    {
        self.sprite_count = 0;
        let ghost before = self.scanlines@;
        let mut i: usize = 0;
        while i < MAX_LINES
            invariant
                i <= MAX_LINES,
                self.sprite_count == 0,
                self.sprites@ == old(self).sprites@,
                before == old(self).scanlines@,
                forall|r: int|
                    0 <= r < MAX_LINES ==> #[trigger] self.scanlines@[r] == if r < i {
                        Scanline { sprite_count: 0, mask: 0, ..before[r] }
                    } else {
                        before[r]
                    },
            decreases MAX_LINES - i,
        {
            let mut line = self.scanlines[i];
            line.mask = 0;
            line.sprite_count = 0;
            self.scanlines[i] = line;
            i += 1;
        }
    }

    /// Inserts a tile-sized sprite at screen position `(x, y)`: stores its entry, and for
    /// each screen row it covers, from the top, adds it to that row's scanline and marks
    /// the slots its columns fall in. A sprite fully off screen, or one past the 255th
    /// of the frame, is dropped. When a row's scanline is full the insertion stops there,
    /// and the sprite is not counted.
    pub fn insert(
        &mut self,
        x: i16,
        y: i16,
        screen_width: u16,
        screen_height: u16,
        flags: TileFlags,
        id: TileID,
        sub_palette: PaletteID,
    )
        requires
            screen_height <= MAX_LINES,
            fits_i16(u16_as_i16(screen_width) + 8),
        ensures
            inserted(
                *old(self),
                *final(self),
                x,
                y,
                screen_width,
                screen_height,
                flags,
                id,
                sub_palette,
            ),
    {
        let w: i16 = 8;
        let h: i16 = 8;
        proof {
            lemma_u16_as_i16(screen_width);
            lemma_u16_as_i16(screen_height);
        }
        if self.sprite_count == u8::MAX {
            return;
        }
        if x >= screen_width as i16 || y >= screen_height as i16 {
            return;
        }
        if x <= -w || y <= -h {
            return;
        }
        // Write sprite to sprite bank
        let sprite_index = self.sprite_count;
        self.sprites[sprite_index as usize] = SpriteEntry {
            x,
            y,
            id,
            flags,
            sub_palette: sub_palette.0,
        };
        // Write sprite index and mask info to scanline
        let min_x = max_i16(-x, 0);
        let min_y = max_i16(-y, 0);
        let max_x = clamp_i16(screen_width as i16 - x, 0, w);
        let max_y = clamp_i16(screen_height as i16 - y, 0, h);
        let ghost lines0 = self.scanlines@;
        let ghost first_row = y + min_y;
        let ghost end_row = y + max_y;
        let ghost columns = slot_bits(screen_width as int, x + min_x, x + max_x);
        proof {
            lemma_first_full_line(lines0, first_row, end_row);
        }
        let mut local_y = min_y;
        while local_y < max_y
            invariant
                min_y <= local_y <= max_y,
                lines0 == old(self).scanlines@,
                sprite_index == old(self).sprite_count,
                sprite_index < 255,
                x < u16_as_i16(screen_width),
                y < u16_as_i16(screen_height),
                x > -8,
                y > -8,
                screen_width as i16 == u16_as_i16(screen_width),
                screen_height as i16 == u16_as_i16(screen_height),
                min_x == max_int(-x, 0),
                max_x == min_int(max_int(u16_as_i16(screen_width) - x, 0), 8),
                min_y == max_int(-y, 0),
                max_y == min_int(max_int(u16_as_i16(screen_height) - y, 0), 8),
                columns == slot_bits(screen_width as int, x + min_x, x + max_x),
                fits_i16(u16_as_i16(screen_width) + 8),
                first_row == y + min_y,
                end_row == y + max_y,
                0 <= first_row,
                end_row <= screen_height,
                screen_height <= MAX_LINES,
                forall|r: int| first_row <= r < y + local_y ==> #[trigger] lines0[r].sprite_count
                    < SPRITES_PER_LINE,
                self.sprite_count == sprite_index,
                self.sprites@ == old(self).sprites@.update(
                    sprite_index as int,
                    SpriteEntry { x, y, id, flags, sub_palette: sub_palette.0 },
                ),
                forall|r: int|
                    0 <= r < MAX_LINES ==> if first_row <= r < y + local_y {
                        marked_line(#[trigger] self.scanlines@[r], lines0[r], columns, sprite_index)
                    } else {
                        self.scanlines@[r] == lines0[r]
                    },
            decreases max_y - local_y,
        {
            let screen_y = y + local_y;
            // Acquire scanline ref
            let mut line = self.scanlines[screen_y as usize];
            let ghost before = self.scanlines@;
            assert(line == lines0[screen_y as int]) by {
                assert(self.scanlines@[screen_y as int] == lines0[screen_y as int]);
            }
            if line.sprite_count as usize >= SPRITES_PER_LINE {
                proof {
                    lemma_first_full_line_at(lines0, first_row, end_row, screen_y as int);
                    assert(first_row == max_int(y as int, 0));
                    assert(end_row == y + min_int(max_int(u16_as_i16(screen_height) - y, 0), 8));
                }
                return;
            }
            let local_sprite = line.sprite_count as usize;
            line.sprites[local_sprite] = sprite_index;
            line.sprite_count += 1;
            let ghost mask0 = line.mask;
            let ghost line1 = line;
            let mut local_x = min_x;
            proof {
                lemma_mask_bits(mask0, 0, 0, 0, 0);
            }
            while local_x < max_x
                invariant
                    min_x <= local_x,
                    local_x <= max_x || local_x == min_x,
                    line.sprite_count == line1.sprite_count,
                    line.sprites@ == line1.sprites@,
                    0 <= x + min_x,
                    x + max_x <= screen_width,
                    x + max_x <= i16::MAX,
                    line.mask == mask0 | slot_bits(screen_width as int, x + min_x, x + local_x),
                decreases max_x - local_x,
            {
                let screen_x = x + local_x;
                // Set bit mask to help iterator skip unused slots
                proof {
                    lemma_pixel_slot(screen_x as int, screen_width as int);
                }
                let slot = ((screen_x as u32 * 16) / screen_width as u32) as u16;
                proof {
                    lemma_mask_bits(
                        mask0,
                        slot_bits(screen_width as int, x + min_x, x + local_x),
                        1u16 << slot,
                        0,
                        0,
                    );
                }
                line.mask = line.mask | (1u16 << slot);
                local_x += 1;
            }
            assert(line.mask == mask0 | columns);
            self.scanlines[screen_y as usize] = line;
            proof {
                assert forall|r: int| 0 <= r < MAX_LINES implies if first_row <= r < y + local_y + 1 {
                    marked_line(#[trigger] self.scanlines@[r], lines0[r], columns, sprite_index)
                } else {
                    self.scanlines@[r] == lines0[r]
                } by {
                    if r != screen_y {
                        assert(self.scanlines@[r] == before[r]);
                    }
                }
            }
            local_y += 1;
        }
        proof {
            lemma_first_full_line_none(lines0, first_row, end_row);
            assert(first_row == max_int(y as int, 0));
            assert(end_row == y + min_int(max_int(u16_as_i16(screen_height) - y, 0), 8));
        }
        self.sprite_count += 1;
    }
}

/// A full line at `row`, after lines that are not full, is the first full line.
proof fn lemma_first_full_line_at(lines: Seq<Scanline>, from: int, to: int, row: int)
    requires
        from <= row < to,
        lines[row].sprite_count >= SPRITES_PER_LINE,
        forall|r: int| from <= r < row ==> #[trigger] lines[r].sprite_count < SPRITES_PER_LINE,
    ensures
        first_full_line(lines, from, to) == row,
    decreases row - from,
{
    if from < row {
        lemma_first_full_line_at(lines, from + 1, to, row);
    }
}

/// With no full line in range, the first full line is the end of the range.
proof fn lemma_first_full_line_none(lines: Seq<Scanline>, from: int, to: int)
    requires
        from <= to,
        forall|r: int| from <= r < to ==> #[trigger] lines[r].sprite_count < SPRITES_PER_LINE,
    ensures
        first_full_line(lines, from, to) == to,
    decreases to - from,
{
    if from < to {
        lemma_first_full_line_none(lines, from + 1, to);
    }
}

/// The larger of two values.
fn max_i16(a: i16, b: i16) -> (r: i16)
    ensures
        r == max_int(a as int, b as int),
{
    if a > b {
        a
    } else {
        b
    }
}

/// `v` clamped to `lo..=hi`.
fn clamp_i16(v: i16, lo: i16, hi: i16) -> (r: i16)
    requires
        lo <= hi,
    ensures
        r == min_int(max_int(v as int, lo as int), hi as int),
{
    if v < lo {
        lo
    } else if v > hi {
        hi
    } else {
        v
    }
}

} // verus!
