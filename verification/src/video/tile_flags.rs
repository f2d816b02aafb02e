use vstd::prelude::*;

verus! {

/// Flag bit: the tile is flipped horizontally.
pub const FLAG_FLIP_H: u8 = 0b_1000_0000;

/// Flag bit: the tile is flipped vertically.
pub const FLAG_FLIP_V: u8 = 0b_0100_0000;

/// Flag bit: the tile is rotated 90 degrees.
pub const FLAG_ROTATED: u8 = 0b_0010_0000;

/// Flag bit: a background tile is drawn in front of sprites.
pub const FLAG_FG: u8 = 0b_0001_0000;

/// Flag bit: the tile is a collider.
pub const FLAG_COLLIDER: u8 = 0b_0000_1000;

/// Flag bit: the tile is a trigger.
pub const FLAG_TRIGGER: u8 = 0b_0000_0100;

/// Flag bit: the tile is not drawn.
pub const FLAG_INVISIBLE: u8 = 0b_0000_0010;

/// Whether `f` is one of the flag bits.
pub open spec fn is_flag(f: u8) -> bool {
    f == FLAG_FLIP_H || f == FLAG_FLIP_V || f == FLAG_ROTATED || f == FLAG_FG || f == FLAG_COLLIDER
        || f == FLAG_TRIGGER || f == FLAG_INVISIBLE
}

/// Whether the flag bit `f` is set in `v`.
pub open spec fn has_flag(v: u8, f: u8) -> bool {
    v & f != 0
}

/// `v` with the flag bit `f` set to `state`.
pub open spec fn with_flag(v: u8, f: u8, state: bool) -> u8 {
    if state {
        v | f
    } else {
        v & !f
    }
}

/// Setting, clearing and toggling a flag bit changes that bit only.
pub proof fn lemma_flag_bits(v: u8, f: u8, g: u8)
    by (bit_vector)
    requires
        f == 128 || f == 64 || f == 32 || f == 16 || f == 8 || f == 4 || f == 2,
        g == 128 || g == 64 || g == 32 || g == 16 || g == 8 || g == 4 || g == 2,
    ensures
        (v | f) & f != 0,
        (v & !f) & f == 0,
        (v ^ f) ^ f == v,
        ((v ^ f) & f != 0) == (v & f == 0),
        f != g ==> (((v | f) & g != 0) == (v & g != 0)),
        f != g ==> (((v & !f) & g != 0) == (v & g != 0)),
        f != g ==> (((v ^ f) & g != 0) == (v & g != 0)),
{
}

/// Where the pixel drawn at `(x, y)` of a `size` by `size` tile comes from in the tile's
/// own pixels, under the given flips and rotation. Without rotation each flip mirrors its
/// axis. With rotation the tile turns a quarter (the pixel at `(x, y)` comes from
/// `(size - 1 - y, x)`), and then a horizontal flip mirrors the source row, or else a
/// vertical flip mirrors the source column.
pub open spec fn transform_source(flip_x: bool, flip_y: bool, rotated: bool, x: int, y: int, size: int) -> (int, int) {
    if rotated {
        let rx = size - 1 - y;
        let ry = x;
        if flip_x {
            (rx, size - 1 - ry)
        } else if flip_y {
            (size - 1 - rx, ry)
        } else {
            (rx, ry)
        }
    } else {
        (
            if flip_x {
                size - 1 - x
            } else {
                x
            },
            if flip_y {
                size - 1 - y
            } else {
                y
            },
        )
    }
}

/// The source of a pixel inside the tile lies inside the tile.
pub proof fn lemma_transform_in_tile(flip_x: bool, flip_y: bool, rotated: bool, x: int, y: int, size: int)
    requires
        0 <= x < size,
        0 <= y < size,
    ensures
        0 <= transform_source(flip_x, flip_y, rotated, x, y, size).0 < size,
        0 <= transform_source(flip_x, flip_y, rotated, x, y, size).1 < size,
{
}

/// Distinct pixels of a tile come from distinct sources: a transform only moves pixels.
pub proof fn lemma_transform_injective(
    flip_x: bool,
    flip_y: bool,
    rotated: bool,
    x1: int,
    y1: int,
    x2: int,
    y2: int,
    size: int,
)
    requires
        transform_source(flip_x, flip_y, rotated, x1, y1, size) == transform_source(
            flip_x,
            flip_y,
            rotated,
            x2,
            y2,
            size,
        ),
    ensures
        x1 == x2 && y1 == y2,
{
}

/// Without rotation a transform undoes itself.
pub proof fn lemma_flip_involution(flip_x: bool, flip_y: bool, x: int, y: int, size: int)
    ensures
        ({
            let t = transform_source(flip_x, flip_y, false, x, y, size);
            transform_source(flip_x, flip_y, false, t.0, t.1, size) == (x, y)
        }),
{
}

/// Four quarter turns give every pixel back.
pub proof fn lemma_rotation_order_four(x: int, y: int, size: int)
    ensures
        ({
            let t1 = transform_source(false, false, true, x, y, size);
            let t2 = transform_source(false, false, true, t1.0, t1.1, size);
            let t3 = transform_source(false, false, true, t2.0, t2.1, size);
            transform_source(false, false, true, t3.0, t3.1, size) == (x, y)
        }),
{
}

/// A single byte that stores a tile's render state: flips, rotation, and custom flags.
#[derive(Debug, Clone, Copy, PartialEq, Eq, Structural, Default, Hash)]
pub struct TileFlags(pub u8);

impl TileFlags {
    /// Flags with the given flips, collider and trigger bits, and nothing else set.
    pub fn new(flip_h: bool, flip_v: bool, collider: bool, trigger: bool) -> (r: Self)
        ensures
            r.0 == (if flip_h { FLAG_FLIP_H } else { 0u8 }) | (if flip_v { FLAG_FLIP_V } else { 0u8 })
                | (if collider { FLAG_COLLIDER } else { 0u8 }) | (if trigger { FLAG_TRIGGER } else { 0u8 }),
    {
        let a: u8 = if flip_h {
            FLAG_FLIP_H
        } else {
            0
        };
        let b: u8 = if flip_v {
            FLAG_FLIP_V
        } else {
            0
        };
        let c: u8 = if collider {
            FLAG_COLLIDER
        } else {
            0
        };
        let d: u8 = if trigger {
            FLAG_TRIGGER
        } else {
            0
        };
        let data: u8 = a | b | c | d;
        Self(data)
    }

    /// The flags with a horizontal flip.
    pub fn with_flip_x(self) -> (r: Self)
        ensures
            r.0 == self.0 | FLAG_FLIP_H,
    {
        Self(self.0 | FLAG_FLIP_H)
    }

    /// The flags with a vertical flip.
    pub fn with_flip_y(self) -> (r: Self)
        ensures
            r.0 == self.0 | FLAG_FLIP_V,
    {
        Self(self.0 | FLAG_FLIP_V)
    }

    /// The flags with a 90 degree rotation.
    pub fn with_rotation(self) -> (r: Self)
        ensures
            r.0 == self.0 | FLAG_ROTATED,
    {
        Self(self.0 | FLAG_ROTATED)
    }

    /// The flags with a background tile drawn in front of sprites.
    pub fn with_fg(self) -> (r: Self)
        ensures
            r.0 == self.0 | FLAG_FG,
    {
        Self(self.0 | FLAG_FG)
    }

    /// The flags of a collider.
    pub fn with_collision(self) -> (r: Self)
        ensures
            r.0 == self.0 | FLAG_COLLIDER,
    {
        Self(self.0 | FLAG_COLLIDER)
    }

    /// The flags of a trigger.
    pub fn with_trigger(self) -> (r: Self)
        ensures
            r.0 == self.0 | FLAG_TRIGGER,
    {
        Self(self.0 | FLAG_TRIGGER)
    }

    /// The flags with the three transform bits set as given.
    pub fn with_transform(self, flip_x: bool, flip_y: bool, rotation: bool) -> (r: Self)
        ensures
            r.0 == with_flag(
                with_flag(with_flag(self.0, FLAG_FLIP_H, flip_x), FLAG_FLIP_V, flip_y),
                FLAG_ROTATED,
                rotation,
            ),
    {
        let mut result = self;
        result.set_flip_x(flip_x);
        result.set_flip_y(flip_y);
        result.set_rotation(rotation);
        result
    }

    /// `(flipped_x, flipped_y, rotated)`.
    pub fn get_transform_bits(self) -> (r: (bool, bool, bool))
        ensures
            r == (
                has_flag(self.0, FLAG_FLIP_H),
                has_flag(self.0, FLAG_FLIP_V),
                has_flag(self.0, FLAG_ROTATED),
            ),
    {
        (self.is_flipped_x(), self.is_flipped_y(), self.is_rotated())
    }

    /// Sets the horizontal flip.
    pub fn set_flip_x(&mut self, state: bool)
        ensures
            final(self).0 == with_flag(old(self).0, FLAG_FLIP_H, state),
    {
        if state {
            self.0 = self.0 | FLAG_FLIP_H
        } else {
            self.0 = self.0 & !FLAG_FLIP_H
        }
    }

    /// Sets the vertical flip.
    pub fn set_flip_y(&mut self, state: bool)
        ensures
            final(self).0 == with_flag(old(self).0, FLAG_FLIP_V, state),
    {
        if state {
            self.0 = self.0 | FLAG_FLIP_V
        } else {
            self.0 = self.0 & !FLAG_FLIP_V
        }
    }

    /// Sets the 90 degree rotation.
    pub fn set_rotation(&mut self, state: bool)
        ensures
            final(self).0 == with_flag(old(self).0, FLAG_ROTATED, state),
    {
        if state {
            self.0 = self.0 | FLAG_ROTATED
        } else {
            self.0 = self.0 & !FLAG_ROTATED
        }
    }

    /// Sets whether a background tile is drawn in front of sprites (ignored on sprites).
    pub fn set_fg(&mut self, state: bool)
        ensures
            final(self).0 == with_flag(old(self).0, FLAG_FG, state),
    {
        if state {
            self.0 = self.0 | FLAG_FG
        } else {
            self.0 = self.0 & !FLAG_FG
        }
    }

    /// Sets whether the tile is a collider.
    pub fn set_collision(&mut self, state: bool)
        ensures
            final(self).0 == with_flag(old(self).0, FLAG_COLLIDER, state),
    {
        if state {
            self.0 = self.0 | FLAG_COLLIDER
        } else {
            self.0 = self.0 & !FLAG_COLLIDER
        }
    }

    /// Sets whether the tile is a trigger.
    pub fn set_trigger(&mut self, state: bool)
        ensures
            final(self).0 == with_flag(old(self).0, FLAG_TRIGGER, state),
    {
        if state {
            self.0 = self.0 | FLAG_TRIGGER
        } else {
            self.0 = self.0 & !FLAG_TRIGGER
        }
    }

    /// Sets whether the tile is not drawn.
    pub fn set_invisible(&mut self, state: bool)
        ensures
            final(self).0 == with_flag(old(self).0, FLAG_INVISIBLE, state),
    {
        if state {
            self.0 = self.0 | FLAG_INVISIBLE
        } else {
            self.0 = self.0 & !FLAG_INVISIBLE
        }
    }

    /// Clears the transform bits: the tile points up.
    pub fn rotate_up(&mut self)
        ensures
            final(self).0 == old(self).0 & 0b_0001_1111,
    {
        self.0 = self.0 & 0b_0001_1111;
    }

    /// Sets the transform bits so that the tile points left.
    pub fn rotate_left(&mut self)
        ensures
            final(self).0 == (old(self).0 & 0b_0001_1111) | FLAG_ROTATED,
    {
        self.0 = self.0 & 0b_0001_1111;
        self.0 = self.0 | FLAG_ROTATED;
    }

    /// Sets the transform bits so that the tile points down.
    pub fn rotate_down(&mut self)
        ensures
            final(self).0 == (old(self).0 & 0b_0001_1111) | FLAG_FLIP_V,
    {
        self.0 = self.0 & 0b_0001_1111;
        self.0 = self.0 | FLAG_FLIP_V;
    }

    /// Sets the transform bits so that the tile points right.
    pub fn rotate_right(&mut self)
        ensures
            final(self).0 == (old(self).0 & 0b_0001_1111) | 0b_1010_0000,
    {
        self.0 = self.0 & 0b_0001_1111;
        self.0 = self.0 | 0b_1010_0000;
    }

    /// Whether the tile is flipped horizontally.
    pub fn is_flipped_x(&self) -> (r: bool)
        ensures
            r == has_flag(self.0, FLAG_FLIP_H),
    {
        self.0 & FLAG_FLIP_H != 0
    }

    /// Whether the tile is flipped vertically.
    pub fn is_flipped_y(&self) -> (r: bool)
        ensures
            r == has_flag(self.0, FLAG_FLIP_V),
    {
        self.0 & FLAG_FLIP_V != 0
    }

    /// Whether the tile is rotated 90 degrees.
    pub fn is_rotated(&self) -> (r: bool)
        ensures
            r == has_flag(self.0, FLAG_ROTATED),
    {
        self.0 & FLAG_ROTATED != 0
    }

    /// Where the pixel drawn at `(x, y)` of a `size` by `size` tile drawn with these
    /// flags comes from in the tile's own pixels; see `transform_source`.
    pub fn transform_coords(&self, x: u8, y: u8, size: u8) -> (r: (u8, u8))
        requires
            x < size,
            y < size,
        ensures
            (r.0 as int, r.1 as int) == transform_source(
                has_flag(self.0, FLAG_FLIP_H),
                has_flag(self.0, FLAG_FLIP_V),
                has_flag(self.0, FLAG_ROTATED),
                x as int,
                y as int,
                size as int,
            ),
    {
        let flip_x = self.is_flipped_x();
        let flip_y = self.is_flipped_y();
        if self.is_rotated() {
            let rx = size - 1 - y;
            let ry = x;
            if flip_x {
                (rx, size - 1 - ry)
            } else if flip_y {
                (size - 1 - rx, ry)
            } else {
                (rx, ry)
            }
        } else {
            let tx = if flip_x {
                size - 1 - x
            } else {
                x
            };
            let ty = if flip_y {
                size - 1 - y
            } else {
                y
            };
            (tx, ty)
        }
    }

    /// Whether a background tile is drawn in front of sprites.
    pub fn is_fg(&self) -> (r: bool)
        ensures
            r == has_flag(self.0, FLAG_FG),
    {
        self.0 & FLAG_FG != 0
    }

    /// Whether the tile is a collider.
    pub fn is_collider(&self) -> (r: bool)
        ensures
            r == has_flag(self.0, FLAG_COLLIDER),
    {
        self.0 & FLAG_COLLIDER != 0
    }

    /// Whether the tile is a trigger.
    pub fn is_trigger(&self) -> (r: bool)
        ensures
            r == has_flag(self.0, FLAG_TRIGGER),
    {
        self.0 & FLAG_TRIGGER != 0
    }

    /// Whether the tile is not drawn.
    pub fn is_invisible(&self) -> (r: bool)
        ensures
            r == has_flag(self.0, FLAG_INVISIBLE),
    {
        self.0 & FLAG_INVISIBLE != 0
    }

    /// The flags with the horizontal flip toggled.
    pub fn toggle_flip_x(self) -> (r: Self)
        ensures
            r.0 == self.0 ^ FLAG_FLIP_H,
    {
        Self(self.0 ^ FLAG_FLIP_H)
    }

    /// The flags with the vertical flip toggled.
    pub fn toggle_flip_y(self) -> (r: Self)
        ensures
            r.0 == self.0 ^ FLAG_FLIP_V,
    {
        Self(self.0 ^ FLAG_FLIP_V)
    }

    /// The flags with the rotation toggled.
    pub fn toggle_rotation(self) -> (r: Self)
        ensures
            r.0 == self.0 ^ FLAG_ROTATED,
    {
        Self(self.0 ^ FLAG_ROTATED)
    }

    /// The flags with the foreground bit toggled.
    pub fn toggle_fg(self) -> (r: Self)
        ensures
            r.0 == self.0 ^ FLAG_FG,
    {
        Self(self.0 ^ FLAG_FG)
    }
}

/// Setting a flag makes it read back as set, and leaves every other flag as it was.
pub proof fn lemma_set_flag_reads_back(v: u8, f: u8, g: u8, state: bool)
    requires
        is_flag(f),
        is_flag(g),
    ensures
        has_flag(with_flag(v, f, state), f) == state,
        f != g ==> has_flag(with_flag(v, f, state), g) == has_flag(v, g),
{
    lemma_flag_bits(v, f, g);
}

/// Toggling a flag twice gives the flags back, and toggling once flips that flag only.
pub proof fn lemma_toggle_flag(v: u8, f: u8, g: u8)
    requires
        is_flag(f),
        is_flag(g),
    ensures
        (v ^ f) ^ f == v,
        has_flag(v ^ f, f) == !has_flag(v, f),
        f != g ==> has_flag(v ^ f, g) == has_flag(v, g),
{
    lemma_flag_bits(v, f, g);
}

/// The transform bits set by `with_transform` are the ones `get_transform_bits` reads.
pub proof fn lemma_transform_roundtrip(v: u8, flip_x: bool, flip_y: bool, rotation: bool)
    ensures
        ({
            let t = with_flag(
                with_flag(with_flag(v, FLAG_FLIP_H, flip_x), FLAG_FLIP_V, flip_y),
                FLAG_ROTATED,
                rotation,
            );
            (has_flag(t, FLAG_FLIP_H), has_flag(t, FLAG_FLIP_V), has_flag(t, FLAG_ROTATED)) == (
                flip_x,
                flip_y,
                rotation,
            )
        }),
{
    let a = with_flag(v, FLAG_FLIP_H, flip_x);
    let b = with_flag(a, FLAG_FLIP_V, flip_y);
    lemma_flag_bits(v, FLAG_FLIP_H, FLAG_FLIP_V);
    lemma_flag_bits(a, FLAG_FLIP_V, FLAG_FLIP_H);
    lemma_flag_bits(b, FLAG_ROTATED, FLAG_FLIP_H);
    lemma_flag_bits(b, FLAG_ROTATED, FLAG_FLIP_V);
}

} // verus!
