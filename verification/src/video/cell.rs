use vstd::prelude::*;
use crate::video::tile::TileID;
use crate::video::tile_flags::{TileFlags, FLAG_FG, FLAG_COLLIDER, FLAG_ROTATED, FLAG_FLIP_H, FLAG_FLIP_V};
use crate::video::palette::Palette;

verus! {

/// One tile of a tilemap: which tile, how it is drawn, and its colors.
#[derive(Debug, Clone, Default, Copy, PartialEq, Eq, Structural, Hash)]
pub struct Cell {
    pub id: TileID,
    pub flags: TileFlags,
    pub colors: Palette,
}

impl Cell {
    /// A cell from its raw tile id, flag byte and packed palette.
    pub fn new(id: u8, flags: u8, colors: u16) -> (r: Self)
        ensures
            r == (Cell { id: TileID(id), flags: TileFlags(flags), colors: Palette(colors) }),
    {
        Self { id: TileID(id), flags: TileFlags(flags), colors: Palette(colors) }
    }

    /// The cell with tile id `id`.
    pub fn with_id(self, id: u8) -> (r: Self)
        ensures
            r == (Cell { id: TileID(id), ..self }),
    {
        Self { id: TileID(id), ..self }
    }

    /// The cell with its tile id moved up by `offset`.
    pub fn offset_id(self, offset: u8) -> (r: Self)
        requires
            offset + self.id.0 < 256,
        ensures
            r == (Cell { id: TileID((self.id.0 + offset) as u8), ..self }),
    {
        Self { id: TileID(self.id.0 + offset), ..self }
    }

    /// The cell with the flag byte `flags`.
    pub fn with_flags(self, flags: u8) -> (r: Self)
        ensures
            r == (Cell { flags: TileFlags(flags), ..self }),
    {
        Self { flags: TileFlags(flags), ..self }
    }

    /// The cell with the palette `colors`.
    pub fn with_colors(self, colors: Palette) -> (r: Self)
        ensures
            r == (Cell { colors, ..self }),
    {
        Self { colors, ..self }
    }

    /// The cell drawn in front of sprites.
    pub fn with_fg_flag(self) -> (r: Self)
        ensures
            r == (Cell { flags: TileFlags(self.flags.0 | FLAG_FG), ..self }),
    {
        Self { flags: self.flags.with_fg(), ..self }
    }

    /// The cell marked as a collider.
    pub fn with_collision_flag(self) -> (r: Self)
        ensures
            r == (Cell { flags: TileFlags(self.flags.0 | FLAG_COLLIDER), ..self }),
    {
        Self { flags: self.flags.with_collision(), ..self }
    }

    /// The cell rotated.
    pub fn with_rotation_flag(self) -> (r: Self)
        ensures
            r == (Cell { flags: TileFlags(self.flags.0 | FLAG_ROTATED), ..self }),
    {
        Self { flags: self.flags.with_rotation(), ..self }
    }

    /// The cell flipped horizontally.
    pub fn with_flip_x_flag(self) -> (r: Self)
        ensures
            r == (Cell { flags: TileFlags(self.flags.0 | FLAG_FLIP_H), ..self }),
    {
        Self { flags: self.flags.with_flip_x(), ..self }
    }

    /// The cell flipped vertically.
    pub fn with_flip_y_flag(self) -> (r: Self)
        ensures
            r == (Cell { flags: TileFlags(self.flags.0 | FLAG_FLIP_V), ..self }),
    {
        Self { flags: self.flags.with_flip_y(), ..self }
    }
}

} // verus!
