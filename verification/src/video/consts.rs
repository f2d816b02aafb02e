use vstd::prelude::*;

verus! {

/// Width and height of a tile, in pixels.
pub const TILE_SIZE: u8 = 8;

/// Number of tiles a tile bank holds.
pub const TILE_COUNT: usize = 256;

/// Number of colors in a main palette.
pub const COLORS_PER_PALETTE: u8 = 16;

/// Number of pixel rows (clusters) in a tile.
pub const TILE_CLUSTER_COUNT: usize = 8;

/// Maximum number of sprites per frame.
pub const MAX_SPRITES: usize = 256;

/// Maximum number of scanlines (screen height).
pub const MAX_LINES: usize = 240;

/// Maximum number of sprites that can be shown on one scanline.
pub const SPRITES_PER_LINE: usize = 16;

/// Number of horizontal slots a scanline is divided into for the sprite mask.
pub const SLOTS_PER_LINE: usize = 16;

/// A cluster always contains 8 pixels, regardless of color depth.
pub const PIXELS_PER_CLUSTER: u8 = 8;

} // verus!
