//! A tile-based video chip: colors, palettes, tiles, tilemaps, banks and sprites.

pub mod consts;
pub mod tile_flags;
pub mod color;
pub mod palette;
pub mod cluster;
pub mod tile;
pub mod cell;
pub mod bank_colors;
pub mod bank_tiles;
pub mod bank;
pub mod tilemap;
pub mod tilemap_ref;
pub mod bg_map;
pub mod video_bank;
pub mod sprite;
pub mod video_chip;
pub mod pixel_iter;
