//! Collision tests of lines against the tiles of a tilemap.

use vstd::prelude::*;
use crate::video::tilemap::{DynTilemap, grid_index};
use crate::video::tilemap_ref::TilemapRef;
use crate::video::tile_flags::TileFlags;
use crate::video::tilemap::{u16_as_i16, lemma_u16_as_i16};

verus! {

/// The tile a line collided with.
#[derive(Debug, Clone)]
pub struct TileCollision {
    pub col: i16,
    pub row: i16,
}

/// The tile at column `col`, row `row` of the map is in the map and its flag byte has
/// one of the bits of `collision_group`.
pub open spec fn tile_hit(map: TilemapRef, col: int, row: int, collision_group: u8) -> bool {
    match grid_index(map.columns as int, map.rows as int, col, row) {
        Some(i) => map.cells@[i].flags.0 & collision_group != 0,
        None => false,
    }
}

/// Whether `k` is strictly between `start` and `v` in the order that starts at `start`
/// and goes towards `end`, or is `start` itself before `v`.
pub open spec fn scanned_before(start: int, end: int, k: int, v: int) -> bool {
    if end < start {
        v < k <= start
    } else {
        start <= k < v
    }
}

/// Whether `v` is between `start` and `end`, inclusive, in either order.
pub open spec fn on_line(start: int, end: int, v: int) -> bool {
    if end < start {
        end <= v <= start
    } else {
        start <= v <= end
    }
}

/// Whether the tile at `(col, row)` is a hit, read from the map.
fn check_tile(map: &TilemapRef, col: i16, row: i16, collision_group: u8) -> (r: bool)
    requires
        map.columns * map.rows <= map.cells@.len(),
    ensures
        r == tile_hit(*map, col as int, row as int, collision_group),
{
    if col < 0 || row < 0 {
        return false;
    }
    match map.get_cell(col, row) {
        Some(cell) => cell.flags.0 & collision_group != 0,
        None => false,
    }
}

/// Tests tilemap collisions from start_row to end_row (inclusive), in column `col`:
/// returns the first tile, going from `start_row` towards `end_row`, whose flag byte has
/// one of the bits of `collision_group`. Checks in reverse if end_row < start_row.
pub fn line_to_tile_y<'a>(
    map: TilemapRef<'a>,
    col: i16,
    start_row: i16,
    end_row: i16,
    collision_group: u8,
) -> (r: Option<TileCollision>)
    requires
        map.columns * map.rows <= map.cells@.len(),
    ensures
        (col < 0 || col >= u16_as_i16(map.columns)) ==> r is None,
        r matches Some(c) ==> c.col == col && on_line(start_row as int, end_row as int, c.row as int)
            && tile_hit(map, col as int, c.row as int, collision_group) && forall|k: int|
            scanned_before(start_row as int, end_row as int, k, c.row as int) ==> !tile_hit(
                map,
                col as int,
                k,
                collision_group,
            ),
        r is None && 0 <= col < u16_as_i16(map.columns) ==> forall|k: int|
            on_line(start_row as int, end_row as int, k) ==> !tile_hit(
                map,
                col as int,
                k,
                collision_group,
            ),
{
    proof {
        lemma_u16_as_i16(map.columns);
    }
    if col < 0 || col >= map.columns as i16 {
        return None;
    }
    let step: i32 = if end_row < start_row {
        -1
    } else {
        1
    };
    let mut row: i32 = start_row as i32;
    loop
        invariant
            0 <= col < u16_as_i16(map.columns),
            on_line(start_row as int, end_row as int, row as int),
            step == (if end_row < start_row {
                -1i32
            } else {
                1i32
            }),
            map.columns * map.rows <= map.cells@.len(),
            forall|k: int|
                scanned_before(start_row as int, end_row as int, k, row as int) ==> !tile_hit(
                    map,
                    col as int,
                    k,
                    collision_group,
                ),
        decreases if end_row < start_row {
            row - end_row
        } else {
            end_row - row
        },
    {
        if check_tile(&map, col, row as i16, collision_group) {
            return Some(TileCollision { col, row: row as i16 });
        }
        if row == end_row as i32 {
            return None;
        }
        row = row + step;
    }
}

/// Tests tilemap collisions from start_col to end_col (inclusive), in row `row`: returns
/// the first tile, going from `start_col` towards `end_col`, whose flag byte has one of
/// the bits of `collision_group`. Checks in reverse if end_col < start_col.
pub fn line_to_tile_x<'a>(
    map: TilemapRef<'a>,
    start_col: i16,
    end_col: i16,
    row: i16,
    collision_group: u8,
) -> (r: Option<TileCollision>)
    requires
        map.columns * map.rows <= map.cells@.len(),
    ensures
        (row < 0 || row >= u16_as_i16(map.rows)) ==> r is None,
        r matches Some(c) ==> c.row == row && on_line(start_col as int, end_col as int, c.col as int)
            && tile_hit(map, c.col as int, row as int, collision_group) && forall|k: int|
            scanned_before(start_col as int, end_col as int, k, c.col as int) ==> !tile_hit(
                map,
                k,
                row as int,
                collision_group,
            ),
        r is None && 0 <= row < u16_as_i16(map.rows) ==> forall|k: int|
            on_line(start_col as int, end_col as int, k) ==> !tile_hit(
                map,
                k,
                row as int,
                collision_group,
            ),
{
    proof {
        lemma_u16_as_i16(map.rows);
    }
    if row < 0 || row >= map.rows as i16 {
        return None;
    }
    let step: i32 = if end_col < start_col {
        -1
    } else {
        1
    };
    let mut col: i32 = start_col as i32;
    loop
        invariant
            0 <= row < u16_as_i16(map.rows),
            on_line(start_col as int, end_col as int, col as int),
            step == (if end_col < start_col {
                -1i32
            } else {
                1i32
            }),
            map.columns * map.rows <= map.cells@.len(),
            forall|k: int|
                scanned_before(start_col as int, end_col as int, k, col as int) ==> !tile_hit(
                    map,
                    k,
                    row as int,
                    collision_group,
                ),
        decreases if end_col < start_col {
            col - end_col
        } else {
            end_col - col
        },
    {
        if check_tile(&map, col as i16, row, collision_group) {
            return Some(TileCollision { col: col as i16, row });
        }
        if col == end_col as i32 {
            return None;
        }
        col = col + step;
    }
}

/// Bit `b` of `v` is set.
pub open spec fn bit_set(v: u8, b: u8) -> bool {
    (v >> b) & 1 == 1
}

/// Two bytes have a set bit in common exactly when their `&` is not zero.
proof fn lemma_shared_bit(x: u8, y: u8)
    by (bit_vector)
    ensures
        (x & y != 0) == ((((x >> 0u8) & 1 == 1) && ((y >> 0u8) & 1 == 1)) || (((x >> 1u8) & 1 == 1) && ((y
            >> 1u8) & 1 == 1)) || (((x >> 2u8) & 1 == 1) && ((y >> 2u8) & 1 == 1)) || (((x >> 3u8) & 1 == 1)
            && ((y >> 3u8) & 1 == 1)) || (((x >> 4u8) & 1 == 1) && ((y >> 4u8) & 1 == 1)) || (((x >> 5u8) & 1
            == 1) && ((y >> 5u8) & 1 == 1)) || (((x >> 6u8) & 1 == 1) && ((y >> 6u8) & 1 == 1)) || (((x
            >> 7u8) & 1 == 1) && ((y >> 7u8) & 1 == 1))),
{
}

/// A tile is a hit exactly when it lies inside the map and its flag byte and the
/// collision group have at least one set bit in common.
pub proof fn lemma_tile_hit_shares_bit(map: TilemapRef, col: int, row: int, collision_group: u8)
    ensures
        tile_hit(map, col, row, collision_group) <==> (0 <= col < map.columns && 0 <= row < map.rows
            && exists|b: u8|
            b < 8 && #[trigger] bit_set(map.cells@[row * map.columns + col].flags.0, b) && bit_set(
                collision_group,
                b,
            )),
{
    if 0 <= col < map.columns && 0 <= row < map.rows {
        let f = map.cells@[row * map.columns + col].flags.0;
        lemma_shared_bit(f, collision_group);
        if f & collision_group != 0 {
            if bit_set(f, 0) && bit_set(collision_group, 0) {
            } else if bit_set(f, 1) && bit_set(collision_group, 1) {
            } else if bit_set(f, 2) && bit_set(collision_group, 2) {
            } else if bit_set(f, 3) && bit_set(collision_group, 3) {
            } else if bit_set(f, 4) && bit_set(collision_group, 4) {
            } else if bit_set(f, 5) && bit_set(collision_group, 5) {
            } else if bit_set(f, 6) && bit_set(collision_group, 6) {
            } else {
                assert(bit_set(f, 7) && bit_set(collision_group, 7));
            }
        } else {
            assert forall|b: u8| b < 8 && #[trigger] bit_set(f, b) implies !bit_set(collision_group, b) by {
                if b == 0 {
                } else if b == 1 {
                } else if b == 2 {
                } else if b == 3 {
                } else if b == 4 {
                } else if b == 5 {
                } else if b == 6 {
                } else {
                }
            }
        }
    }
}

} // verus!
