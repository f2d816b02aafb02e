use vstd::prelude::*;
use crate::math::rect::{Rect, max_int, min_int};
use crate::video::cell::Cell;
use crate::video::tile::TileID;
use crate::video::tile_flags::TileFlags;
use crate::video::tilemap::{
    grid_index,
    lemma_index_coords_roundtrip,
    fits_i16,
    u16_as_i16,
    lemma_u16_as_i16,
    copy_in_bounds,
    copied_cell,
    copy_region,
};

verus! {

/// Background maps of any size, with their cells readable and writable.
pub trait DynamicBGMap {
    /// The cells of the map.
    spec fn cells_view(&self) -> Seq<Cell>;

    /// The number of cell columns.
    spec fn columns_view(&self) -> u16;

    /// The number of cell rows.
    spec fn rows_view(&self) -> u16;

    /// The cells of the map.
    fn cells(&self) -> (r: &[Cell])
        ensures
            r@ == self.cells_view(),
    ;

    /// The cells of the map, for writing; the dimensions stay.
    fn cells_mut(&mut self) -> (r: &mut [Cell])
        ensures
            r@ == old(self).cells_view(),
            final(self).cells_view() == final(r)@,
            final(self).columns_view() == old(self).columns_view(),
            final(self).rows_view() == old(self).rows_view(),
    ;

    /// The number of cell columns.
    fn columns(&self) -> (r: u16)
        ensures
            r == self.columns_view(),
    ;

    /// The number of cell rows.
    fn rows(&self) -> (r: u16)
        ensures
            r == self.rows_view(),
    ;

    /// Width in pixels.
    fn width(&self) -> (r: u16)
        requires
            self.columns_view() * 8 <= u16::MAX,
        ensures
            r == self.columns_view() * 8,
    ;

    /// Height in pixels.
    fn height(&self) -> (r: u16)
        requires
            self.rows_view() * 8 <= u16::MAX,
        ensures
            r == self.rows_view() * 8,
    ;

    /// Total cell capacity of the map.
    fn len(&self) -> (r: usize)
        ensures
            r == self.cells_view().len(),
    ;

    /// Changes the active dimensions; the cells stay.
    fn set_size(&mut self, columns: u16, rows: u16)
        requires
            columns * rows <= old(self).cells_view().len(),
            columns > 0 && rows > 0,
        ensures
            final(self).columns_view() == columns,
            final(self).rows_view() == rows,
            final(self).cells_view() == old(self).cells_view(),
    ;
}

/// A simple collection of Cells, split into a number of columns and rows that can never
/// exceed the constant CELL_COUNT capacity.
#[derive(Debug, Clone)]
pub struct Tilemap<const CELL_COUNT: usize> {
    pub cells: [Cell; CELL_COUNT],
    pub columns: u16,
    pub rows: u16,
}

/// A simple packet of required cells to fully set the attributes on a BG tile.
#[derive(Debug, Clone, Copy)]
pub struct BgOp {
    pub col: u16,
    pub row: u16,
    pub tile_id: TileID,
    pub flags: TileFlags,
}

impl<const CELL_COUNT: usize> Tilemap<CELL_COUNT> {
    /// A map with the given dimensions, every cell the default one.
    pub fn new(columns: u16, rows: u16) -> (r: Self)
        requires
            CELL_COUNT < u16::MAX,
            columns * rows <= CELL_COUNT,
            columns > 0 && rows > 0,
        ensures
            r.columns == columns,
            r.rows == rows,
            forall|k: int|
                0 <= k < CELL_COUNT ==> #[trigger] r.cells@[k] == (Cell {
                    id: TileID(0),
                    flags: TileFlags(0),
                    colors: crate::video::palette::Palette(0),
                }),
    {
        let blank = Cell::new(0, 0, 0);
        let r = Self { cells: [blank; CELL_COUNT], columns, rows };
        assert(forall|k: int| 0 <= k < CELL_COUNT ==> r.cells@[k] == blank);
        r
    }
}

impl<const CELL_COUNT: usize> DynamicBGMap for Tilemap<CELL_COUNT> {
    open spec fn cells_view(&self) -> Seq<Cell> {
        self.cells@
    }

    open spec fn columns_view(&self) -> u16 {
        self.columns
    }

    open spec fn rows_view(&self) -> u16 {
        self.rows
    }

    fn cells(&self) -> (r: &[Cell]) {
        self.cells.as_slice()
    }

    fn cells_mut(&mut self) -> (r: &mut [Cell]) {
        &mut self.cells
    }

    fn columns(&self) -> (r: u16) {
        self.columns
    }

    fn rows(&self) -> (r: u16) {
        self.rows
    }

    fn width(&self) -> (r: u16) {
        self.columns * 8
    }

    fn height(&self) -> (r: u16) {
        self.rows * 8
    }

    fn len(&self) -> (r: usize) {
        CELL_COUNT
    }

    fn set_size(&mut self, columns: u16, rows: u16) {
        self.columns = columns;
        self.rows = rows;
    }
}

/// The linear index of column `col`, row `row` of a map, or `None` outside it.
pub fn bg_get_index<M: DynamicBGMap>(map: &M, col: u16, row: u16) -> (r: Option<usize>)
    ensures
        r matches Some(i) ==> grid_index(
            map.columns_view() as int,
            map.rows_view() as int,
            col as int,
            row as int,
        ) == Some(i as int),
        r is None ==> grid_index(
            map.columns_view() as int,
            map.rows_view() as int,
            col as int,
            row as int,
        ) is None,
{
    if col as usize >= map.columns() as usize || row as usize >= map.rows() as usize {
        return None;
    }
    proof {
        assert(row * map.columns_view() <= 65535 * 65535) by (nonlinear_arith)
            requires
                0 <= row <= 65535,
                0 <= map.columns_view() <= 65535,
        ;
    }
    Some((row as usize * map.columns() as usize) + col as usize)
}

/// The cells of a map after `update` at column `col`, row `row` (nothing changes
/// outside the map).
pub open spec fn cells_updated_at(
    cells: Seq<Cell>,
    columns: u16,
    rows: u16,
    col: u16,
    row: u16,
    id: Option<TileID>,
    flags: Option<TileFlags>,
) -> Seq<Cell> {
    match grid_index(columns as int, rows as int, col as int, row as int) {
        Some(i) => cells.update(
            i,
            Cell {
                id: match id {
                    Some(v) => v,
                    None => cells[i].id,
                },
                flags: match flags {
                    Some(v) => v,
                    None => cells[i].flags,
                },
                ..cells[i]
            },
        ),
        None => cells,
    }
}

/// Writes the id and flags of the cell at column `col`, row `row`, where given.
fn bg_update<M: DynamicBGMap>(
    map: &mut M,
    col: u16,
    row: u16,
    id: Option<TileID>,
    flags: Option<TileFlags>,
)
    requires
        old(map).columns_view() * old(map).rows_view() <= old(map).cells_view().len(),
    ensures
        final(map).cells_view() == cells_updated_at(
            old(map).cells_view(),
            old(map).columns_view(),
            old(map).rows_view(),
            col,
            row,
            id,
            flags,
        ),
        final(map).columns_view() == old(map).columns_view(),
        final(map).rows_view() == old(map).rows_view(),
{
    if let Some(index) = bg_get_index(map, col, row) {
        proof {
            lemma_index_coords_roundtrip(
                map.columns_view() as int,
                map.rows_view() as int,
                col as int,
                row as int,
                0,
            );
        }
        let cells = map.cells_mut();
        let mut cell = cells[index];
        if let Some(v) = id {
            cell.id = v;
        }
        if let Some(v) = flags {
            cell.flags = v;
        }
        cells[index] = cell;
    }
}

/// Sets the tile id and flags of the cell at the operation's coordinates. Does nothing
/// if out of bounds.
pub fn bg_set_cell<M: DynamicBGMap>(map: &mut M, op: BgOp)
    requires
        old(map).columns_view() * old(map).rows_view() <= old(map).cells_view().len(),
    ensures
        final(map).cells_view() == cells_updated_at(
            old(map).cells_view(),
            old(map).columns_view(),
            old(map).rows_view(),
            op.col,
            op.row,
            Some(op.tile_id),
            Some(op.flags),
        ),
        final(map).columns_view() == old(map).columns_view(),
        final(map).rows_view() == old(map).rows_view(),
{
    bg_update(map, op.col, op.row, Some(op.tile_id), Some(op.flags));
}

/// Sets the tile id at the given coordinates. Does nothing if out of bounds.
pub fn bg_set_id<M: DynamicBGMap>(map: &mut M, col: u16, row: u16, tile_id: TileID)
    requires
        old(map).columns_view() * old(map).rows_view() <= old(map).cells_view().len(),
    ensures
        final(map).cells_view() == cells_updated_at(
            old(map).cells_view(),
            old(map).columns_view(),
            old(map).rows_view(),
            col,
            row,
            Some(tile_id),
            None,
        ),
        final(map).columns_view() == old(map).columns_view(),
        final(map).rows_view() == old(map).rows_view(),
{
    bg_update(map, col, row, Some(tile_id), None);
}

/// Sets the tile flags at the given coordinates. Does nothing if out of bounds.
pub fn bg_set_flags<M: DynamicBGMap>(map: &mut M, col: u16, row: u16, flags: TileFlags)
    requires
        old(map).columns_view() * old(map).rows_view() <= old(map).cells_view().len(),
    ensures
        final(map).cells_view() == cells_updated_at(
            old(map).cells_view(),
            old(map).columns_view(),
            old(map).rows_view(),
            col,
            row,
            None,
            Some(flags),
        ),
        final(map).columns_view() == old(map).columns_view(),
        final(map).rows_view() == old(map).rows_view(),
{
    bg_update(map, col, row, None, Some(flags));
}

/// The cell at the given coordinates, or `None` outside the map.
pub fn bg_get_cell<M: DynamicBGMap>(map: &M, col: u16, row: u16) -> (r: Option<Cell>)
    requires
        map.columns_view() * map.rows_view() <= map.cells_view().len(),
    ensures
        r == (match grid_index(
            map.columns_view() as int,
            map.rows_view() as int,
            col as int,
            row as int,
        ) {
            Some(i) => Some(map.cells_view()[i]),
            None => None,
        }),
{
    let index = bg_get_index(map, col, row)?;
    proof {
        lemma_index_coords_roundtrip(map.columns_view() as int, map.rows_view() as int, col as int, row as int, 0);
    }
    Some(map.cells()[index])
}

/// The tile id at the given coordinates, or `None` outside the map.
pub fn bg_get_id<M: DynamicBGMap>(map: &M, col: u16, row: u16) -> (r: Option<TileID>)
    requires
        map.columns_view() * map.rows_view() <= map.cells_view().len(),
    ensures
        r == (match grid_index(
            map.columns_view() as int,
            map.rows_view() as int,
            col as int,
            row as int,
        ) {
            Some(i) => Some(map.cells_view()[i].id),
            None => None,
        }),
{
    let index = bg_get_index(map, col, row)?;
    proof {
        lemma_index_coords_roundtrip(map.columns_view() as int, map.rows_view() as int, col as int, row as int, 0);
    }
    Some(map.cells()[index].id)
}

/// The tile flags at the given coordinates, or `None` outside the map.
pub fn bg_get_flags<M: DynamicBGMap>(map: &M, col: u16, row: u16) -> (r: Option<TileFlags>)
    requires
        map.columns_view() * map.rows_view() <= map.cells_view().len(),
    ensures
        r == (match grid_index(
            map.columns_view() as int,
            map.rows_view() as int,
            col as int,
            row as int,
        ) {
            Some(i) => Some(map.cells_view()[i].flags),
            None => None,
        }),
{
    let index = bg_get_index(map, col, row)?;
    proof {
        lemma_index_coords_roundtrip(map.columns_view() as int, map.rows_view() as int, col as int, row as int, 0);
    }
    Some(map.cells()[index].flags)
}

/// The field of an optional rectangle read as an `i16`, or `default` without one: field 0
/// is `x`, 1 is `y`, 2 is `w` and 3 is `h`.
pub open spec fn rect16_field(r: Option<Rect<u16>>, field: int, default: u16) -> int {
    u16_as_i16(
        match r {
            Some(r) => if field == 0 {
                r.x
            } else if field == 1 {
                r.y
            } else if field == 2 {
                r.w
            } else {
                r.h
            },
            None => default,
        },
    )
}

/// The region `bg_copy` covers, clipped to both maps: the source column and row it
/// starts at (only the clipping of a negative destination moves it; the source
/// rectangle's position is not used), the destination column and row, and its width and
/// height (`0` or less when nothing is copied).
pub open spec fn bg_copy_window(
    src_columns: u16,
    src_rows: u16,
    src_rect: Option<Rect<u16>>,
    dst_rect: Option<Rect<u16>>,
    dst_columns: u16,
    dst_rows: u16,
) -> (int, int, int, int, int, int) {
    let src_x = rect16_field(src_rect, 0, 0);
    let src_y = rect16_field(src_rect, 1, 0);
    let src_w = min_int(rect16_field(src_rect, 2, src_columns), u16_as_i16(src_columns) - src_x);
    let src_h = min_int(rect16_field(src_rect, 3, src_rows), u16_as_i16(src_rows) - src_y);
    let dst_x = rect16_field(dst_rect, 0, 0);
    let dst_y = rect16_field(dst_rect, 1, 0);
    let clip_x = if dst_x < 0 {
        -dst_x
    } else {
        0
    };
    let clip_y = if dst_y < 0 {
        -dst_y
    } else {
        0
    };
    let start_x = max_int(0, dst_x);
    let start_y = max_int(0, dst_y);
    let width = max_int(0, min_int(src_w - clip_x, u16_as_i16(dst_columns) - start_x));
    let height = max_int(0, min_int(src_h - clip_y, u16_as_i16(dst_rows) - start_y));
    (clip_x, clip_y, start_x, start_y, width, height)
}

/// Every step of computing the `bg_copy` window fits an `i16`.
pub open spec fn bg_copy_window_fits(
    src_columns: u16,
    src_rows: u16,
    src_rect: Option<Rect<u16>>,
    dst_rect: Option<Rect<u16>>,
    dst_columns: u16,
    dst_rows: u16,
) -> bool {
    let src_x = rect16_field(src_rect, 0, 0);
    let src_y = rect16_field(src_rect, 1, 0);
    let src_w = min_int(rect16_field(src_rect, 2, src_columns), u16_as_i16(src_columns) - src_x);
    let src_h = min_int(rect16_field(src_rect, 3, src_rows), u16_as_i16(src_rows) - src_y);
    let dst_x = rect16_field(dst_rect, 0, 0);
    let dst_y = rect16_field(dst_rect, 1, 0);
    let clip_x = if dst_x < 0 {
        -dst_x
    } else {
        0
    };
    let clip_y = if dst_y < 0 {
        -dst_y
    } else {
        0
    };
    let w = bg_copy_window(src_columns, src_rows, src_rect, dst_rect, dst_columns, dst_rows);
    &&& fits_i16(u16_as_i16(src_columns) - src_x)
    &&& fits_i16(u16_as_i16(src_rows) - src_y)
    &&& fits_i16(clip_x)
    &&& fits_i16(clip_y)
    &&& fits_i16(src_w - clip_x)
    &&& fits_i16(u16_as_i16(dst_columns) - max_int(0, dst_x))
    &&& fits_i16(src_h - clip_y)
    &&& fits_i16(u16_as_i16(dst_rows) - max_int(0, dst_y))
    &&& (w.4 > 0 && w.5 > 0 ==> fits_i16(w.0 + w.4) && fits_i16(w.1 + w.5))
}

/// The field of an optional rectangle, or `default` without one, as the exec code reads
/// it.
fn field_or(r: Option<Rect<u16>>, field: u8, default: u16) -> (v: i16)
    ensures
        v == rect16_field(r, field as int, default),
{
    let raw: u16 = match r {
        Some(r) => if field == 0 {
            r.x
        } else if field == 1 {
            r.y
        } else if field == 2 {
            r.w
        } else {
            r.h
        },
        None => default,
    };
    proof {
        lemma_u16_as_i16(raw);
    }
    raw as i16
}

/// The smaller of two values.
fn min16(a: i16, b: i16) -> (r: i16)
    ensures
        r == min_int(a as int, b as int),
{
    if a < b {
        a
    } else {
        b
    }
}

/// The larger of two values.
fn max16(a: i16, b: i16) -> (r: i16)
    ensures
        r == max_int(a as int, b as int),
{
    if a > b {
        a
    } else {
        b
    }
}

/// Copies a rectangular region from a src tilemap to this tilemap.
/// - If `src_rect` is None, attempts to copy the entire source tilemap.
/// - If `dst_rect` is None, pastes at (0,0) and fills as many tiles as possible.
/// - Negative destination coordinates are handled by clipping the source region.
///
/// The copied cells keep their ids: the window's cells come from `src` unchanged.
pub fn bg_copy<S: DynamicBGMap, D: DynamicBGMap>(
    src: &S,
    src_rect: Option<Rect<u16>>,
    dst: &mut D,
    dst_rect: Option<Rect<u16>>,
)
    requires
        bg_copy_window_fits(
            src.columns_view(),
            src.rows_view(),
            src_rect,
            dst_rect,
            old(dst).columns_view(),
            old(dst).rows_view(),
        ),
        copy_in_bounds(
            src.cells_view(),
            src.columns_view() as int,
            old(dst).cells_view().len() as int,
            old(dst).columns_view() as int,
            bg_copy_window(
                src.columns_view(),
                src.rows_view(),
                src_rect,
                dst_rect,
                old(dst).columns_view(),
                old(dst).rows_view(),
            ),
            0,
        ),
    ensures
        final(dst).columns_view() == old(dst).columns_view(),
        final(dst).rows_view() == old(dst).rows_view(),
        final(dst).cells_view().len() == old(dst).cells_view().len(),
        forall|k: int|
            0 <= k < old(dst).cells_view().len() ==> #[trigger] final(dst).cells_view()[k]
                == copied_cell(
                old(dst).cells_view(),
                src.cells_view(),
                src.columns_view() as int,
                old(dst).columns_view() as int,
                bg_copy_window(
                    src.columns_view(),
                    src.rows_view(),
                    src_rect,
                    dst_rect,
                    old(dst).columns_view(),
                    old(dst).rows_view(),
                ),
                0,
                k,
            ),
{
    let src_columns = src.columns();
    let src_rows = src.rows();
    let dst_columns = dst.columns();
    let dst_rows = dst.rows();
    proof {
        lemma_u16_as_i16(src_columns);
        lemma_u16_as_i16(src_rows);
        lemma_u16_as_i16(dst_columns);
        lemma_u16_as_i16(dst_rows);
    }
    // Determine source rectangle
    let src_x = field_or(src_rect, 0, 0);
    let src_y = field_or(src_rect, 1, 0);
    let src_w = field_or(src_rect, 2, src_columns);
    let src_h = field_or(src_rect, 3, src_rows);
    // Make sure source rectangle is within bounds
    let src_w = min16(src_w, src_columns as i16 - src_x);
    let src_h = min16(src_h, src_rows as i16 - src_y);
    // Determine destination rectangle
    let dst_x = field_or(dst_rect, 0, 0);
    let dst_y = field_or(dst_rect, 1, 0);
    // Calculate clipping for negative coordinates
    let clip_x: i16 = if dst_x < 0 {
        -dst_x
    } else {
        0
    };
    let clip_y: i16 = if dst_y < 0 {
        -dst_y
    } else {
        0
    };
    // Adjust source and destination starting points
    let effective_dst_x = max16(0, dst_x);
    let effective_dst_y = max16(0, dst_y);
    // Calculate effective width and height after clipping
    let effective_width = max16(0, min16(src_w - clip_x, dst_columns as i16 - effective_dst_x));
    let effective_height = max16(0, min16(src_h - clip_y, dst_rows as i16 - effective_dst_y));
    // If there's nothing to copy (zero width or height), return early
    if effective_width <= 0 || effective_height <= 0 {
        return;
    }
    // Calculate effective src positions (accounting for clipping)
    let effective_src_x = clip_x;
    let effective_src_y = clip_y;
    let cells = dst.cells_mut();
    copy_region(
        cells,
        dst_columns as usize,
        src.cells(),
        src_columns as usize,
        effective_src_x,
        effective_src_y,
        effective_dst_x,
        effective_dst_y,
        effective_width,
        effective_height,
        0,
    );
}

} // verus!
