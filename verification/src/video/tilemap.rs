use vstd::prelude::*;
use vstd::arithmetic::div_mod::{lemma_fundamental_div_mod, lemma_fundamental_div_mod_converse, lemma_mod_bound};
use crate::math::rect::{Rect, max_int, min_int};
use crate::video::cell::Cell;
use crate::video::tile::TileID;
use crate::video::tile_flags::TileFlags;
use crate::video::palette::Palette;

verus! {

/// The linear index of column `col`, row `row` of a grid with `columns` columns and
/// `rows` rows, or `None` outside the grid.
pub open spec fn grid_index(columns: int, rows: int, col: int, row: int) -> Option<int> {
    if 0 <= col < columns && 0 <= row < rows {
        Some(row * columns + col)
    } else {
        None
    }
}

/// The column and row of linear index `index` of a grid, or `None` past its last cell.
pub open spec fn grid_coords(columns: int, rows: int, index: int) -> Option<(int, int)> {
    if index >= columns * rows {
        None
    } else {
        Some((index % columns, index / columns))
    }
}

/// The linear index of a cell in the grid gives back its column and row, and the column
/// and row of an index in the grid give back the index.
pub proof fn lemma_index_coords_roundtrip(columns: int, rows: int, col: int, row: int, index: int)
    requires
        columns >= 0,
        rows >= 0,
    ensures
        grid_index(columns, rows, col, row) matches Some(i) ==> 0 <= i < columns * rows
            && grid_coords(columns, rows, i) == Some((col, row)),
        0 <= index < columns * rows ==> (grid_coords(columns, rows, index) matches Some(c)
            && grid_index(columns, rows, c.0, c.1) == Some(index)),
{
    if 0 <= col < columns && 0 <= row < rows {
        let i = row * columns + col;
        assert(row * columns + col < columns * rows) by (nonlinear_arith)
            requires
                0 <= col < columns,
                0 <= row < rows,
        ;
        assert(0 <= row * columns) by (nonlinear_arith)
            requires
                0 <= row,
                0 <= columns,
        ;
        lemma_fundamental_div_mod_converse(i, columns, row, col);
    }
    if 0 <= index < columns * rows {
        assert(columns > 0) by (nonlinear_arith)
            requires
                0 <= index < columns * rows,
                columns >= 0,
                rows >= 0,
        ;
        lemma_fundamental_div_mod(index, columns);
        lemma_mod_bound(index, columns);
        let q = index / columns;
        assert(0 <= q < rows) by (nonlinear_arith)
            requires
                index == columns * q + index % columns,
                0 <= index % columns < columns,
                0 <= index < columns * rows,
                columns > 0,
        ;
        assert(q * columns + index % columns == index) by (nonlinear_arith)
            requires
                index == columns * q + index % columns,
        ;
    }
}

/// Whether `v` fits an `i16`.
pub open spec fn fits_i16(v: int) -> bool {
    i16::MIN <= v <= i16::MAX
}

/// A `u16` read as an `i16`: values above `i16::MAX` wrap to negative ones.
pub open spec fn u16_as_i16(v: u16) -> int {
    if v <= 32767 {
        v as int
    } else {
        v - 65536
    }
}

/// Reading a `u16` as an `i16` wraps the values above `i16::MAX`.
pub proof fn lemma_u16_as_i16(v: u16)
    by (bit_vector)
    ensures
        v <= 32767 ==> (v as i16) as int == v as int,
        v > 32767 ==> (v as i16) as int == v as int - 65536,
{
}

/// The field of an optional rectangle, or `default` without one: field 0 is `x`, 1 is
/// `y`, 2 is `w` and 3 is `h`.
pub open spec fn rect_field(r: Option<Rect<i16>>, field: int, default: int) -> int {
    match r {
        Some(r) => if field == 0 {
            r.x as int
        } else if field == 1 {
            r.y as int
        } else if field == 2 {
            r.w as int
        } else {
            r.h as int
        },
        None => default,
    }
}

/// The region a tilemap copy covers, clipped to both grids: the source column and row
/// it starts at, the destination column and row, and its width and height (`0` or less
/// when nothing is copied). `src_columns` and `src_rows` are the source grid's size, and
/// `dst_columns` and `dst_rows` the destination's, read as `i16`.
pub open spec fn copy_window(
    src_columns: int,
    src_rows: int,
    src_rect: Option<Rect<i16>>,
    dst_rect: Option<Rect<i16>>,
    dst_columns: int,
    dst_rows: int,
) -> (int, int, int, int, int, int) {
    let src_x = rect_field(src_rect, 0, 0);
    let src_y = rect_field(src_rect, 1, 0);
    let src_w = min_int(rect_field(src_rect, 2, src_columns), src_columns - src_x);
    let src_h = min_int(rect_field(src_rect, 3, src_rows), src_rows - src_y);
    let dst_x = rect_field(dst_rect, 0, 0);
    let dst_y = rect_field(dst_rect, 1, 0);
    let dst_w = rect_field(dst_rect, 2, dst_columns);
    let dst_h = rect_field(dst_rect, 3, dst_rows);
    let clip_x = if dst_x < 0 {
        -dst_x
    } else {
        0
    };
    let clip_y = if dst_y < 0 {
        -dst_y
    } else {
        0
    };
    let start_x = max_int(0, dst_x);
    let start_y = max_int(0, dst_y);
    let width = max_int(0, min_int(min_int(src_w - clip_x, dst_w - clip_x), dst_columns - start_x));
    let height = max_int(0, min_int(min_int(src_h - clip_y, dst_h - clip_y), dst_rows - start_y));
    (src_x + clip_x, src_y + clip_y, start_x, start_y, width, height)
}

/// Which destination cells a tilemap copy writes, and from where: the cell at column
/// `c`, row `r` of the destination is written exactly when it lies in the destination
/// grid and in the destination rectangle (at `(dx, dy)`, `dw` by `dh`; the whole grid by
/// default), and its distance from the rectangle's corner is within the source rectangle
/// cut to the source grid; it then takes the source cell at that distance from the source
/// rectangle's corner. No cell below or right of the destination rectangle changes.
pub proof fn lemma_copy_window_cells(
    src_columns: int,
    src_rows: int,
    src_rect: Option<Rect<i16>>,
    dst_rect: Option<Rect<i16>>,
    dst_columns: int,
    dst_rows: int,
    c: int,
    r: int,
)
    ensures
        ({
            let w = copy_window(src_columns, src_rows, src_rect, dst_rect, dst_columns, dst_rows);
            let sx = rect_field(src_rect, 0, 0);
            let sy = rect_field(src_rect, 1, 0);
            let dx = rect_field(dst_rect, 0, 0);
            let dy = rect_field(dst_rect, 1, 0);
            let dw = rect_field(dst_rect, 2, dst_columns);
            let dh = rect_field(dst_rect, 3, dst_rows);
            let written = w.4 > 0 && w.5 > 0 && w.2 <= c < w.2 + w.4 && w.3 <= r < w.3 + w.5;
            &&& written <==> (0 <= c < dst_columns && 0 <= r < dst_rows && dx <= c < dx + dw && dy <= r < dy + dh
                && c - dx < rect_field(src_rect, 2, src_columns) && c - dx < src_columns - sx && r - dy
                < rect_field(src_rect, 3, src_rows) && r - dy < src_rows - sy)
            &&& written ==> w.0 + (c - w.2) == sx + (c - dx) && w.1 + (r - w.3) == sy + (r - dy)
        }),
{
}

/// Every step of computing the copy window fits an `i16`.
pub open spec fn copy_window_fits(
    src_columns: int,
    src_rows: int,
    src_rect: Option<Rect<i16>>,
    dst_rect: Option<Rect<i16>>,
    dst_columns: int,
    dst_rows: int,
) -> bool {
    let src_x = rect_field(src_rect, 0, 0);
    let src_y = rect_field(src_rect, 1, 0);
    let src_w = min_int(rect_field(src_rect, 2, src_columns), src_columns - src_x);
    let src_h = min_int(rect_field(src_rect, 3, src_rows), src_rows - src_y);
    let dst_x = rect_field(dst_rect, 0, 0);
    let dst_y = rect_field(dst_rect, 1, 0);
    let dst_w = rect_field(dst_rect, 2, dst_columns);
    let dst_h = rect_field(dst_rect, 3, dst_rows);
    let clip_x = if dst_x < 0 {
        -dst_x
    } else {
        0
    };
    let clip_y = if dst_y < 0 {
        -dst_y
    } else {
        0
    };
    let w = copy_window(src_columns, src_rows, src_rect, dst_rect, dst_columns, dst_rows);
    &&& fits_i16(src_columns - src_x)
    &&& fits_i16(src_rows - src_y)
    &&& fits_i16(clip_x)
    &&& fits_i16(clip_y)
    &&& fits_i16(src_w - clip_x)
    &&& fits_i16(dst_w - clip_x)
    &&& fits_i16(dst_columns - max_int(0, dst_x))
    &&& fits_i16(src_h - clip_y)
    &&& fits_i16(dst_h - clip_y)
    &&& fits_i16(dst_rows - max_int(0, dst_y))
    &&& (w.4 > 0 && w.5 > 0 ==> fits_i16(w.0 + w.4) && fits_i16(w.1 + w.5) && w.0 >= 0 && w.1 >= 0)
}

/// The cell at index `k` of the destination after a copy of the window `w` from `src`
/// (a grid `src_columns` wide) into `dst` (a grid `dst_columns` wide), with `offset`
/// added to the tile ids of the copied cells.
pub open spec fn copied_cell(
    dst: Seq<Cell>,
    src: Seq<Cell>,
    src_columns: int,
    dst_columns: int,
    w: (int, int, int, int, int, int),
    offset: int,
    k: int,
) -> Cell {
    if w.4 > 0 && w.5 > 0 && w.3 <= k / dst_columns < w.3 + w.5 && w.2 <= k % dst_columns < w.2
        + w.4 {
        let c = src[(w.1 + k / dst_columns - w.3) * src_columns + w.0 + k % dst_columns - w.2];
        Cell { id: TileID((c.id.0 + offset) as u8), ..c }
    } else {
        dst[k]
    }
}

/// The index of the source cell that lands at column `x`, row `y` of the window.
pub open spec fn window_source(src_columns: int, w: (int, int, int, int, int, int), x: int, y: int) -> int {
    (w.1 + y) * src_columns + w.0 + x
}

/// The index of the destination cell at column `x`, row `y` of the window.
pub open spec fn window_target(dst_columns: int, w: (int, int, int, int, int, int), x: int, y: int) -> int {
    (w.3 + y) * dst_columns + w.2 + x
}

/// Whether a copy of the window `w` reads and writes inside both grids, and the tile ids
/// of the copied cells stay below 256 with `offset` added.
pub open spec fn copy_in_bounds(
    src: Seq<Cell>,
    src_columns: int,
    dst_len: int,
    dst_columns: int,
    w: (int, int, int, int, int, int),
    offset: int,
) -> bool {
    w.4 > 0 && w.5 > 0 ==> {
        &&& src_columns >= 0
        &&& window_source(src_columns, w, w.4 - 1, w.5 - 1) < src.len()
        &&& window_target(dst_columns, w, w.4 - 1, w.5 - 1) < dst_len
        &&& forall|x: int, y: int|
            0 <= x < w.4 && 0 <= y < w.5 ==> #[trigger] src[window_source(src_columns, w, x, y)].id.0
                + offset < 256
    }
}

/// The cell at index `k` of the destination while a copy is under way: the rows of the
/// window before `y`, and the first `x` cells of row `y`, are copied.
pub open spec fn copy_progress(
    dst: Seq<Cell>,
    src: Seq<Cell>,
    src_columns: int,
    dst_columns: int,
    w: (int, int, int, int, int, int),
    offset: int,
    k: int,
    x: int,
    y: int,
) -> Cell {
    if w.4 > 0 && w.5 > 0 && w.3 <= k / dst_columns < w.3 + w.5 && w.2 <= k % dst_columns < w.2
        + w.4 && (k / dst_columns - w.3 < y || (k / dst_columns - w.3 == y && k % dst_columns
        - w.2 < x)) {
        copied_cell(dst, src, src_columns, dst_columns, w, offset, k)
    } else {
        dst[k]
    }
}

/// The smaller of two values.
fn min_i16(a: i16, b: i16) -> (r: i16)
    ensures
        r == min_int(a as int, b as int),
{
    if a < b {
        a
    } else {
        b
    }
}

/// The larger of two values.
fn max_i16(a: i16, b: i16) -> (r: i16)
    ensures
        r == max_int(a as int, b as int),
{
    if a > b {
        a
    } else {
        b
    }
}

/// At column `x`, row `y` of a window that reads and writes in bounds, the source and
/// destination indices are in bounds too.
proof fn lemma_window_step(
    src_len: int,
    src_columns: int,
    dst_len: int,
    dst_columns: int,
    w: (int, int, int, int, int, int),
    x: int,
    y: int,
)
    requires
        0 <= x < w.4,
        0 <= y < w.5,
        w.0 >= 0,
        w.1 >= 0,
        w.2 >= 0,
        w.3 >= 0,
        src_columns >= 0,
        dst_columns >= 0,
        window_source(src_columns, w, w.4 - 1, w.5 - 1) < src_len,
        window_target(dst_columns, w, w.4 - 1, w.5 - 1) < dst_len,
    ensures
        0 <= (w.1 + y) * src_columns,
        0 <= window_source(src_columns, w, x, y) < src_len,
        0 <= (w.3 + y) * dst_columns,
        0 <= window_target(dst_columns, w, x, y) < dst_len,
{
    assert((w.1 + y) * src_columns <= (w.1 + w.5 - 1) * src_columns) by (nonlinear_arith)
        requires
            y <= w.5 - 1,
            src_columns >= 0,
    ;
    assert((w.3 + y) * dst_columns <= (w.3 + w.5 - 1) * dst_columns) by (nonlinear_arith)
        requires
            y <= w.5 - 1,
            dst_columns >= 0,
    ;
    assert(0 <= (w.1 + y) * src_columns) by (nonlinear_arith)
        requires
            w.1 + y >= 0,
            src_columns >= 0,
    ;
    assert(0 <= (w.3 + y) * dst_columns) by (nonlinear_arith)
        requires
            w.3 + y >= 0,
            dst_columns >= 0,
    ;
}

/// Copies the window `w` (source column and row, destination column and row, width and
/// height) of `src`, a grid `src_columns` wide, into `dst`, a grid `dst_columns` wide,
/// adding `offset` to the tile ids, row by row.
pub(crate) fn copy_region(
    dst: &mut [Cell],
    dst_columns: usize,
    src: &[Cell],
    src_columns: usize,
    src_x: i16,
    src_y: i16,
    dst_x: i16,
    dst_y: i16,
    width: i16,
    height: i16,
    offset: u8,
)
    requires
        width > 0,
        height > 0,
        src_x >= 0,
        src_y >= 0,
        dst_x >= 0,
        dst_y >= 0,
        fits_i16(src_x + width),
        fits_i16(src_y + height),
        fits_i16(dst_y + height),
        fits_i16(dst_x + width),
        dst_x + width <= dst_columns,
        copy_in_bounds(
            src@,
            src_columns as int,
            old(dst)@.len() as int,
            dst_columns as int,
            (src_x as int, src_y as int, dst_x as int, dst_y as int, width as int, height as int),
            offset as int,
        ),
    ensures
        final(dst)@.len() == old(dst)@.len(),
        forall|k: int|
            0 <= k < old(dst)@.len() ==> #[trigger] final(dst)@[k] == copied_cell(
                old(dst)@,
                src@,
                src_columns as int,
                dst_columns as int,
                (src_x as int, src_y as int, dst_x as int, dst_y as int, width as int, height as int),
                offset as int,
                k,
            ),
{
    let ghost w = (src_x as int, src_y as int, dst_x as int, dst_y as int, width as int, height as int);
    let ghost dst0 = dst@;
    let ghost dc = dst_columns as int;
    let ghost sc = src_columns as int;
    let src_len = src.len();
    let dst_len = dst.len();
    let mut y: i16 = 0;
    while y < height
        invariant
            0 <= y <= height,
            width > 0,
            src_x >= 0,
            src_y >= 0,
            dst_x >= 0,
            dst_y >= 0,
            fits_i16(src_x + width),
            fits_i16(src_y + height),
            fits_i16(dst_y + height),
            fits_i16(dst_x + width),
            dst_len == dst0.len(),
            dst_x + width <= dst_columns,
            dc == dst_columns,
            sc == src_columns,
            src_len == src@.len(),
            dst@.len() == dst0.len(),
            w == (src_x as int, src_y as int, dst_x as int, dst_y as int, width as int, height as int),
            copy_in_bounds(src@, sc, dst0.len() as int, dc, w, offset as int),
            forall|k: int|
                0 <= k < dst0.len() ==> #[trigger] dst@[k] == copy_progress(
                    dst0,
                    src@,
                    sc,
                    dc,
                    w,
                    offset as int,
                    k,
                    0,
                    y as int,
                ),
        decreases height - y,
    {
        let mut x: i16 = 0;
        while x < width
            invariant
                0 <= y < height,
                0 <= x <= width,
                src_x >= 0,
                src_y >= 0,
                dst_x >= 0,
                dst_y >= 0,
                fits_i16(src_x + width),
                fits_i16(src_y + height),
                fits_i16(dst_y + height),
                fits_i16(dst_x + width),
                dst_len == dst0.len(),
                dst_x + width <= dst_columns,
                dc == dst_columns,
                sc == src_columns,
                src_len == src@.len(),
                dst@.len() == dst0.len(),
                w == (src_x as int, src_y as int, dst_x as int, dst_y as int, width as int, height as int),
                copy_in_bounds(src@, sc, dst0.len() as int, dc, w, offset as int),
                forall|k: int|
                    0 <= k < dst0.len() ==> #[trigger] dst@[k] == copy_progress(
                        dst0,
                        src@,
                        sc,
                        dc,
                        w,
                        offset as int,
                        k,
                        x as int,
                        y as int,
                    ),
            decreases width - x,
        {
            proof {
                lemma_window_step(src_len as int, sc, dst0.len() as int, dc, w, x as int, y as int);
                assert(src@[window_source(sc, w, x as int, y as int)].id.0 + offset < 256);
            }
            let src_index = (src_y + y) as usize * src_columns + (src_x + x) as usize;
            let dst_index = (dst_y + y) as usize * dst_columns + (dst_x + x) as usize;
            let mut cell = src[src_index];
            cell.id = TileID(cell.id.0 + offset);
            let ghost before = dst@;
            assert(src_index == window_source(sc, w, x as int, y as int));
            assert(dst_index == window_target(dc, w, x as int, y as int));
            dst[dst_index] = cell;
            proof {
                assert forall|k: int| 0 <= k < dst0.len() implies #[trigger] dst@[k] == copy_progress(
                    dst0,
                    src@,
                    sc,
                    dc,
                    w,
                    offset as int,
                    k,
                    x + 1,
                    y as int,
                ) by {
                    lemma_fundamental_div_mod(k, dc);
                    lemma_mod_bound(k, dc);
                    if k == dst_index {
                        lemma_fundamental_div_mod_converse(k, dc, dst_y + y, dst_x + x);
                        assert(dst@[k] == cell);
                    } else {
                        assert(dst@[k] == before[k]);
                        if k / dc == dst_y + y && k % dc == dst_x + x {
                            assert(k == dst_index) by (nonlinear_arith)
                                requires
                                    k == dc * (k / dc) + k % dc,
                                    k / dc == dst_y + y,
                                    k % dc == dst_x + x,
                                    dst_index == (dst_y + y) * dc + dst_x + x,
                            ;
                        }
                    }
                }
            }
            x += 1;
        }
        proof {
            assert forall|k: int| 0 <= k < dst0.len() implies #[trigger] dst@[k] == copy_progress(
                dst0,
                src@,
                sc,
                dc,
                w,
                offset as int,
                k,
                0,
                y + 1,
            ) by {
                assert(dst@[k] == copy_progress(
                    dst0,
                    src@,
                    sc,
                    dc,
                    w,
                    offset as int,
                    k,
                    width as int,
                    y as int,
                ));
            }
        }
        y += 1;
    }
    proof {
        assert forall|k: int| 0 <= k < dst0.len() implies #[trigger] dst@[k] == copied_cell(
            dst0,
            src@,
            sc,
            dc,
            w,
            offset as int,
            k,
        ) by {
            assert(dst@[k] == copy_progress(dst0, src@, sc, dc, w, offset as int, k, 0, height as int));
        }
    }
}

/// Read-only tilemap operations, for tilemaps of any size.
pub trait DynTilemap {
    /// The cells of the tilemap.
    spec fn cells_view(&self) -> Seq<Cell>;

    /// The number of cell columns.
    spec fn columns_view(&self) -> u16;

    /// The number of cell rows.
    spec fn rows_view(&self) -> u16;

    /// Slice of all cells in the tilemap.
    fn cells(&self) -> (r: &[Cell])
        ensures
            r@ == self.cells_view(),
    ;

    /// Number of cell columns.
    fn columns(&self) -> (r: u16)
        ensures
            r == self.columns_view(),
    ;

    /// Number of cell rows.
    fn rows(&self) -> (r: u16)
        ensures
            r == self.rows_view(),
    ;

    /// Width in pixels.
    fn width(&self) -> (r: i16)
        requires
            self.columns_view() * 8 <= i16::MAX,
        ensures
            r == self.columns_view() * 8,
    ;

    /// Height in pixels.
    fn height(&self) -> (r: i16)
        requires
            self.rows_view() * 8 <= i16::MAX,
        ensures
            r == self.rows_view() * 8,
    ;

    /// Total cell capacity of the tilemap.
    fn len(&self) -> (r: usize)
        ensures
            r == self.cells_view().len(),
    ;

    /// Converts column and row coordinates to a linear index.
    fn get_index(&self, col: i16, row: i16) -> (r: Option<usize>)
        ensures
            r matches Some(i) ==> grid_index(
                self.columns_view() as int,
                self.rows_view() as int,
                col as int,
                row as int,
            ) == Some(i as int),
            r is None ==> grid_index(
                self.columns_view() as int,
                self.rows_view() as int,
                col as int,
                row as int,
            ) is None,
    ;

    /// Converts a linear index to column and row coordinates.
    fn get_coords(&self, index: usize) -> (r: Option<(u16, u16)>)
        ensures
            r matches Some(c) ==> grid_coords(
                self.columns_view() as int,
                self.rows_view() as int,
                index as int,
            ) == Some((c.0 as int, c.1 as int)),
            r is None ==> grid_coords(
                self.columns_view() as int,
                self.rows_view() as int,
                index as int,
            ) is None,
    ;

    /// Returns the cell at the given coordinates.
    fn get_cell(&self, col: i16, row: i16) -> (r: Option<Cell>)
        requires
            self.columns_view() * self.rows_view() <= self.cells_view().len(),
        ensures
            r == (match grid_index(
                self.columns_view() as int,
                self.rows_view() as int,
                col as int,
                row as int,
            ) {
                Some(i) => Some(self.cells_view()[i]),
                None => None,
            }),
    ;

    /// Returns the tile ID at the given coordinates.
    fn get_id(&self, col: i16, row: i16) -> (r: Option<TileID>)
        requires
            self.columns_view() * self.rows_view() <= self.cells_view().len(),
        ensures
            r == (match grid_index(
                self.columns_view() as int,
                self.rows_view() as int,
                col as int,
                row as int,
            ) {
                Some(i) => Some(self.cells_view()[i].id),
                None => None,
            }),
    ;

    /// Returns the tile flags at the given coordinates.
    fn get_flags(&self, col: i16, row: i16) -> (r: Option<TileFlags>)
        requires
            self.columns_view() * self.rows_view() <= self.cells_view().len(),
        ensures
            r == (match grid_index(
                self.columns_view() as int,
                self.rows_view() as int,
                col as int,
                row as int,
            ) {
                Some(i) => Some(self.cells_view()[i].flags),
                None => None,
            }),
    ;
}

/// The index of column `col`, row `row` of a grid, computed as a tilemap does.
pub fn grid_index_of(columns: u16, rows: u16, col: i16, row: i16) -> (r: Option<usize>)
    ensures
        r matches Some(i) ==> grid_index(columns as int, rows as int, col as int, row as int)
            == Some(i as int),
        r is None ==> grid_index(columns as int, rows as int, col as int, row as int) is None,
{
    if col < 0 || row < 0 {
        return None;
    }
    if col as usize >= columns as usize || row as usize >= rows as usize {
        return None;
    }
    proof {
        assert(row * columns <= 32767 * 65535) by (nonlinear_arith)
            requires
                0 <= row <= 32767,
                0 <= columns <= 65535,
        ;
    }
    Some((row as usize * columns as usize) + col as usize)
}

/// The column and row of index `index` of a grid, computed as a tilemap does.
pub fn grid_coords_of(columns: u16, rows: u16, index: usize) -> (r: Option<(u16, u16)>)
    ensures
        r matches Some(c) ==> grid_coords(columns as int, rows as int, index as int) == Some(
            (c.0 as int, c.1 as int),
        ),
        r is None ==> grid_coords(columns as int, rows as int, index as int) is None,
{
    proof {
        assert(columns * rows <= 65535 * 65535) by (nonlinear_arith)
            requires
                0 <= columns <= 65535,
                0 <= rows <= 65535,
        ;
    }
    if index >= (columns as usize * rows as usize) {
        return None;
    }
    proof {
        lemma_index_coords_roundtrip(columns as int, rows as int, 0, -1, index as int);
        lemma_mod_bound(index as int, columns as int);
    }
    let col = (index % columns as usize) as u16;
    let row = (index / columns as usize) as u16;
    Some((col, row))
}

/// A fixed-capacity grid of cells with a maximum size of CELL_COUNT.
#[derive(Debug, Clone)]
pub struct Tilemap<const CELL_COUNT: usize> {
    /// The cell storage array.
    pub cells: [Cell; CELL_COUNT],
    /// The number of active columns.
    pub columns: u16,
    /// The number of active rows.
    pub rows: u16,
}

/// An operation to set a cell at specific coordinates.
#[derive(Debug, Clone, Copy)]
pub struct BgOp {
    /// The target column.
    pub col: i16,
    /// The target row.
    pub row: i16,
    /// The cell data to set.
    pub cell: Cell,
}

impl<const CELL_COUNT: usize> Tilemap<CELL_COUNT> {
    /// The active cells fit in the storage.
    pub open spec fn wf(self) -> bool {
        self.columns * self.rows <= CELL_COUNT
    }

    /// The cells after writing `cell` at column `col`, row `row` (nothing changes
    /// outside the grid).
    pub open spec fn cells_after_set(self, col: int, row: int, cell: Cell) -> Seq<Cell> {
        match grid_index(self.columns as int, self.rows as int, col, row) {
            Some(i) => self.cells@.update(i, cell),
            None => self.cells@,
        }
    }

    /// Creates a new tilemap with the specified dimensions, every cell the default one.
    pub fn new(columns: u16, rows: u16) -> (r: Self)
        requires
            CELL_COUNT < u16::MAX,
            columns * rows <= CELL_COUNT,
            columns > 0 && rows > 0,
        ensures
            r.columns == columns,
            r.rows == rows,
            r.wf(),
            forall|k: int| 0 <= k < CELL_COUNT ==> #[trigger] r.cells@[k] == (Cell { id: TileID(0), flags: TileFlags(0), colors: Palette(0) }),
    {
        let blank = Cell::new(0, 0, 0);
        let r = Self { cells: [blank; CELL_COUNT], columns, rows };
        assert(forall|k: int| 0 <= k < CELL_COUNT ==> r.cells@[k] == blank);
        r
    }

    /// Changes the active dimensions of the tilemap; the cells stay.
    pub fn set_size(&mut self, columns: u16, rows: u16)
        requires
            columns * rows <= CELL_COUNT,
            columns > 0 && rows > 0,
        ensures
            final(self).columns == columns,
            final(self).rows == rows,
            final(self).cells@ == old(self).cells@,
    {
        self.columns = columns;
        self.rows = rows;
    }

    /// Writes `cell` at `index` of the storage.
    fn put(&mut self, index: usize, cell: Cell)
        requires
            index < CELL_COUNT,
        ensures
            final(self).cells@ == old(self).cells@.update(index as int, cell),
            final(self).columns == old(self).columns,
            final(self).rows == old(self).rows,
    {
        self.cells[index] = cell;
    }

    /// Sets the cell at the given coordinates. Does nothing if out of bounds.
    pub fn set_cell(&mut self, col: i16, row: i16, cell: Cell)
        requires
            old(self).wf(),
        ensures
            final(self).cells@ == old(self).cells_after_set(col as int, row as int, cell),
            final(self).columns == old(self).columns,
            final(self).rows == old(self).rows,
    {
        if let Some(index) = self.get_index(col, row) {
            proof {
                lemma_index_coords_roundtrip(self.columns as int, self.rows as int, col as int, row as int, 0);
            }
            self.put(index, cell);
        }
    }

    /// Applies a BgOp operation. Does nothing if out of bounds.
    pub fn set_op(&mut self, op: BgOp)
        requires
            old(self).wf(),
        ensures
            final(self).cells@ == old(self).cells_after_set(op.col as int, op.row as int, op.cell),
            final(self).columns == old(self).columns,
            final(self).rows == old(self).rows,
    {
        self.set_cell(op.col, op.row, op.cell);
    }

    /// The cell at the given coordinates, for writing, or `None` outside the grid.
    pub fn cell_mut(&mut self, col: i16, row: i16) -> (r: Option<&mut Cell>)
        requires
            old(self).wf(),
        ensures
            final(self).columns == old(self).columns,
            final(self).rows == old(self).rows,
            match grid_index(old(self).columns as int, old(self).rows as int, col as int, row as int) {
                Some(i) => r matches Some(c) && *c == old(self).cells@[i] && final(self).cells@
                    == old(self).cells@.update(i, *final(c)),
                None => r is None && final(self).cells@ == old(self).cells@,
            },
    {
        if let Some(index) = self.get_index(col, row) {
            proof {
                lemma_index_coords_roundtrip(self.columns as int, self.rows as int, col as int, row as int, 0);
            }
            Some(&mut self.cells[index])
        } else {
            None
        }
    }

    /// Sets the tile ID at the given coordinates. Does nothing if out of bounds.
    pub fn set_id(&mut self, col: i16, row: i16, tile_id: TileID)
        requires
            old(self).wf(),
        ensures
            final(self).columns == old(self).columns,
            final(self).rows == old(self).rows,
            final(self).cells@ == (match grid_index(
                old(self).columns as int,
                old(self).rows as int,
                col as int,
                row as int,
            ) {
                Some(i) => old(self).cells@.update(i, Cell { id: tile_id, ..old(self).cells@[i] }),
                None => old(self).cells@,
            }),
    {
        if let Some(index) = self.get_index(col, row) {
            proof {
                lemma_index_coords_roundtrip(self.columns as int, self.rows as int, col as int, row as int, 0);
            }
            let mut cell = self.cells[index];
            cell.id = tile_id;
            self.put(index, cell);
        }
    }

    /// Sets the tile flags at the given coordinates. Does nothing if out of bounds.
    pub fn set_flags(&mut self, col: i16, row: i16, flags: TileFlags)
        requires
            old(self).wf(),
        ensures
            final(self).columns == old(self).columns,
            final(self).rows == old(self).rows,
            final(self).cells@ == (match grid_index(
                old(self).columns as int,
                old(self).rows as int,
                col as int,
                row as int,
            ) {
                Some(i) => old(self).cells@.update(i, Cell { flags, ..old(self).cells@[i] }),
                None => old(self).cells@,
            }),
    {
        if let Some(index) = self.get_index(col, row) {
            proof {
                lemma_index_coords_roundtrip(self.columns as int, self.rows as int, col as int, row as int, 0);
            }
            let mut cell = self.cells[index];
            cell.flags = flags;
            self.put(index, cell);
        }
    }

    /// Sets the palette colors at the given coordinates. Does nothing if out of bounds.
    pub fn set_colors(&mut self, col: i16, row: i16, colors: Palette)
        requires
            old(self).wf(),
        ensures
            final(self).columns == old(self).columns,
            final(self).rows == old(self).rows,
            final(self).cells@ == (match grid_index(
                old(self).columns as int,
                old(self).rows as int,
                col as int,
                row as int,
            ) {
                Some(i) => old(self).cells@.update(i, Cell { colors, ..old(self).cells@[i] }),
                None => old(self).cells@,
            }),
    {
        if let Some(index) = self.get_index(col, row) {
            proof {
                lemma_index_coords_roundtrip(self.columns as int, self.rows as int, col as int, row as int, 0);
            }
            let mut cell = self.cells[index];
            cell.colors = colors;
            self.put(index, cell);
        }
    }

    /// Copies a rectangular region from a cells array (a grid `columns` wide and `rows`
    /// high) to this tilemap, adding `tile_offset` to the tile ids.
    ///
    /// If `src_rect` is None, copies the entire source. If `dst_rect` is None, pastes at
    /// (0,0). Negative destination coordinates are clipped automatically.
    pub fn copy_from_cells(
        &mut self,
        cells: &[Cell],
        columns: i16,
        rows: i16,
        src_rect: Option<Rect<i16>>,
        dst_rect: Option<Rect<i16>>,
        tile_offset: u8,
    )
        requires
            copy_window_fits(
                columns as int,
                rows as int,
                src_rect,
                dst_rect,
                u16_as_i16(old(self).columns),
                u16_as_i16(old(self).rows),
            ),
            copy_in_bounds(
                cells@,
                columns as int,
                CELL_COUNT as int,
                old(self).columns as int,
                copy_window(
                    columns as int,
                    rows as int,
                    src_rect,
                    dst_rect,
                    u16_as_i16(old(self).columns),
                    u16_as_i16(old(self).rows),
                ),
                tile_offset as int,
            ),
        ensures
            final(self).columns == old(self).columns,
            final(self).rows == old(self).rows,
            forall|k: int|
                0 <= k < CELL_COUNT ==> #[trigger] final(self).cells@[k] == copied_cell(
                    old(self).cells@,
                    cells@,
                    columns as int,
                    old(self).columns as int,
                    copy_window(
                        columns as int,
                        rows as int,
                        src_rect,
                        dst_rect,
                        u16_as_i16(old(self).columns),
                        u16_as_i16(old(self).rows),
                    ),
                    tile_offset as int,
                    k,
                ),
    {
        proof {
            lemma_u16_as_i16(self.columns);
            lemma_u16_as_i16(self.rows);
        }
        let ghost w = copy_window(
            columns as int,
            rows as int,
            src_rect,
            dst_rect,
            u16_as_i16(self.columns),
            u16_as_i16(self.rows),
        );
        let ghost dst0 = self.cells@;
        // Determine source rectangle
        let src_x: i16 = match src_rect {
            Some(r) => r.x,
            None => 0,
        };
        let src_y: i16 = match src_rect {
            Some(r) => r.y,
            None => 0,
        };
        let src_w: i16 = match src_rect {
            Some(r) => r.w,
            None => columns,
        };
        let src_h: i16 = match src_rect {
            Some(r) => r.h,
            None => rows,
        };
        // Make sure source rectangle is within bounds
        let src_w = min_i16(src_w, columns - src_x);
        let src_h = min_i16(src_h, rows - src_y);
        // Determine destination rectangle
        let dst_x: i16 = match dst_rect {
            Some(r) => r.x,
            None => 0,
        };
        let dst_y: i16 = match dst_rect {
            Some(r) => r.y,
            None => 0,
        };
        let dst_w: i16 = match dst_rect {
            Some(r) => r.w,
            None => self.columns as i16,
        };
        let dst_h: i16 = match dst_rect {
            Some(r) => r.h,
            None => self.rows as i16,
        };
        // Calculate clipping for negative coordinates
        let clip_x: i16 = if dst_x < 0 {
            -dst_x
        } else {
            0
        };
        let clip_y: i16 = if dst_y < 0 {
            -dst_y
        } else {
            0
        };
        // Adjust source and destination starting points
        let effective_dst_x = max_i16(0, dst_x);
        let effective_dst_y = max_i16(0, dst_y);
        // Calculate effective width and height after clipping
        let effective_width = max_i16(
            0,
            min_i16(min_i16(src_w - clip_x, dst_w - clip_x), self.columns as i16 - effective_dst_x),
        );
        let effective_height = max_i16(
            0,
            min_i16(min_i16(src_h - clip_y, dst_h - clip_y), self.rows as i16 - effective_dst_y),
        );
        // If there's nothing to copy (zero width or height), return early
        if effective_width <= 0 || effective_height <= 0 {
            return;
        }
        // Calculate effective src positions (accounting for clipping)
        let effective_src_x = src_x + clip_x;
        let effective_src_y = src_y + clip_y;
        assert(w == (
            effective_src_x as int,
            effective_src_y as int,
            effective_dst_x as int,
            effective_dst_y as int,
            effective_width as int,
            effective_height as int,
        ));
        let ghost dc = self.columns as int;
        assert(dc > 0 && effective_dst_x + effective_width <= dc);
        copy_region(
            &mut self.cells,
            self.columns as usize,
            cells,
            columns as usize,
            effective_src_x,
            effective_src_y,
            effective_dst_x,
            effective_dst_y,
            effective_width,
            effective_height,
            tile_offset,
        );
    }

    /// Copies a rectangular region from a source tilemap to this tilemap, adding
    /// `tile_offset` to the tile ids.
    ///
    /// If `src_rect` is None, copies the entire source. If `dst_rect` is None, pastes at
    /// (0,0). Negative destination coordinates are clipped automatically.
    pub fn copy_from<M: DynTilemap>(
        &mut self,
        src: &M,
        src_rect: Option<Rect<i16>>,
        dst_rect: Option<Rect<i16>>,
        tile_offset: u8,
    )
        requires
            copy_window_fits(
                u16_as_i16(src.columns_view()),
                u16_as_i16(src.rows_view()),
                src_rect,
                dst_rect,
                u16_as_i16(old(self).columns),
                u16_as_i16(old(self).rows),
            ),
            copy_in_bounds(
                src.cells_view(),
                u16_as_i16(src.columns_view()),
                CELL_COUNT as int,
                old(self).columns as int,
                copy_window(
                    u16_as_i16(src.columns_view()),
                    u16_as_i16(src.rows_view()),
                    src_rect,
                    dst_rect,
                    u16_as_i16(old(self).columns),
                    u16_as_i16(old(self).rows),
                ),
                tile_offset as int,
            ),
        ensures
            final(self).columns == old(self).columns,
            final(self).rows == old(self).rows,
            forall|k: int|
                0 <= k < CELL_COUNT ==> #[trigger] final(self).cells@[k] == copied_cell(
                    old(self).cells@,
                    src.cells_view(),
                    u16_as_i16(src.columns_view()),
                    old(self).columns as int,
                    copy_window(
                        u16_as_i16(src.columns_view()),
                        u16_as_i16(src.rows_view()),
                        src_rect,
                        dst_rect,
                        u16_as_i16(old(self).columns),
                        u16_as_i16(old(self).rows),
                    ),
                    tile_offset as int,
                    k,
                ),
    {
        let columns = src.columns();
        let rows = src.rows();
        proof {
            lemma_u16_as_i16(columns);
            lemma_u16_as_i16(rows);
        }
        self.copy_from_cells(src.cells(), columns as i16, rows as i16, src_rect, dst_rect, tile_offset);
    }
}

impl<const CELL_COUNT: usize> DynTilemap for Tilemap<CELL_COUNT> {
    open spec fn cells_view(&self) -> Seq<Cell> {
        self.cells@
    }

    open spec fn columns_view(&self) -> u16 {
        self.columns
    }

    open spec fn rows_view(&self) -> u16 {
        self.rows
    }

    fn cells(&self) -> (r: &[Cell]) {
        self.cells.as_slice()
    }

    fn columns(&self) -> (r: u16) {
        self.columns
    }

    fn rows(&self) -> (r: u16) {
        self.rows
    }

    fn width(&self) -> (r: i16) {
        self.columns as i16 * 8
    }

    fn height(&self) -> (r: i16) {
        self.rows as i16 * 8
    }

    fn len(&self) -> (r: usize) {
        CELL_COUNT
    }

    fn get_index(&self, col: i16, row: i16) -> (r: Option<usize>) {
        grid_index_of(self.columns, self.rows, col, row)
    }

    fn get_coords(&self, index: usize) -> (r: Option<(u16, u16)>) {
        grid_coords_of(self.columns, self.rows, index)
    }

    fn get_cell(&self, col: i16, row: i16) -> (r: Option<Cell>) {
        let index = self.get_index(col, row)?;
        proof {
            lemma_index_coords_roundtrip(self.columns as int, self.rows as int, col as int, row as int, 0);
        }
        Some(self.cells[index])
    }

    fn get_id(&self, col: i16, row: i16) -> (r: Option<TileID>) {
        let index = self.get_index(col, row)?;
        proof {
            lemma_index_coords_roundtrip(self.columns as int, self.rows as int, col as int, row as int, 0);
        }
        Some(self.cells[index].id)
    }

    fn get_flags(&self, col: i16, row: i16) -> (r: Option<TileFlags>) {
        let index = self.get_index(col, row)?;
        proof {
            lemma_index_coords_roundtrip(self.columns as int, self.rows as int, col as int, row as int, 0);
        }
        Some(self.cells[index].flags)
    }
}

} // verus!
