use vstd::prelude::*;
use vstd::slice::slice_subrange;
use crate::video::cell::Cell;
use crate::video::tile::TileID;
use crate::video::tile_flags::TileFlags;
use crate::video::tilemap::{DynTilemap, Tilemap, grid_index, grid_index_of, grid_coords_of, lemma_index_coords_roundtrip};

verus! {

/// A read-only view of a tilemap that erases the CELL_COUNT const generic.
#[derive(Debug, Clone, Copy)]
pub struct TilemapRef<'a> {
    /// Reference to the cell data.
    pub cells: &'a [Cell],
    /// The number of columns.
    pub columns: u16,
    /// The number of rows.
    pub rows: u16,
}

impl<'a> TilemapRef<'a> {
    /// A view of all the storage of a static tilemap, with its dimensions.
    pub fn from_const_tilemap<const CELL_COUNT: usize>(tilemap: &'static Tilemap<CELL_COUNT>) -> (r:
        Self)
        ensures
            r.cells@ == tilemap.cells@,
            r.columns == tilemap.columns,
            r.rows == tilemap.rows,
    {
        Self { cells: tilemap.cells.as_slice(), columns: tilemap.columns, rows: tilemap.rows }
    }
}

impl<const CELL_COUNT: usize> Tilemap<CELL_COUNT> {
    /// A read-only view of the active cells (the first `columns * rows`), which can be
    /// passed around without knowledge of the CELL_COUNT const generic.
    pub fn as_ref(&self) -> (r: TilemapRef<'_>)
        requires
            self.wf(),
        ensures
            r.cells@ == self.cells@.take(self.columns * self.rows),
            r.columns == self.columns,
            r.rows == self.rows,
    {
        proof {
            assert(self.columns * self.rows <= 65535 * 65535) by (nonlinear_arith)
                requires
                    self.columns <= 65535,
                    self.rows <= 65535,
            ;
        }
        let n = (self.columns as usize) * (self.rows as usize);
        let cells = slice_subrange(self.cells.as_slice(), 0, n);
        assert(cells@ =~= self.cells@.take(self.columns * self.rows));
        TilemapRef { cells, columns: self.columns, rows: self.rows }
    }
}

impl<'a> DynTilemap for TilemapRef<'a> {
    open spec fn cells_view(&self) -> Seq<Cell> {
        self.cells@
    }

    open spec fn columns_view(&self) -> u16 {
        self.columns
    }

    open spec fn rows_view(&self) -> u16 {
        self.rows
    }

    fn cells(&self) -> (r: &[Cell]) {
        self.cells
    }

    fn columns(&self) -> (r: u16) {
        self.columns
    }

    fn rows(&self) -> (r: u16) {
        self.rows
    }

    fn width(&self) -> (r: i16) {
        self.columns as i16 * 8
    }

    fn height(&self) -> (r: i16) {
        self.rows as i16 * 8
    }

    fn len(&self) -> (r: usize) {
        self.cells.len()
    }

    fn get_index(&self, col: i16, row: i16) -> (r: Option<usize>) {
        grid_index_of(self.columns, self.rows, col, row)
    }

    fn get_coords(&self, index: usize) -> (r: Option<(u16, u16)>) {
        grid_coords_of(self.columns, self.rows, index)
    }

    fn get_cell(&self, col: i16, row: i16) -> (r: Option<Cell>) {
        let index = self.get_index(col, row)?;
        proof {
            lemma_index_coords_roundtrip(self.columns as int, self.rows as int, col as int, row as int, 0);
        }
        Some(self.cells[index])
    }

    fn get_id(&self, col: i16, row: i16) -> (r: Option<TileID>) {
        let index = self.get_index(col, row)?;
        proof {
            lemma_index_coords_roundtrip(self.columns as int, self.rows as int, col as int, row as int, 0);
        }
        Some(self.cells[index].id)
    }

    fn get_flags(&self, col: i16, row: i16) -> (r: Option<TileFlags>) {
        let index = self.get_index(col, row)?;
        proof {
            lemma_index_coords_roundtrip(self.columns as int, self.rows as int, col as int, row as int, 0);
        }
        Some(self.cells[index].flags)
    }
}

} // verus!
