use tato::collision::{line_to_tile_x, line_to_tile_y};
use tato::video::cell::Cell;
use tato::video::tilemap_ref::TilemapRef;

fn map_cells() -> [Cell; 12] {
    // 4 columns, 3 rows. Cells with flag byte 8 collide with group 8.
    let mut cells = [Cell::new(0, 0, 0); 12];
    cells[1] = Cell::new(0, 8, 0); // (1, 0)
    cells[9] = Cell::new(0, 8, 0); // (1, 2)
    cells[6] = Cell::new(0, 4, 0); // (2, 1)
    cells
}

#[test]
fn line_down_and_up_finds_first_hit() {
    let cells = map_cells();
    let map = TilemapRef { cells: &cells, columns: 4, rows: 3 };
    let down = line_to_tile_y(map, 1, 0, 2, 8).unwrap();
    assert_eq!((down.col, down.row), (1, 0));
    let up = line_to_tile_y(map, 1, 2, 0, 8).unwrap();
    assert_eq!((up.col, up.row), (1, 2));
    assert!(line_to_tile_y(map, 0, 0, 2, 8).is_none());
    assert!(line_to_tile_y(map, 4, 0, 2, 8).is_none());
    assert!(line_to_tile_y(map, 1, -5, -1, 8).is_none());
}

#[test]
fn line_across_finds_first_hit() {
    let cells = map_cells();
    let map = TilemapRef { cells: &cells, columns: 4, rows: 3 };
    let right = line_to_tile_x(map, 0, 3, 1, 4).unwrap();
    assert_eq!((right.col, right.row), (2, 1));
    assert!(line_to_tile_x(map, 0, 3, 1, 8).is_none());
    let left = line_to_tile_x(map, 3, -2, 0, 8).unwrap();
    assert_eq!((left.col, left.row), (1, 0));
    assert!(line_to_tile_x(map, 0, 3, 3, 8).is_none());
}
