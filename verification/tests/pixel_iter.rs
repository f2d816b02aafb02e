use tato::video::cell::Cell;
use tato::video::color::{RGBA12, RGBA32};
use tato::video::palette::{Palette, PaletteID};
use tato::video::pixel_iter::PixelIter;
use tato::video::tile::{Tile, TileID};
use tato::video::tile_flags::TileFlags;
use tato::video::tilemap_ref::TilemapRef;
use tato::video::video_bank::VideoBank;
use tato::video::video_chip::{DrawBundle, VideoChip};

/// A tile whose 64 pixels all hold `value`.
fn solid_tile(value: u8) -> Tile<2> {
    let mut tile = Tile::blank();
    for row in 0..8 {
        for col in 0..8 {
            // The value comes first, then the row, then the column.
            tile.set_pixel(value, row, col);
        }
    }
    tile
}

/// Every pixel the iterator yields, row by row.
fn collect(iter: &mut PixelIter) -> Vec<RGBA32> {
    let mut pixels = Vec::new();
    while let Some(p) = iter.next() {
        pixels.push(p);
    }
    pixels
}

#[test]
fn empty_screen_shows_background_color() {
    let chip = VideoChip::new(16, 8);
    let banks = [VideoBank::<256>::new()];
    let cells = [Cell::default(); 2];
    let maps = [TilemapRef { cells: &cells, columns: 2, rows: 1 }];
    let mut iter = chip.iter_pixels(&banks, &maps);
    assert_eq!((iter.x(), iter.y()), (0, 0));
    let pixels = collect(&mut iter);
    assert_eq!(pixels.len(), 16 * 8);
    let black = RGBA32::from(RGBA12::black());
    assert_eq!(black, RGBA32 { r: 0, g: 0, b: 0, a: 255 });
    assert!(pixels.iter().all(|p| *p == black));
    // Past the last row the iterator stays finished.
    assert_eq!(iter.next(), None);
    assert_eq!(iter.y(), 8);
}

#[test]
fn background_tiles_and_sprites_are_layered() {
    let mut chip = VideoChip::new(16, 8);
    let mut bank = VideoBank::<256>::new();
    assert_eq!(bank.add_tile(&solid_tile(1)), TileID(0));
    assert_eq!(bank.add_tile(&solid_tile(2)), TileID(1));
    let red = bank.palette[5];
    let gray = bank.palette[2];
    // Left cell: red, in front of sprites. Right cell: red too, behind sprites.
    let front = Cell::default().with_colors(Palette::new(0, 5, 0, 0)).with_fg_flag();
    let back = Cell::default().with_colors(Palette::new(0, 5, 0, 0));
    let cells = [front, back];
    // A gray sprite across both cells, rows 2 to 7.
    chip.draw_fg_tile(DrawBundle { x: 4, y: 2, id: TileID(1), flags: TileFlags(0), sub_palette: PaletteID(0) });
    let banks = [bank];
    let maps = [TilemapRef { cells: &cells, columns: 2, rows: 1 }];
    let mut iter = chip.iter_pixels(&banks, &maps);
    let pixels = collect(&mut iter);
    assert_eq!(pixels.len(), 128);
    let black = RGBA32::from(RGBA12::black());
    for y in 0..8 {
        for x in 0..16 {
            let expected = if x == 15 {
                // The default viewport ends one column before the screen's edge.
                black
            } else if y >= 2 && (8..12).contains(&x) {
                RGBA32::from(gray)
            } else {
                RGBA32::from(red)
            };
            assert_eq!(pixels[y * 16 + x], expected, "pixel ({}, {})", x, y);
        }
    }
}

#[test]
fn viewport_masks_with_background_color() {
    let mut chip = VideoChip::new(16, 8);
    chip.bg_color = RGBA12::blue();
    chip.set_viewport(4, 2, 8, 4);
    let banks = [VideoBank::<256>::new()];
    let mut cells = [Cell::default().with_colors(Palette::new(5, 0, 0, 0)); 2];
    cells[1] = cells[1].with_colors(Palette::new(3, 0, 0, 0));
    let maps = [TilemapRef { cells: &cells, columns: 2, rows: 1 }];
    let mut iter = chip.iter_pixels(&banks, &maps);
    let pixels = collect(&mut iter);
    let blue = RGBA32::from(RGBA12::blue());
    let red = RGBA32::from(banks[0].palette[5]);
    let white = RGBA32::from(banks[0].palette[3]);
    for y in 0..8 {
        for x in 0..16 {
            let inside = (4..12).contains(&x) && (2..=6).contains(&y);
            let expected = if !inside {
                blue
            } else if x < 8 {
                red
            } else {
                white
            };
            assert_eq!(pixels[y * 16 + x], expected, "pixel ({}, {})", x, y);
        }
    }
}

#[test]
fn flipped_sprite_and_scrolled_background() {
    let mut chip = VideoChip::new(16, 8);
    let mut bank = VideoBank::<256>::new();
    // Tile 0: left half pixel 1, right half pixel 2.
    let mut tile = Tile::blank();
    for row in 0..8 {
        for col in 0..8 {
            tile.set_pixel(if col < 4 { 1 } else { 2 }, row, col);
        }
    }
    assert_eq!(bank.add_tile(&tile), TileID(0));
    let black = RGBA32::from(bank.palette[1]);
    let gray = RGBA32::from(bank.palette[2]);
    // The background shows pixel 1 as black and pixel 2 as gray, scrolled by 4 pixels.
    let cells = [Cell::default().with_colors(Palette::new(0, 1, 2, 0)); 2];
    chip.scroll_x = 4;
    chip.bg_color = RGBA12::white();
    chip.set_viewport(0, 0, 16, 8);
    let banks = [bank];
    let maps = [TilemapRef { cells: &cells, columns: 2, rows: 1 }];
    let mut iter = chip.iter_pixels(&banks, &maps);
    let pixels = collect(&mut iter);
    for x in 0..16 {
        // Scrolled by 4: screen column x shows map column x + 4, repeated.
        let expected = if (x + 4) % 8 < 4 { black } else { gray };
        assert_eq!(pixels[3 * 16 + x], expected, "column {}", x);
    }

    // A horizontally flipped sprite at column 0 shows gray on its left half.
    let mut chip = VideoChip::new(16, 8);
    chip.set_viewport(0, 0, 16, 8);
    chip.draw_fg_tile(DrawBundle { x: 0, y: 0, id: TileID(0), flags: TileFlags(0).with_flip_x(), sub_palette: PaletteID(0) });
    let empty = [Cell::default(); 2];
    let maps = [TilemapRef { cells: &empty, columns: 2, rows: 1 }];
    let mut iter = chip.iter_pixels(&banks, &maps);
    let pixels = collect(&mut iter);
    let bg = RGBA32::from(RGBA12::black());
    for x in 0..16 {
        let expected = if x < 4 {
            gray
        } else if x < 8 {
            black
        } else {
            bg
        };
        assert_eq!(pixels[16 + x], expected, "column {}", x);
    }
}
