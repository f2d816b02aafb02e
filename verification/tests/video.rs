use tato::math::rect::Rect;
use tato::video::bank::Bank;
use tato::video::bank_colors::ColorBank;
use tato::video::bank_tiles::TileBank;
use tato::video::bg_map::{self, bg_copy, bg_get_cell, bg_get_index, bg_set_cell, BgOp as BgMapOp};
use tato::video::cell::Cell;
use tato::video::cluster::Cluster;
use tato::video::color::{ColorID, RGBA12, RGBA32};
use tato::video::palette::{Palette, PaletteID};
use tato::video::sprite::SpriteGenerator;
use tato::video::tile::{Tile, TileID};
use tato::video::tile_flags::TileFlags;
use tato::video::tilemap::{BgOp, DynTilemap, Tilemap};
use tato::video::tilemap_ref::TilemapRef;
use tato::video::video_bank::VideoBank;
use tato::video::video_chip::{DrawBundle, SpriteBundle, VideoChip};

#[test]
fn palette_new_get_set() {
    let mut p = Palette::new(1, 2, 3, 4);
    assert_eq!(p.0, 0x1234);
    assert_eq!(p.get(0), 1);
    assert_eq!(p.get(3), 4);
    p.set(2, 15);
    assert_eq!(p.0, 0x12F4);
    assert_eq!(Palette::default().0, 0x0123);
    assert_eq!(p.to_array(), [1, 2, 15, 4]);
    assert_eq!(Palette::from_array([4, 3, 2, 1]).0, 0x4321);
}

#[test]
fn palette_cycle_rotates_and_back() {
    let mut p = Palette::new(1, 2, 3, 4);
    p.cycle(0, 3, 1);
    assert_eq!(p.to_array(), [4, 1, 2, 3]);
    p.cycle(0, 3, -1);
    assert_eq!(p.to_array(), [1, 2, 3, 4]);
    p.cycle(1, 2, 5);
    assert_eq!(p.to_array(), [1, 3, 2, 4]);
}

#[test]
fn cluster_set_get_and_flip() {
    let mut c: Cluster<2> = Cluster::default();
    for i in 0..8u8 {
        c.set_subpixel(i % 4, i);
    }
    assert_eq!(c.data, [0b00_01_10_11, 0b00_01_10_11]);
    for i in 0..8u8 {
        assert_eq!(c.get_subpixel(i), i % 4);
    }
    let f = c.flip();
    for i in 0..8u8 {
        assert_eq!(f.get_subpixel(i), c.get_subpixel(7 - i));
    }
    assert_eq!(f.flip().data, c.data);
    // Values are cut to the pixel's bits.
    c.set_subpixel(7, 0);
    assert_eq!(c.get_subpixel(0), 3);
}

#[test]
fn cluster_from_pixels_four_bits() {
    let c: Cluster<4> = Cluster::from_pixels(&[1, 2, 3, 4, 5, 6, 7, 0x1F]);
    assert_eq!(c.data, [0x12, 0x34, 0x56, 0x7F]);
    let one: Cluster<1> = Cluster::from_pixels(&[1, 0, 1, 0, 1, 1, 0, 0]);
    assert_eq!(one.data, [0b1010_1100]);
}

#[test]
fn tile_new_and_pixels() {
    let t = Tile::new(0x0123_4567_89AB_CDEF, 0xFEDC_BA98_7654_3210);
    assert_eq!(t.clusters[0].data, [0x01, 0x23]);
    assert_eq!(t.clusters[3].data, [0xCD, 0xEF]);
    assert_eq!(t.clusters[7].data, [0x32, 0x10]);
    // 0x01 = 00 00 00 01: pixel 3 of row 0 is 1.
    assert_eq!(t.get_pixel(3, 0), 1);
    assert_eq!(t.get_pixel(0, 0), 0);
}

#[test]
fn tile_set_pixel_writes_value_column() {
    let mut t = Tile::new(0, 0);
    // The column written is the third argument, the value the first.
    t.set_pixel(2, 1, 5);
    assert_eq!(t.get_pixel(5, 1), 2);
    assert_eq!(t.get_pixel(2, 1), 0);
}

#[test]
fn cell_builders() {
    let c = Cell::new(3, 0, 0x0123);
    assert_eq!(c.id, TileID(3));
    assert_eq!(c.offset_id(4).id, TileID(7));
    assert_eq!(c.with_fg_flag().flags, TileFlags(0b0001_0000));
    assert_eq!(c.with_flip_x_flag().flags.0, 0b1000_0000);
    assert_eq!(c.with_colors(Palette(7)).colors, Palette(7));
    assert_eq!(c.with_id(9).with_flags(2).flags, TileFlags(2));
}

#[test]
fn color_bank_append_reuses_colors() {
    let mut bank = ColorBank::new();
    let red = RGBA12::new(7, 0, 0);
    let blue = RGBA12::new(0, 0, 7);
    assert_eq!(bank.push_color(red), ColorID(0));
    let remap = bank.append(&[blue, red, blue]).unwrap();
    assert_eq!(bank.color_count(), 2);
    assert_eq!(&remap[..4], &[1, 0, 1, 0]);
    assert_eq!(bank.palette[1], blue);
}

#[test]
fn color_bank_append_fails_when_full() {
    let mut bank = ColorBank::new();
    bank.load_default();
    let odd = RGBA12::with_transparency(1, 1, 1, 1);
    assert_eq!(bank.append(&[odd]), Err("Not enough space in bank for colors"));
    assert_eq!(bank.color_count(), 16);
}

#[test]
fn color_bank_new_from_and_restore() {
    let bank = ColorBank::new_from(&[RGBA12::white(), RGBA12::gray()]);
    assert_eq!(bank.color_count(), 2);
    assert_eq!(bank.palette[0], RGBA12::white());
    assert_eq!(bank.palette[2], RGBA12::black());
    let mut bank = bank;
    bank.restore_state(1, 0);
    assert_eq!(bank.color_count(), 1);
    bank.set_color(ColorID(5), RGBA12::pink());
    assert_eq!(bank.palette[5], RGBA12::pink());
}

#[test]
fn tile_bank_add_and_reset() {
    let mut tiles = TileBank::new();
    let t = Tile::new(1, 2);
    assert_eq!(tiles.add(&t), TileID(0));
    assert_eq!(tiles.add(&t), TileID(1));
    assert_eq!(tiles.count(), 2);
    assert_eq!(tiles.capacity(), 256);
    tiles.reset();
    assert_eq!(tiles.count(), 0);
    tiles.restore_state(1);
    assert_eq!(tiles.count(), 1);
    let from = TileBank::new_from(&[t, t, t]);
    assert_eq!(from.count(), 3);
    assert_eq!(from.tiles[2], t);
}

#[test]
fn bank_append_combines_banks() {
    let mut a = Bank::new();
    a.append_tile(&Tile::new(1, 1)).unwrap();
    a.colors.push_color(RGBA12::red());
    let mut b = Bank::new();
    b.append_tiles(&[Tile::new(2, 2), Tile::new(3, 3)]).unwrap();
    b.colors.push_color(RGBA12::blue());
    b.colors.push_color(RGBA12::red());
    assert_eq!(a.append(&b), Ok(1));
    assert_eq!(a.tiles.count(), 3);
    assert_eq!(a.tiles.tiles[2], Tile::new(3, 3));
    assert_eq!(a.colors.color_count(), 2);
    assert_eq!(a.colors.palette[1], RGBA12::blue());
}

#[test]
fn bank_append_tiles_without_room_changes_nothing() {
    let mut a = Bank::new();
    a.tiles.restore_state(250);
    let tiles = [Tile::new(0, 0); 7];
    assert_eq!(a.append_tiles(&tiles), Err("Not enough space in bank for tiles"));
    assert_eq!(a.tiles.count(), 250);
    a.reset();
    assert_eq!(a.tiles.count(), 0);
}

#[test]
fn tilemap_index_coords_roundtrip() {
    let map: Tilemap<64> = Tilemap::new(8, 4);
    assert_eq!(map.get_index(3, 2), Some(19));
    assert_eq!(map.get_coords(19), Some((3, 2)));
    assert_eq!(map.get_index(8, 0), None);
    assert_eq!(map.get_index(-1, 0), None);
    assert_eq!(map.get_coords(32), None);
    assert_eq!(map.width(), 64);
    assert_eq!(map.height(), 32);
    assert_eq!(map.len(), 64);
}

#[test]
fn tilemap_set_and_get() {
    let mut map: Tilemap<16> = Tilemap::new(4, 4);
    map.set_cell(1, 1, Cell::new(5, 0, 0));
    assert_eq!(map.get_id(1, 1), Some(TileID(5)));
    map.set_id(2, 3, TileID(9));
    map.set_flags(2, 3, TileFlags(8));
    map.set_colors(2, 3, Palette(1));
    assert_eq!(map.get_cell(2, 3), Some(Cell::new(9, 8, 1)));
    map.set_op(BgOp { col: 0, row: 0, cell: Cell::new(1, 2, 3) });
    assert_eq!(map.get_flags(0, 0), Some(TileFlags(2)));
    // Out of bounds writes do nothing.
    map.set_cell(9, 9, Cell::new(7, 7, 7));
    assert_eq!(map.get_cell(9, 9), None);
    map.set_size(2, 8);
    assert_eq!(map.columns(), 2);
    assert_eq!(map.get_id(1, 2), Some(TileID(5)));
}

#[test]
fn tilemap_copy_from_cells_with_offset_and_clipping() {
    let mut src: Tilemap<9> = Tilemap::new(3, 3);
    for row in 0..3 {
        for col in 0..3 {
            src.set_id(col, row, TileID((row * 3 + col) as u8));
        }
    }
    let mut dst: Tilemap<16> = Tilemap::new(4, 4);
    dst.copy_from(&src, None, Some(Rect::new(-1, 2, 4, 4)), 10);
    // Column -1 is clipped: source column 1 lands at destination column 0.
    assert_eq!(dst.get_id(0, 2), Some(TileID(11)));
    assert_eq!(dst.get_id(1, 2), Some(TileID(12)));
    assert_eq!(dst.get_id(0, 3), Some(TileID(14)));
    assert_eq!(dst.get_id(2, 2), Some(TileID(0)));
    assert_eq!(dst.get_id(0, 1), Some(TileID(0)));
    let view = src.as_ref();
    assert_eq!(view.len(), 9);
    assert_eq!(view.get_id(2, 2), Some(TileID(8)));
}

#[test]
fn tilemap_ref_reads() {
    let cells = [Cell::new(1, 0, 0), Cell::new(2, 0, 0), Cell::new(3, 0, 0), Cell::new(4, 0, 0)];
    let view = TilemapRef { cells: &cells, columns: 2, rows: 2 };
    assert_eq!(view.get_index(1, 1), Some(3));
    assert_eq!(view.get_cell(0, 1), Some(Cell::new(3, 0, 0)));
    assert_eq!(view.get_coords(2), Some((0, 1)));
    assert_eq!(view.get_index(0, -1), None);
}

#[test]
fn bg_map_functions() {
    let mut map: bg_map::Tilemap<16> = bg_map::Tilemap::new(4, 4);
    assert_eq!(bg_get_index(&map, 3, 1), Some(7));
    bg_set_cell(&mut map, BgMapOp { col: 3, row: 1, tile_id: TileID(4), flags: TileFlags(2) });
    assert_eq!(bg_get_cell(&map, 3, 1), Some(Cell::new(4, 2, 0)));
    bg_map::bg_set_id(&mut map, 0, 0, TileID(1));
    bg_map::bg_set_flags(&mut map, 0, 0, TileFlags(8));
    assert_eq!(bg_map::bg_get_id(&map, 0, 0), Some(TileID(1)));
    assert_eq!(bg_map::bg_get_flags(&map, 0, 0), Some(TileFlags(8)));
    assert_eq!(bg_get_index(&map, 4, 0), None);
}

#[test]
fn bg_copy_copies_window() {
    let mut src: bg_map::Tilemap<4> = bg_map::Tilemap::new(2, 2);
    bg_map::bg_set_id(&mut src, 0, 0, TileID(1));
    bg_map::bg_set_id(&mut src, 1, 0, TileID(2));
    bg_map::bg_set_id(&mut src, 0, 1, TileID(3));
    bg_map::bg_set_id(&mut src, 1, 1, TileID(4));
    let mut dst: bg_map::Tilemap<9> = bg_map::Tilemap::new(3, 3);
    bg_copy(&src, None, &mut dst, Some(Rect::new(1, 1, 0, 0)));
    assert_eq!(bg_map::bg_get_id(&dst, 1, 1), Some(TileID(1)));
    assert_eq!(bg_map::bg_get_id(&dst, 2, 2), Some(TileID(4)));
    assert_eq!(bg_map::bg_get_id(&dst, 0, 0), Some(TileID(0)));
}

#[test]
fn video_bank_palette_cycle() {
    let mut bank: VideoBank<4> = VideoBank::new();
    bank.palette_cycle(2, 1, 3, 1);
    // Entries 1..=3 take the next value; past the end wraps to the start.
    let row = bank.color_mapping[2];
    assert_eq!(&row[..5], &[0, 2, 3, 1, 4]);
    assert_eq!(bank.color_mapping[0][1], 1);
    bank.palette_cycle(2, 1, 3, -1);
    assert_eq!(&bank.color_mapping[2][..5], &[0, 1, 2, 3, 4]);
}

#[test]
fn video_bank_tiles_and_colors() {
    let mut bank: VideoBank<2> = VideoBank::new();
    assert_eq!(bank.tile_capacity(), 2);
    let t = Tile::new(5, 6);
    assert_eq!(bank.add_tile(&t), TileID(0));
    assert_eq!(bank.tile_count(), 1);
    assert_eq!(bank.get_tile(0), Some(&t));
    assert_eq!(bank.get_tile(1), None);
    assert_eq!(bank.push_color(RGBA12::red()), ColorID(0));
    assert_eq!(bank.color_count(), 1);
    bank.load_default_colors();
    assert_eq!(bank.color_count(), 16);
    bank.restore_palette_state(3);
    assert_eq!(bank.color_count(), 3);
    bank.restore_tile_count(0);
    assert_eq!(bank.tile_count(), 0);
    bank.reset();
    assert_eq!(bank.color_count(), 0);
}

#[test]
fn sprite_insert_marks_lines_and_slots() {
    let mut sprites = SpriteGenerator::new();
    sprites.insert(16, 10, 128, 64, TileFlags(0), TileID(3), PaletteID(2));
    assert_eq!(sprites.sprites[0].x, 16);
    assert_eq!(sprites.sprites[0].id, TileID(3));
    assert_eq!(sprites.sprites[0].sub_palette, 2);
    for row in 10..18 {
        assert_eq!(sprites.scanlines[row].sprite_count, 1);
        // Columns 16..24 of a 128-wide screen fall in slots 2 (16 * 16 / 128) and 2.
        assert_eq!(sprites.scanlines[row].mask, 1 << 2);
    }
    assert_eq!(sprites.scanlines[9].sprite_count, 0);
    assert_eq!(sprites.scanlines[18].sprite_count, 0);
    // Fully off screen: dropped.
    sprites.insert(-8, 0, 128, 64, TileFlags(0), TileID(1), PaletteID(0));
    assert_eq!(sprites.scanlines[0].sprite_count, 0);
    sprites.reset();
    assert_eq!(sprites.scanlines[12].sprite_count, 0);
    assert_eq!(sprites.scanlines[12].mask, 0);
}

#[test]
fn sprite_insert_clips_at_edges() {
    let mut sprites = SpriteGenerator::new();
    sprites.insert(-4, -6, 64, 32, TileFlags(0), TileID(1), PaletteID(0));
    assert_eq!(sprites.scanlines[0].sprite_count, 1);
    assert_eq!(sprites.scanlines[1].sprite_count, 1);
    assert_eq!(sprites.scanlines[2].sprite_count, 0);
    // Columns 0..4 of a 64-wide screen are all in slot 0.
    assert_eq!(sprites.scanlines[0].mask, 1);
}

#[test]
fn chip_viewport_and_frames() {
    let mut chip = VideoChip::new(160, 120);
    assert_eq!(chip.width(), 160);
    assert_eq!(chip.max_x(), 159);
    assert_eq!(chip.max_y(), 119);
    assert_eq!(chip.frame_number(), 0);
    chip.frame_start();
    assert_eq!(chip.frame_number(), 1);
    chip.set_viewport(10, 20, u16::MAX, 5);
    chip.scroll_x = 3;
    chip.reset_scroll();
    assert_eq!(chip.scroll_x, 0);
    chip.reset_all();
    assert_eq!(chip.frame_number(), 0);
    assert_eq!(chip.bg_color, RGBA12::black());
}

#[test]
fn chip_draws_tiles_and_sprites() {
    let mut chip = VideoChip::new(64, 32);
    chip.draw_fg_tile(DrawBundle { x: 0, y: 0, id: TileID(1), flags: TileFlags(0), sub_palette: PaletteID(0) });
    chip.wrap_sprites = false;
    // Off the scrolled screen without wrapping: not drawn.
    chip.draw_fg_tile(DrawBundle { x: 100, y: 0, id: TileID(2), flags: TileFlags(0), sub_palette: PaletteID(0) });
    let mut map: Tilemap<4> = Tilemap::new(2, 2);
    map.set_id(1, 0, TileID(7));
    chip.draw_sprite(SpriteBundle { x: 8, y: 8, flip_x: true, flip_y: false }, &map);
    chip.reset_sprites();
    chip.reset_viewport();
}

#[test]
fn tilemap_cell_mut_writes_through() {
    let mut map: Tilemap<16> = Tilemap::new(4, 4);
    if let Some(cell) = map.cell_mut(3, 2) {
        *cell = Cell::new(4, 1, 2);
    }
    assert_eq!(map.get_cell(3, 2), Some(Cell::new(4, 1, 2)));
    assert!(map.cell_mut(4, 0).is_none());
    assert!(map.cell_mut(-1, 0).is_none());
}

#[test]
fn color_and_palette_text() {
    let c = RGBA12::with_transparency(7, 0, 3, 5).with_z(12);
    assert_eq!(c.to_string(), "RGBA12(r: 7, g: 0, b: 3, a: 5, z: 12)");
    assert_eq!(Palette::new(15, 0, 9, 3).debug_string(), "Palette([15, 0, 9, 3])");
}

#[test]
fn tile_flags_transform_reads_back() {
    for bits in [0u8, 0b0001_1110, 0xFF] {
        for flip_x in [false, true] {
            for flip_y in [false, true] {
                for rotation in [false, true] {
                    let f = TileFlags(bits).with_transform(flip_x, flip_y, rotation);
                    assert_eq!(f.get_transform_bits(), (flip_x, flip_y, rotation));
                    // The other flags are kept.
                    assert_eq!(f.0 & 0b0001_1111, bits & 0b0001_1111);
                }
            }
        }
    }
}

#[test]
fn tile_flags_set_reads_back_and_toggle_twice() {
    let mut f = TileFlags(0);
    f.set_fg(true);
    assert!(f.is_fg());
    f.set_collision(true);
    assert!(f.is_collider() && f.is_fg());
    f.set_fg(false);
    assert!(!f.is_fg() && f.is_collider());
    let g = TileFlags(0b1010_0101);
    assert_eq!(g.toggle_flip_x().toggle_flip_x().0, g.0);
    assert_eq!(g.toggle_rotation().toggle_rotation().0, g.0);
}

#[test]
fn color_widens_and_narrows_back() {
    for a in 0..8u8 {
        for v in 0..8u8 {
            let c = RGBA12::with_transparency(v, 7 - v, v / 2, a);
            let wide = RGBA32::from(c);
            assert_eq!(wide.r, v * 36 + v / 2);
            let back = RGBA12::from(wide);
            assert_eq!((back.r(), back.g(), back.b(), back.a()), (v, 7 - v, v / 2, a));
        }
    }
    assert_eq!(RGBA32::from(RGBA12::white()).r, 255);
}

#[test]
fn transform_coords_cases() {
    let none = TileFlags(0);
    assert_eq!(none.transform_coords(1, 2, 8), (1, 2));
    assert_eq!(TileFlags(0).with_flip_x().transform_coords(1, 2, 8), (6, 2));
    assert_eq!(TileFlags(0).with_flip_y().transform_coords(1, 2, 8), (1, 5));
    assert_eq!(TileFlags(0).with_rotation().transform_coords(1, 2, 8), (5, 1));
    assert_eq!(TileFlags(0).with_transform(true, false, true).transform_coords(1, 2, 8), (5, 6));
    assert_eq!(TileFlags(0).with_transform(false, true, true).transform_coords(1, 2, 8), (2, 1));
    // A horizontal flip takes precedence over a vertical one when rotated.
    assert_eq!(TileFlags(0).with_transform(true, true, true).transform_coords(1, 2, 8), (5, 6));
}

#[test]
fn cluster_from_tile_rows() {
    let rows: Vec<Cluster<2>> = (0..8u8).map(|r| Cluster::from_pixels(&[r % 4, 1, 2, 3, 0, 1, 2, 3])).collect();
    let plain = Cluster::from_tile(&rows, TileFlags(0), 5, 8);
    assert_eq!(plain.data, rows[5].data);
    let flipped = Cluster::from_tile(&rows, TileFlags(0).with_flip_x(), 0, 8);
    assert_eq!(flipped.data, rows[0].flip().data);
    // Rotated: pixel x of row y comes from column 7 - y of row x.
    let rotated = Cluster::from_tile(&rows, TileFlags(0).with_rotation(), 0, 8);
    for x in 0..8u8 {
        assert_eq!(rotated.get_subpixel(x), rows[x as usize].get_subpixel(7));
    }
    // A smaller tile leaves the rest of the row blank.
    let small = Cluster::from_tile(&rows, TileFlags(0), 1, 4);
    assert_eq!(small.get_subpixel(3), rows[1].get_subpixel(3));
    assert_eq!(small.get_subpixel(4), 0);
}

#[test]
fn cluster_flip_example_and_twice() {
    let c = Cluster::<2> { data: [0x1B, 0x00] };
    let once = c.flip();
    assert_eq!(once.data, [0x00, 0xE4]);
    assert_eq!(once.flip().data, c.data);
}

#[test]
fn chip_background_accessors() {
    let mut chip = VideoChip::new(16, 8);
    chip.set_bg_color(RGBA12::red());
    assert_eq!(chip.bg_color(), RGBA12::red());
    chip.set_scroll(3, -2);
    assert_eq!(chip.scroll(), (3, -2));
    chip.set_wrap_bg(false);
    assert!(!chip.wrap_bg());
}
