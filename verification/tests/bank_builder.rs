use tato::pipeline::bank_builder::{BankBuilder, BankError, DeferredCommand, PalettizedImg};
use tato::pipeline::bank_code::format_cell_compact;
use tato::video::cell::Cell;
use tato::video::color::RGBA12;
use tato::video::tile::TileID;

/// An image `tiles_h` by `tiles_v` tiles wide, each pixel given by `color(x, y)`.
fn image(tiles_h: usize, tiles_v: usize, frames_h: u8, frames_v: u8, color: impl Fn(usize, usize) -> u8) -> PalettizedImg {
    let width = tiles_h * 8;
    let height = tiles_v * 8;
    let mut pixels = Vec::new();
    for y in 0..height {
        for x in 0..width {
            pixels.push(color(x, y));
        }
    }
    PalettizedImg {
        width,
        pixels,
        frames_h,
        frames_v,
        cols_per_frame: tiles_h / frames_h as usize,
        rows_per_frame: tiles_v / frames_v as usize,
    }
}

#[test]
fn same_tile_is_stored_once() {
    let mut bank = BankBuilder::new("test");
    let img = image(1, 1, 1, 1, |x, _| if x < 4 { 1 } else { 2 });
    let first = bank.add_single_tile("A".to_string(), &img);
    let second = bank.add_single_tile("B".to_string(), &img);
    assert_eq!(first, second);
    assert_eq!(first.id, TileID(0));
    assert_eq!(bank.next_tile, 1);
    assert_eq!(bank.pixels.len(), 64);
    // Canonical indices: color 1 becomes 0, color 2 becomes 1.
    assert_eq!(bank.pixels[0], 0);
    assert_eq!(bank.pixels[7], 1);
    assert_eq!(first.colors.to_array(), [1, 2, 0, 0]);
    assert_eq!(bank.single_tiles.len(), 2);
    assert_eq!(bank.single_tiles[1].name, "B");
}

#[test]
fn palette_swapped_and_flipped_tiles_are_reused() {
    let mut bank = BankBuilder::new("test");
    let base = bank.add_single_tile("A".to_string(), &image(1, 1, 1, 1, |x, _| if x < 4 { 1 } else { 2 }));
    // Same structure, other colors: same tile, new palette.
    let swapped = bank.add_single_tile("B".to_string(), &image(1, 1, 1, 1, |x, _| if x < 4 { 5 } else { 3 }));
    assert_eq!(swapped.id, base.id);
    assert_eq!(swapped.flags, base.flags);
    assert_eq!(swapped.colors.to_array(), [5, 3, 0, 0]);
    // Mirrored: same tile drawn flipped.
    let mirrored = bank.add_single_tile("C".to_string(), &image(1, 1, 1, 1, |x, _| if x < 4 { 2 } else { 1 }));
    assert_eq!(mirrored.id, base.id);
    assert_eq!(bank.next_tile, 1);

    // Without transforms nothing is recorded for matching, so every tile is new.
    let mut plain = BankBuilder::new("plain");
    plain.allow_tile_transforms = false;
    let a = plain.add_single_tile("A".to_string(), &image(1, 1, 1, 1, |_, _| 1));
    let b = plain.add_single_tile("B".to_string(), &image(1, 1, 1, 1, |_, _| 1));
    assert_eq!((a.id, b.id), (TileID(0), TileID(1)));
}

#[test]
fn add_tiles_walks_frames_then_rows() {
    let mut bank = BankBuilder::new("test");
    // 2 frames across, each 1x2 tiles: tile colors by position.
    let img = image(2, 2, 2, 1, |x, y| ((x / 8) + 2 * (y / 8)) as u8);
    let frames = bank.add_tiles(&img);
    assert_eq!(frames.len(), 2);
    assert_eq!(frames[0].len(), 2);
    // Every tile is a single color, so all share one stored tile.
    assert_eq!(bank.next_tile, 1);
    // Frame 0 holds tile columns 0, rows 0 and 1 (colors 0 and 2); frame 1 column 1.
    assert_eq!(frames[0][0].colors.to_array()[0], 0);
    assert_eq!(frames[0][1].colors.to_array()[0], 2);
    assert_eq!(frames[1][0].colors.to_array()[0], 1);
    assert_eq!(frames[1][1].colors.to_array()[0], 3);
}

#[test]
fn maps_strips_and_anims() {
    let mut bank = BankBuilder::new("test");
    bank.add_map("level".to_string(), &image(2, 1, 1, 1, |x, _| (x / 8) as u8));
    assert_eq!(bank.maps[0].name, "level");
    assert_eq!((bank.maps[0].columns, bank.maps[0].rows), (2, 1));
    assert_eq!(bank.maps[0].cells.len(), 2);

    bank.add_animation_strip("walk".to_string(), &image(3, 1, 3, 1, |x, _| (x / 8) as u8));
    assert_eq!(bank.strips.len(), 1);
    assert_eq!(bank.strips[0].frames.len(), 3);
    assert_eq!(bank.strips[0].frames[0].name, "frame_00");
    assert_eq!(bank.strips[0].frames[2].name, "frame_02");
    // The same name replaces the strip.
    bank.add_animation_strip("walk".to_string(), &image(2, 1, 2, 1, |_, _| 1));
    assert_eq!(bank.strips.len(), 1);
    assert_eq!(bank.strips[0].frames.len(), 2);
    assert_eq!(bank.find_strip("walk"), Some(0));
    assert_eq!(bank.find_strip("run"), None);

    bank.add_anim("walk_loop".to_string(), 8, true, "walk".to_string(), vec![0, 1]);
    assert_eq!(bank.anims[0].frames, vec![0, 1]);
    assert_eq!(bank.anims[0].strip_name, "walk");

    let empty = bank.add_empty_tile();
    assert_eq!(bank.single_tiles.last().unwrap().name, "EMPTY");
    assert_eq!(bank.single_tiles.last().unwrap().cell, empty);
}

#[test]
fn requests_are_recorded_in_order() {
    let mut bank = BankBuilder::new("test");
    bank.new_tile("a.png");
    bank.new_empty_tile();
    bank.new_map("m.png", "map");
    bank.new_animation_strip("s.png", "strip", 2, 1);
    bank.new_anim("anim", "strip", 10, false, [0, 1, 0]);
    assert_eq!(bank.deferred_commands.len(), 5);
    assert!(matches!(&bank.deferred_commands[0], DeferredCommand::NewTile { path } if path == "a.png"));
    assert!(matches!(bank.deferred_commands[1], DeferredCommand::NewEmptyTile));
    assert!(matches!(&bank.deferred_commands[4], DeferredCommand::NewAnim { frames, fps: 10, .. } if frames == &vec![0, 1, 0]));
}

#[test]
fn request_paths_and_content() {
    let mut bank = BankBuilder::new("test");
    assert!(!bank.has_content(0));
    assert!(bank.has_content(1));
    bank.new_map("m.png", "map");
    bank.new_empty_tile();
    assert_eq!(bank.deferred_commands[0].path(), "m.png");
    assert_eq!(bank.deferred_commands[1].path(), "");
    bank.add_empty_tile();
    assert!(bank.has_content(0));
}

#[test]
fn run_commands_carries_out_requests_in_order() {
    let mut bank = BankBuilder::new("hero");
    bank.new_tile("tiles/coin.png");
    bank.new_animation_strip("walk.png", "walk", 2, 1);
    bank.new_anim("step", "walk", 6, true, [1, 0]);
    bank.new_map("level.png", "level");
    let images = vec![
        Some(image(1, 1, 1, 1, |x, _| if x < 4 { 1 } else { 2 })),
        Some(image(2, 1, 2, 1, |x, _| (x / 8) as u8)),
        None,
        Some(image(2, 1, 1, 1, |x, _| if x < 4 { 2 } else { 1 })),
    ];
    let names = vec!["coin".to_string(), String::new(), String::new(), String::new()];
    assert!(bank.is_consistent());
    assert_eq!(bank.run_commands(images, &names), Ok(()));
    assert_eq!(bank.deferred_commands.len(), 4);
    assert_eq!(bank.single_tiles[0].name, "coin");
    assert_eq!(bank.strips[0].frames.len(), 2);
    assert_eq!(bank.anims[0].frames, vec![1, 0]);
    assert_eq!(bank.maps[0].cells.len(), 2);
    assert!(bank.is_consistent());

    // A request whose image is missing fails.
    let mut missing = BankBuilder::new("m");
    missing.new_map("x.png", "x");
    assert_eq!(missing.run_commands(vec![None], &vec![]), Err(BankError::MissingImage));
    // An animation over a strip that does not exist fails.
    let mut orphan = BankBuilder::new("o");
    orphan.new_anim("a", "nope", 1, false, [0]);
    assert_eq!(orphan.run_commands(vec![], &vec![]), Err(BankError::UnknownStrip));
    // A tile with five colors fails.
    let mut colorful = BankBuilder::new("c");
    colorful.new_tile("t.png");
    let five = image(1, 1, 1, 1, |x, _| (x % 5) as u8);
    assert_eq!(colorful.run_commands(vec![Some(five)], &vec!["t".to_string()]), Err(BankError::TooManyColors));
}

#[test]
fn bank_file_and_map_file_text() {
    assert_eq!(format_cell_compact(&Cell::new(3, 4, 0x1200)), "Cell::new(3, 4, 4608)");

    let mut bank = BankBuilder::new("hero");
    bank.add_map("Level".to_string(), &image(1, 1, 1, 1, |_, _| 1));
    bank.add_single_tile("coin".to_string(), &image(1, 1, 1, 1, |_, _| 1));
    let lines = bank.bank_file_lines(&[RGBA12::black()]);
    let text = lines.join("\n");
    assert!(lines[0].starts_with("// Auto-generated code"));
    assert!(lines.contains(&"mod level;".to_string()));
    assert!(lines.contains(&"pub use level::*;".to_string()));
    assert!(lines.contains(&"pub const BANK_HERO: Bank = Bank {".to_string()));
    assert!(lines.contains(&"        RGBA12::with_transparency(0, 0, 0, 7),".to_string()));
    assert!(lines.contains(&"pub const TILES_HERO: TileBank = TileBank::new_from(".to_string()));
    assert!(lines.contains(&"pub const COIN: Cell = Cell::new(0, 0, 4096);".to_string()));
    assert!(text.contains("Tile::new(0x"));

    let map_lines = bank.map_file_lines(0);
    assert!(map_lines.contains(&"pub const MAP_LEVEL: Tilemap<1> = Tilemap {".to_string()));
    assert!(map_lines.contains(&"        Cell::new(0, 0, 4096),".to_string()));

    bank.write_colors = false;
    let lines = bank.bank_file_lines(&[]);
    assert!(!lines.iter().any(|l| l.starts_with("pub const BANK_")));
}
