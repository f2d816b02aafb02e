use tato::pipeline::build_steps::{
    export_clear_decision, is_asset_file, mod_file_text, normalized_range, register_generated_module,
    should_regenerate, stem_range,
    ExportClear,
};
use tato::pipeline::code_lines::{
    color_array_lines, color_array_lines_named, group_constant_line, group_constant_line_named, header_lines,
};
use tato::pipeline::code_gen::{format_tile_compact, get_platform_link_section};
use tato::pipeline::metadata::{parse_metadata, parse_u64, write_metadata, MetadataEntry};
use tato::pipeline::settings::{Anim, BuildSettings};
use tato::pipeline::groups::{GroupBuilder, PaletteBuilder};
use tato::pipeline::subpalette::{find, SubPalette, SubPaletteBuilder};
use tato::pipeline::tiles::{
    compute_tile_colors_with_transform, create_canonical_tile, find_matching_tile, store_transformed_variants, create_structure_mask, create_tile_colors_from_mapping,
    neighbor_mask, transform_tile,
};
use tato::video::cell::Cell;
use tato::video::color::RGBA12;

#[test]
fn format_tile_counting_pixels() {
    let pixels: Vec<u8> = (0..64).map(|i| (i % 16) as u8).collect();
    assert_eq!(
        format_tile_compact(&pixels),
        "Tile::new(0x0123456789ABCDEF, 0x0123456789ABCDEF, 0x0123456789ABCDEF, 0x0123456789ABCDEF)"
    );
}

#[test]
fn format_tile_keeps_low_nibble_and_row_order() {
    let mut pixels = vec![0u8; 64];
    pixels[0] = 0x1F; // only the low nibble counts
    pixels[15] = 2; // last pixel of the second row
    pixels[63] = 0xA;
    assert_eq!(
        format_tile_compact(&pixels),
        "Tile::new(0xF000000000000002, 0x0000000000000000, 0x0000000000000000, 0x000000000000000A)"
    );
}

#[test]
fn link_section_per_platform() {
    assert_eq!(get_platform_link_section("macos"), "__DATA,__const");
    assert_eq!(get_platform_link_section("windows"), ".rdata");
    assert_eq!(get_platform_link_section("linux"), ".rodata");
    assert_eq!(get_platform_link_section("none"), ".rodata");
}

#[test]
fn export_clear_refusals() {
    assert_eq!(export_clear_decision("", false), ExportClear::EmptyPath);
    assert_eq!(export_clear_decision("../assets", false), ExportClear::ParentTraversal);
    assert_eq!(export_clear_decision("out/../..", false), ExportClear::ParentTraversal);
    assert_eq!(export_clear_decision("/tmp/out", true), ExportClear::AbsolutePath);
}

#[test]
fn export_clear_keeps_top_level_directories() {
    for path in [".", "src", "./src/", "src/", "target", "cargo", ".git", ".cargo", "./target"] {
        assert_eq!(export_clear_decision(path, false), ExportClear::KeepTopLevel, "{}", path);
    }
}

#[test]
fn export_clear_clears_other_directories() {
    assert_eq!(export_clear_decision("src/assets", false), ExportClear::Clear);
    assert_eq!(export_clear_decision("./generated/", false), ExportClear::Clear);
    assert_eq!(export_clear_decision("sources", false), ExportClear::Clear);
}

#[test]
fn normalized_range_strips_prefix_and_slashes() {
    let bytes = b"././src//";
    let (start, end) = normalized_range(bytes);
    assert_eq!(&bytes[start..end], b"src");
}

#[test]
fn asset_files_by_extension() {
    assert!(is_asset_file("hero.png"));
    assert!(is_asset_file("HERO.PNG"));
    assert!(is_asset_file("photo.JpEg"));
    assert!(is_asset_file("a.jpg"));
    assert!(is_asset_file("b.bmp"));
    assert!(is_asset_file("c.gif"));
    assert!(is_asset_file("d.tga"));
    assert!(!is_asset_file(".DS_Store"));
    assert!(!is_asset_file("notes.txt"));
    assert!(!is_asset_file("png"));
    assert!(!is_asset_file(""));
}

#[test]
fn stem_of_paths() {
    let path = "assets/chars/hero.anim.png";
    let (start, end) = stem_range(path);
    assert_eq!(&path[start..end], "hero");
    let path = "plain";
    let (start, end) = stem_range(path);
    assert_eq!(&path[start..end], "plain");
    let path = "dir/";
    let (start, end) = stem_range(path);
    assert_eq!(&path[start..end], "");
}

#[test]
fn regenerate_decisions() {
    assert!(should_regenerate(true, Some(5), Some(9)));
    assert!(!should_regenerate(false, Some(5), Some(5)));
    assert!(!should_regenerate(false, Some(4), Some(5)));
    assert!(should_regenerate(false, Some(6), Some(5)));
    assert!(should_regenerate(false, Some(6), None));
    assert!(should_regenerate(false, None, Some(1)));
}

#[test]
fn mod_file_for_modules() {
    let modules = vec!["hero".to_string(), "font".to_string()];
    assert_eq!(
        mod_file_text("assets_out", &modules).unwrap(),
        "// Auto-generated mod.rs - exports all generated modules\n\npub mod hero;\npub mod font;\n\npub use hero::*;\npub use font::*;\n"
    );
}

#[test]
fn no_mod_file_in_src_or_without_modules() {
    let modules = vec!["hero".to_string()];
    assert_eq!(mod_file_text("src", &modules), None);
    assert_eq!(mod_file_text("./src/", &modules), None);
    assert_eq!(mod_file_text("assets_out", &[]), None);
}

#[test]
fn parse_u64_like_str_parse() {
    assert_eq!(parse_u64(b"0"), Some(0));
    assert_eq!(parse_u64(b"+42"), Some(42));
    assert_eq!(parse_u64(b"18446744073709551615"), Some(u64::MAX));
    assert_eq!(parse_u64(b"18446744073709551616"), None);
    assert_eq!(parse_u64(b""), None);
    assert_eq!(parse_u64(b"+"), None);
    assert_eq!(parse_u64(b"-1"), None);
    assert_eq!(parse_u64(b"12a"), None);
}

#[test]
fn parse_metadata_lines() {
    let text = "a.png=12\nbad line\nb.png=x\nc/d.png=7\r\ne=f=3\n";
    let entries = parse_metadata(text);
    assert_eq!(
        entries,
        vec![
            MetadataEntry { path_start: 0, path_end: 5, timestamp: 12 },
            MetadataEntry { path_start: 26, path_end: 33, timestamp: 7 },
        ]
    );
    assert_eq!(&text[0..5], "a.png");
    assert_eq!(&text[26..33], "c/d.png");
}

#[test]
fn write_metadata_lines() {
    let entries = vec![("a.png".to_string(), 12u64), ("dir/b.png".to_string(), 0u64)];
    assert_eq!(write_metadata(&entries), b"a.png=12\ndir/b.png=0\n".to_vec());
    assert_eq!(write_metadata(&[]), Vec::<u8>::new());
}

#[test]
fn metadata_round_trip() {
    let entries = vec![
        ("assets/hero.png".to_string(), 1_700_000_000u64),
        ("font.png".to_string(), u64::MAX),
        ("x".to_string(), 0u64),
    ];
    let bytes = write_metadata(&entries);
    let text = String::from_utf8(bytes).unwrap();
    let parsed = parse_metadata(&text);
    assert_eq!(parsed.len(), entries.len());
    for (entry, (path, stamp)) in parsed.iter().zip(entries.iter()) {
        assert_eq!(&text[entry.path_start..entry.path_end], path.as_str());
        assert_eq!(entry.timestamp, *stamp);
    }
}

#[test]
fn neighbor_mask_of_uniform_map() {
    let map = [1u8; 9];
    assert_eq!(neighbor_mask(&map, 1, 1, 3, 3), 255);
    assert_eq!(neighbor_mask(&map, 0, 0, 3, 3), 8 + 2 + 1);
    assert_eq!(neighbor_mask(&map, 2, 2, 3, 3), 128 + 64 + 16);
}

#[test]
fn neighbor_mask_matches_center_value_only() {
    let map = [
        1, 2, 1,
        2, 1, 2,
        1, 2, 2,
    ];
    assert_eq!(neighbor_mask(&map, 1, 1, 3, 3), 128 + 32 + 4);
    assert_eq!(neighbor_mask(&map, 3, 1, 3, 3), 0);
    assert_eq!(neighbor_mask(&map, 1, 3, 3, 3), 0);
}

#[test]
fn settings_and_anim_hold_their_fields() {
    let settings = BuildSettings {
        asset_import_path: "assets".to_string(),
        asset_export_path: "src/assets".to_string(),
        clear_export_path: true,
        force_reprocess: false,
    };
    let copy = settings.clone();
    assert_eq!(copy.asset_import_path, "assets");
    assert_eq!(copy.asset_export_path, "src/assets");
    assert!(copy.clear_export_path);
    assert!(!copy.force_reprocess);
    let anim = Anim {
        name: "walk".to_string(),
        fps: 8,
        repeat: true,
        frames: vec![0, 1, 2, 1],
        strip_name: "hero".to_string(),
    };
    assert_eq!(anim.frames.len(), 4);
    assert_eq!(anim.fps, 8);
}

#[test]
fn header_lines_variants() {
    assert_eq!(
        header_lines(true, false),
        vec![
            "// Auto-generated code. Do not edit manually!".to_string(),
            "#![allow(unused)]".to_string(),
            "use tato::prelude::*;".to_string(),
            String::new(),
            String::new(),
        ]
    );
    assert_eq!(
        header_lines(false, true),
        vec![
            "// Auto-generated code. Do not edit manually!".to_string(),
            "use crate::prelude::*;".to_string(),
            String::new(),
            String::new(),
        ]
    );
}

#[test]
fn color_array_lines_of_two_colors() {
    let colors = [RGBA12::with_transparency(7, 0, 3, 7), RGBA12::with_transparency(1, 2, 3, 0)];
    assert_eq!(
        color_array_lines("player", &colors, ".rodata"),
        vec![
            "#[unsafe(link_section = \".rodata\")]".to_string(),
            "pub static PLAYER_COLORS: [RGBA12; 2] = [".to_string(),
            "    RGBA12::with_transparency(7, 0, 3, 7),".to_string(),
            "    RGBA12::with_transparency(1, 2, 3, 0),".to_string(),
            "];".to_string(),
            String::new(),
        ]
    );
    assert_eq!(color_array_lines_named("X", &colors[..1], ".rdata")[1], "pub static X_COLORS: [RGBA12; 1] = [");
    assert!(color_array_lines("empty", &[], ".rodata").is_empty());
}

#[test]
fn group_constants() {
    assert_eq!(group_constant_line("wall", 1), "pub const WALL: u8 = 1;");
    assert_eq!(group_constant_line("Water_b", 3), "pub const WATER_B: u8 = 4;");
    assert_eq!(group_constant_line_named("G", 16), "pub const G: u8 = 32768;");
    assert_eq!(group_constant_line_named("G", 10), "pub const G: u8 = 512;");
}

#[test]
fn register_modules_in_export_dir_once() {
    let mut modules: Vec<String> = Vec::new();
    register_generated_module(&mut modules, "./src/assets/", "src/assets/hero.rs", "hero");
    register_generated_module(&mut modules, "src/assets", "./src/assets/font.rs", "font");
    register_generated_module(&mut modules, "src/assets", "src/assets/hero.rs", "hero");
    register_generated_module(&mut modules, "src/assets", "src/other/map.rs", "map");
    assert_eq!(modules, vec!["hero".to_string(), "font".to_string()]);
}

#[test]
fn test_subpalette_inserts() {
    let mut builder = SubPaletteBuilder::default();
    assert_eq!(0, builder.data().len());

    let subpalette_a = SubPalette { colors: [2, 3, 0, 0], count: 2 };
    let insert_a = builder.insert(subpalette_a);
    assert_eq!(None, insert_a.mapping.get(&1));
    assert_eq!(Some(&0), insert_a.mapping.get(&2));
    assert_eq!(Some(&1), insert_a.mapping.get(&3));
    assert_eq!(2, builder.data()[0].count);
    assert_eq!(0, insert_a.position);
    assert_eq!(1, builder.data().len());

    let subpalette_b = SubPalette { colors: [0, 1, 0, 0], count: 2 };
    let insert_b = builder.add(subpalette_b);
    assert_eq!(1, builder.data().len());
    assert_eq!(4, builder.data()[0].count);
    assert_eq!(0, insert_b.position);
    assert_eq!(None, insert_b.mapping.get(&5));
    assert_eq!(Some(&2), insert_b.mapping.get(&0));
    assert_eq!(Some(&3), insert_b.mapping.get(&1));
    assert_eq!([2, 3, 0, 1], builder.data()[0].colors);

    let subpalette_c = SubPalette { colors: [0, 0, 0, 0], count: 1 };
    let insert_c = builder.add(subpalette_c);
    assert_eq!(0, insert_c.position);

    let subpalette_d = SubPalette { colors: [0, 4, 5, 6], count: 4 };
    let insert_d = builder.add(subpalette_d);
    assert_eq!(1, insert_d.position);

    let subpalette_e = SubPalette { colors: [2, 3, 5, 0], count: 3 };
    let insert_e = builder.add(subpalette_e);
    assert_eq!(2, insert_e.position);

    assert_eq!(3, builder.data().len());

    let subpalette_f = SubPalette { colors: [0, 0, 0, 0], count: 1 };
    let insert_f = builder.add(subpalette_f);
    assert_eq!(0, insert_f.position);

    let subpalette_g = SubPalette { colors: [5, 0, 0, 0], count: 1 };
    let insert_g = builder.add(subpalette_g);
    assert_eq!(1, insert_g.position);
}

#[test]
fn subpalette_from_push_and_mapping() {
    let mut sp = SubPalette::from(&[7, 9]);
    assert_eq!(sp.colors, [7, 9, 0, 0]);
    assert_eq!(sp.count, 2);
    sp.push(9);
    assert_eq!(sp.colors(), &[7, 9]);
    sp.push(4);
    assert_eq!(sp.colors(), &[7, 9, 4]);
    let mapping = SubPalette::from(&[3, 5, 3]).generate_mapping();
    assert_eq!(mapping.get(&3), Some(&2));
    assert_eq!(mapping.get(&5), Some(&1));
    assert_eq!(mapping.len(), 2);
    assert_eq!(find(9, &[7, 9, 9]), Some(1));
    assert_eq!(find(1, &[7, 9]), None);
}

#[test]
fn subpalette_add_keeps_colors_added_before_a_failed_match() {
    let mut builder = SubPaletteBuilder::new();
    builder.insert(SubPalette::from(&[1, 2]));
    // 3 and 4 fit into the first entry, 5 does not: the entry keeps 3 and 4.
    let r = builder.add(SubPalette::from(&[3, 4, 5]));
    assert_eq!(r.position, 1);
    assert_eq!(builder.data()[0].colors(), &[1, 2, 3, 4]);
    assert_eq!(builder.data()[1].colors(), &[3, 4, 5]);
    assert_eq!(r.mapping.get(&5), Some(&2));
}

#[test]
fn subpalette_add_new_needs_same_positions() {
    let mut builder = SubPaletteBuilder::new();
    builder.insert(SubPalette::from(&[1, 2, 3]));
    // Same colors at the same positions: shared.
    let same = builder.add_new(SubPalette::from(&[1, 2]));
    assert_eq!(same.position, 0);
    assert_eq!(same.mapping.get(&2), Some(&1));
    // Same colors at other positions: a new entry.
    let moved = builder.add_new(SubPalette::from(&[2, 1]));
    assert_eq!(moved.position, 1);
    // A color the entry lacks: a new entry too.
    let other = builder.add_new(SubPalette::from(&[1, 9]));
    assert_eq!(other.position, 2);
    assert!(!builder.is_empty());
}

#[test]
fn group_builder_indices_and_lines() {
    let mut groups = GroupBuilder::new();
    assert_eq!(groups.add_group("wall"), 1);
    assert_eq!(groups.add_group("water"), 2);
    assert_eq!(groups.add_group("wall"), 1);
    assert_eq!(groups.add_group(""), 3);
    assert_eq!(groups.add_group("spikes"), 4);
    assert_eq!(groups.names.len(), 4);
    assert_eq!(
        groups.constant_lines(),
        vec![
            "pub const WALL: u8 = 1;".to_string(),
            "pub const WATER: u8 = 2;".to_string(),
            "pub const SPIKES: u8 = 8;".to_string(),
        ]
    );
}

#[test]
fn group_builder_tile_bits() {
    let mut groups = GroupBuilder::new();
    let tile_a = [1u8; 64];
    let mut tile_b = [1u8; 64];
    tile_b[63] = 2;
    assert_eq!(groups.groups_of(&tile_a), 0);
    groups.register_tile(tile_a, 1);
    groups.register_tile(tile_a, 3);
    groups.register_tile(tile_b, 8);
    assert_eq!(groups.groups_of(&tile_a), 0b101);
    assert_eq!(groups.groups_of(&tile_b), 0b1000_0000);
}

#[test]
fn palette_builder_collects_colors() {
    let mut palette = PaletteBuilder::new("main");
    assert_eq!(palette.name, "main");
    assert_eq!(palette.id(), 0);
    palette.push(RGBA12::with_transparency(1, 2, 3, 7));
    palette.push(RGBA12::with_transparency(0, 0, 0, 0));
    assert_eq!(palette.rgb_colors.len(), 2);
    assert_eq!(palette.rgb_colors[0], RGBA12::with_transparency(1, 2, 3, 7));
}

#[test]
fn canonical_tile_of_two_colors() {
    let mut pixels = [9u8; 64];
    for i in 0..8 {
        pixels[i] = 4; // top row
    }
    let (structure, canonical, colors) = create_canonical_tile(&pixels);
    assert_eq!(colors, vec![4, 9]);
    assert_eq!(canonical[0], 0);
    assert_eq!(canonical[8], 1);
    // Top-left corner: right neighbor matches (8), bottom ones do not.
    assert_eq!(structure.pixels[0], 8);
    // Center of the bottom area: all eight neighbors match.
    assert_eq!(structure.pixels[4 * 8 + 4], 255);
    // Second row, first column: top and top-right differ, right, bottom, bottom-right match.
    assert_eq!(structure.pixels[8], 8 + 2 + 1);
    for i in 0..64 {
        assert_eq!(colors[canonical[i] as usize], pixels[i]);
    }
}

#[test]
fn canonical_tile_sorts_colors() {
    let mut pixels = [0u8; 64];
    for (i, p) in pixels.iter_mut().enumerate() {
        *p = [200u8, 3, 77][i % 3];
    }
    let (_, canonical, colors) = create_canonical_tile(&pixels);
    assert_eq!(colors, vec![3, 77, 200]);
    assert_eq!(&canonical[0..3], &[2, 0, 1]);
    let mask = create_structure_mask(&[0u8; 64]);
    assert_eq!(mask[0], 8 + 2 + 1);
    assert_eq!(mask[63], 128 + 64 + 16);
}

#[test]
fn subpalette_add_again_gives_same_position() {
    let mut builder = SubPaletteBuilder::new();
    builder.insert(SubPalette::from(&[1, 2]));
    let first = builder.add(SubPalette::from(&[2, 5]));
    let entries_after_first: Vec<[u8; 4]> = builder.data().iter().map(|s| s.colors).collect();
    let second = builder.add(SubPalette::from(&[2, 5]));
    assert_eq!(first.position, second.position);
    let entries_after_second: Vec<[u8; 4]> = builder.data().iter().map(|s| s.colors).collect();
    assert_eq!(entries_after_first, entries_after_second);
    assert_eq!(second.mapping.len(), 3);
}

#[test]
fn subpalette_mapping_places_colors() {
    let mut builder = SubPaletteBuilder::new();
    builder.insert(SubPalette::from(&[8, 6, 4]));
    let incoming = SubPalette::from(&[4, 9, 8]);
    let r = builder.add(incoming);
    let entry = builder.data()[r.position as usize];
    for color in incoming.colors() {
        let at = *r.mapping.get(color).unwrap() as usize;
        assert!(at < entry.count as usize);
        assert_eq!(entry.colors[at], *color);
    }
}

#[test]
fn transform_tile_flips_and_turns() {
    let mut tile = [0u8; 64];
    for (i, p) in tile.iter_mut().enumerate() {
        *p = i as u8;
    }
    let fx = transform_tile(&tile, true, false, false);
    assert_eq!(fx[0], 7);
    assert_eq!(fx[8], 15);
    let fy = transform_tile(&tile, false, true, false);
    assert_eq!(fy[0], 56);
    assert_eq!(transform_tile(&fx, true, false, false), tile);
    assert_eq!(transform_tile(&transform_tile(&tile, true, true, false), true, true, false), tile);
    let mut turned = tile;
    for _ in 0..4 {
        turned = transform_tile(&turned, false, false, true);
    }
    assert_eq!(turned, tile);
    let once = transform_tile(&tile, false, false, true);
    // Pixel (x, y) comes from (7 - y, x).
    assert_eq!(once[0], tile[7]);
    assert_eq!(once[1], tile[8 + 7]);
    assert_ne!(once, tile);
}

#[test]
fn tile_colors_from_mapping() {
    assert_eq!(create_tile_colors_from_mapping(&[3, 9]).debug_string(), "Palette([3, 9, 0, 0])");
    assert_eq!(create_tile_colors_from_mapping(&[1, 2, 3, 4]).debug_string(), "Palette([1, 2, 3, 4])");
    assert_eq!(create_tile_colors_from_mapping(&[]).debug_string(), "Palette([0, 0, 0, 0])");
}

#[test]
fn tile_colors_with_transform() {
    // Stored tile: left half canonical 0, right half canonical 1.
    let mut stored = [0u8; 64];
    for i in 0..64 {
        if i % 8 >= 4 {
            stored[i] = 1;
        }
    }
    // New tile: left half color 5, right half color 12.
    let mut new = [0u8; 64];
    for i in 0..64 {
        new[i] = if i % 8 >= 4 { 12 } else { 5 };
    }
    let plain = compute_tile_colors_with_transform(&new, &stored, false, false, false);
    assert_eq!(plain.debug_string(), "Palette([5, 12, 0, 0])");
    // Drawn mirrored, the stored left half shows on the right.
    let mirrored = compute_tile_colors_with_transform(&new, &stored, true, false, false);
    assert_eq!(mirrored.debug_string(), "Palette([12, 5, 0, 0])");
    // Index 2 and 3 are never shown: they stay 0.
    let turned = compute_tile_colors_with_transform(&new, &stored, false, false, true);
    assert_eq!(turned.get(2), 0);
}

#[test]
fn tiles_found_directly_and_through_transforms() {
    let mut tile = [0u8; 64];
    for y in 0..8 {
        for x in 0..8 {
            // An "L" shape in color 3 over color 1.
            tile[y * 8 + x] = if x == 0 || y == 7 { 3 } else { 1 };
        }
    }
    let mut table = Vec::new();
    let (canonical, _, _) = create_canonical_tile(&tile);
    assert_eq!(find_matching_tile(&table, &canonical, &tile, true), None);
    let base = Cell::new(5, 0, 0);
    store_transformed_variants(&mut table, base, &tile, true);
    assert!(!table.is_empty() && table.len() <= 8);
    let found = find_matching_tile(&table, &canonical, &tile, true).unwrap();
    assert_eq!(found.id.0, 5);
    assert_eq!(found.flags.0, 0);
    // The mirrored tile is found too, with the flip recorded.
    let mirrored = transform_tile(&tile, true, false, false);
    let (mirrored_canonical, _, _) = create_canonical_tile(&mirrored);
    let m = find_matching_tile(&table, &mirrored_canonical, &mirrored, true).unwrap();
    assert_eq!(m.id.0, 5);
    assert!(m.flags.is_flipped_x() || m.flags.is_flipped_y() || m.flags.is_rotated());
    // Without transforms nothing is recorded.
    let mut empty = Vec::new();
    store_transformed_variants(&mut empty, base, &tile, false);
    assert!(empty.is_empty());
}

#[test]
fn palette_swapped_tiles_share_structure() {
    let mut a = [0u8; 64];
    let mut b = [0u8; 64];
    for i in 0..64 {
        a[i] = if i % 3 == 0 { 2 } else { 7 };
        b[i] = if i % 3 == 0 { 9 } else { 4 };
    }
    let (ca, _, _) = create_canonical_tile(&a);
    let mut table = Vec::new();
    store_transformed_variants(&mut table, Cell::new(1, 0, 0), &a, true);
    let (cb, _, _) = create_canonical_tile(&b);
    assert_eq!(ca.pixels, cb.pixels);
    assert_eq!(find_matching_tile(&table, &cb, &b, false).unwrap().id.0, 1);
}
