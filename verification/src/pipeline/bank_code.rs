//! The source text a bank builder writes: the bank file with its bank, colors, tiles,
//! animation strips, animations and single tiles, and one file per tilemap.

use vstd::prelude::*;
use crate::decimal::{decimal_chars, push_decimal_chars};
use crate::video::cell::Cell;
use crate::pipeline::code_lines::{line_texts, header_text, header_lines, uppercase, to_uppercase};
use crate::pipeline::bank_builder::{BankBuilder, MapBuilder, StripBuilder, strip_position};
use crate::pipeline::settings::Anim;
use crate::pipeline::code_gen::{tile_code, format_tile_compact};
use crate::video::color::RGBA12;

verus! {

/// The code of a cell: a call of the compact `Cell::new` constructor with its tile id,
/// its flag byte and its packed palette.
pub open spec fn cell_code(c: Cell) -> Seq<char> {
    "Cell::new("@ + decimal_chars(c.id.0 as nat) + ", "@ + decimal_chars(c.flags.0 as nat) + ", "@
        + decimal_chars(c.colors.0 as nat) + ")"@
}

/// Formats a cell with the compact `Cell::new` constructor syntax.
pub fn format_cell_compact(c: &Cell) -> (r: String)
    ensures
        r@ == cell_code(*c),
{
    let mut out = String::new();
    out.append("Cell::new(");
    push_decimal_chars(&mut out, c.id.0 as u64);
    out.append(", ");
    push_decimal_chars(&mut out, c.flags.0 as u64);
    out.append(", ");
    push_decimal_chars(&mut out, c.colors.0 as u64);
    out.append(")");
    assert(out@ =~= cell_code(*c));
    out
}

/// The line a cell takes in a generated array of cells.
pub open spec fn cell_line(c: Cell) -> Seq<char> {
    "        "@ + cell_code(c) + ","@
}

/// The line a cell takes in a generated array of cells.
pub fn write_cell(c: &Cell) -> (r: String)
    ensures
        r@ == cell_line(*c),
{
    let mut out = String::new();
    out.append("        ");
    let code = format_cell_compact(c);
    out.append(code.as_str());
    out.append(",");
    assert(out@ =~= cell_line(*c));
    out
}

/// What `str::to_lowercase` gives for `s`: its characters mapped to lowercase as Unicode
/// defines it, which may change the length.
pub uninterp spec fn lowercase(s: Seq<char>) -> Seq<char>;

/// Calls `str::to_lowercase`. The contract claims that the result depends on `s` alone
/// (the mapping is Unicode's, without locale), and names it.
#[verifier::external_body]
fn to_lowercase(s: &str) -> (r: String)
    ensures
        r@ == lowercase(s@),
{
    s.to_lowercase()
}

/// `s` with the ASCII letters `a` to `z` turned into `A` to `Z`, every other character
/// left as it is.
pub open spec fn ascii_upper(s: Seq<char>) -> Seq<char> {
    Seq::new(
        s.len(),
        |i: int|
            if 'a' <= s[i] && s[i] <= 'z' {
                ((s[i] as int) - 32) as char
            } else {
                s[i]
            },
    )
}

/// Calls `str::to_ascii_uppercase`, documented to map the ASCII letters `a` to `z` to `A`
/// to `Z` and to leave every other character unchanged.
#[verifier::external_body]
fn to_ascii_uppercase(s: &str) -> (r: String)
    ensures
        r@ == ascii_upper(s@),
{
    s.to_ascii_uppercase()
}

/// The lines `lines` with `more` after them.
fn append_lines(lines: &mut Vec<String>, more: Vec<String>)
    ensures
        line_texts(final(lines)@) == line_texts(old(lines)@) + line_texts(more@),
{
    let mut more = more;
    let ghost start = line_texts(old(lines)@);
    let ghost all = line_texts(more@);
    while more.len() > 0
        invariant
            line_texts(lines@) + line_texts(more@) == start + all,
        decreases more@.len(),
    {
        let ghost before = more@;
        let line = more.remove(0);
        lines.push(line);
        assert(line_texts(before) =~= seq![line@] + line_texts(more@));
        assert(line_texts(lines@) + line_texts(more@) =~= start + all);
    }
    assert(line_texts(more@) =~= Seq::<Seq<char>>::empty());
    assert(line_texts(lines@) =~= start + all);
}

/// Pushes a line.
fn push_line(lines: &mut Vec<String>, line: String)
    ensures
        line_texts(final(lines)@) == line_texts(old(lines)@).push(line@),
{
    lines.push(line);
    assert(line_texts(lines@) =~= line_texts(old(lines)@).push(line@));
}

/// Pushes a line of literal text.
fn push_str(lines: &mut Vec<String>, line: &str)
    ensures
        line_texts(final(lines)@) == line_texts(old(lines)@).push(line@),
{
    push_line(lines, line.to_string());
}

/// The text of a tilemap's file: the header, then the constant `MAP_<NAME>` holding its
/// size and its cells, one line each.
pub open spec fn map_file_text(map: MapBuilder, allow_unused: bool, use_crate_assets: bool) -> Seq<Seq<char>> {
    header_text(allow_unused, use_crate_assets) + seq![
        "pub const MAP_"@ + uppercase(map.name@) + ": Tilemap<"@ + decimal_chars(map.cells@.len()) + "> = Tilemap {"@,
        "    columns: "@ + decimal_chars(map.columns as nat) + ","@,
        "    rows: "@ + decimal_chars(map.rows as nat) + ","@,
        "    cells: ["@,
    ] + map.cells@.map_values(|c: Cell| cell_line(c)) + seq!["    ],"@, "};"@]
}

/// The lines of the cells, one each.
fn cell_lines(cells: &Vec<Cell>) -> (r: Vec<String>)
    ensures
        line_texts(r@) == cells@.map_values(|c: Cell| cell_line(c)),
{
    let mut lines: Vec<String> = Vec::new();
    let mut i: usize = 0;
    while i < cells.len()
        invariant
            i <= cells@.len(),
            line_texts(lines@) == cells@.take(i as int).map_values(|c: Cell| cell_line(c)),
        decreases cells@.len() - i,
    {
        let line = write_cell(&cells[i]);
        push_line(&mut lines, line);
        i += 1;
        assert(line_texts(lines@) =~= cells@.take(i as int).map_values(|c: Cell| cell_line(c)));
    }
    assert(cells@.take(cells@.len() as int) =~= cells@);
    lines
}

/// The lines of a tilemap's file.
pub fn map_lines(map: &MapBuilder, allow_unused: bool, use_crate_assets: bool) -> (r: Vec<String>)
    ensures
        line_texts(r@) == map_file_text(*map, allow_unused, use_crate_assets),
{
    let mut lines = header_lines(allow_unused, use_crate_assets);
    let mut first = String::new();
    first.append("pub const MAP_");
    let upper = to_uppercase(map.name.as_str());
    first.append(upper.as_str());
    first.append(": Tilemap<");
    push_decimal_chars(&mut first, map.cells.len() as u64);
    first.append("> = Tilemap {");
    push_line(&mut lines, first);
    let mut columns = String::new();
    columns.append("    columns: ");
    push_decimal_chars(&mut columns, map.columns as u64);
    columns.append(",");
    push_line(&mut lines, columns);
    let mut rows = String::new();
    rows.append("    rows: ");
    push_decimal_chars(&mut rows, map.rows as u64);
    rows.append(",");
    push_line(&mut lines, rows);
    push_str(&mut lines, "    cells: [");
    append_lines(&mut lines, cell_lines(&map.cells));
    push_str(&mut lines, "    ],");
    push_str(&mut lines, "};");
    assert(line_texts(lines@) =~= map_file_text(*map, allow_unused, use_crate_assets));
    lines
}

/// The lines of several parts, one part after the other.
pub open spec fn concat_lines(parts: Seq<Seq<Seq<char>>>) -> Seq<Seq<char>>
    decreases parts.len(),
{
    if parts.len() == 0 {
        seq![]
    } else {
        concat_lines(parts.drop_last()) + parts.last()
    }
}

/// One more part adds its lines at the end.
proof fn lemma_concat_push(parts: Seq<Seq<Seq<char>>>, x: Seq<Seq<char>>)
    ensures
        concat_lines(parts.push(x)) == concat_lines(parts) + x,
{
    assert(parts.push(x).drop_last() =~= parts);
}

/// A blank line when `any`, else nothing.
pub open spec fn blank_if(any: bool) -> Seq<Seq<char>> {
    if any {
        seq![""@]
    } else {
        seq![]
    }
}

/// The `mod` line of a tilemap's file.
pub open spec fn map_mod_line(m: MapBuilder) -> Seq<char> {
    "mod "@ + lowercase(m.name@) + ";"@
}

/// The line that re-exports a tilemap's constants.
pub open spec fn map_use_line(m: MapBuilder) -> Seq<char> {
    "pub use "@ + lowercase(m.name@) + "::*;"@
}

/// The `Bank` constant: its colors and tiles, when both are written.
pub open spec fn bank_const_text(upper: Seq<char>, write: bool) -> Seq<Seq<char>> {
    if write {
        seq![
            "pub const BANK_"@ + upper + ": Bank = Bank {"@,
            "  colors: COLORS_"@ + upper + ", "@,
            "  tiles: TILES_"@ + upper + ", "@,
            "};"@,
            ""@,
        ]
    } else {
        seq![]
    }
}

/// The line of one color of the bank's colors.
pub open spec fn bank_color_line(c: RGBA12) -> Seq<char> {
    "        RGBA12::with_transparency("@ + decimal_chars(c.spec_r() as nat) + ", "@ + decimal_chars(
        c.spec_g() as nat,
    ) + ", "@ + decimal_chars(c.spec_b() as nat) + ", "@ + decimal_chars(c.spec_a() as nat) + "),"@
}

/// The bank's `ColorBank` constant, when colors are written.
pub open spec fn bank_colors_text(upper: Seq<char>, colors: Seq<RGBA12>, write: bool) -> Seq<Seq<char>> {
    if write {
        seq!["pub const COLORS_"@ + upper + ": ColorBank = ColorBank::new_from("@, "    &["@] + colors.map_values(
            |c: RGBA12| bank_color_line(c),
        ) + seq!["    ],"@, ");"@, ""@]
    } else {
        seq![]
    }
}

/// The line of stored tile `k`: its compact constructor.
pub open spec fn tile_line(pixels: Seq<u8>, k: int) -> Seq<char> {
    "        "@ + vstd::utf8::decode_utf8(tile_code(pixels.subrange(64 * k, 64 * k + 64))) + ","@
}

/// The bank's `TileBank` constant, one line per stored tile, when tiles are written.
pub open spec fn bank_tiles_text(upper: Seq<char>, pixels: Seq<u8>, write: bool) -> Seq<Seq<char>> {
    if write {
        seq!["pub const TILES_"@ + upper + ": TileBank = TileBank::new_from("@, "    &["@] + Seq::new(
            (pixels.len() / 64) as nat,
            |k: int| tile_line(pixels, k),
        ) + seq!["    ],"@, ");"@, ""@]
    } else {
        seq![]
    }
}

/// The lines that refer to frame `i` of a strip.
pub open spec fn frame_ref_text(strip_name: Seq<char>, frame: MapBuilder, i: int) -> Seq<Seq<char>> {
    seq![
        "    TilemapRef {"@,
        "        cells: &FRAMES_"@ + strip_name + "["@ + decimal_chars(i as nat) + "],"@,
        "        columns: "@ + decimal_chars(frame.columns as nat) + ","@,
        "        rows: "@ + decimal_chars(frame.rows as nat) + ","@,
        "    },"@,
    ]
}

/// The `STRIP_` constant of a strip: a tilemap reference per frame.
pub open spec fn strip_ref_text(s: StripBuilder) -> Seq<Seq<char>> {
    seq![
        "pub const STRIP_"@ + uppercase(s.name@) + ": [TilemapRef; "@ + decimal_chars(s.frames@.len())
            + "] = ["@,
    ] + concat_lines(Seq::new(s.frames@.len(), |i: int| frame_ref_text(s.name@, s.frames@[i], i))) + seq![
        "];"@,
        ""@,
    ]
}

/// The cells of one frame in a `FRAMES_` constant.
pub open spec fn frame_cells_text(frame: MapBuilder) -> Seq<Seq<char>> {
    seq!["           ["@] + frame.cells@.map_values(|c: Cell| cell_line(c)) + seq!["           ],"@]
}

/// The `FRAMES_` constant of a strip: the cells of each frame, sized after the first.
pub open spec fn strip_frames_text(s: StripBuilder) -> Seq<Seq<char>> {
    seq![
        "pub const FRAMES_"@ + uppercase(s.name@) + ": [[Cell; "@ + decimal_chars(s.frames@[0].cells@.len())
            + "]; "@ + decimal_chars(s.frames@.len()) + "] = ["@,
    ] + concat_lines(s.frames@.map_values(|f: MapBuilder| frame_cells_text(f))) + seq!["        ];"@, ""@]
}

/// The strips' constants, when there are strips and animations are written: every
/// `STRIP_` constant, then every `FRAMES_` constant.
pub open spec fn strips_text(strips: Seq<StripBuilder>, write: bool) -> Seq<Seq<char>> {
    if write && strips.len() > 0 {
        concat_lines(strips.map_values(|s: StripBuilder| strip_ref_text(s))) + concat_lines(
            strips.map_values(|s: StripBuilder| strip_frames_text(s)),
        )
    } else {
        seq![]
    }
}

/// The numbers of `v` separated by `, `.
pub open spec fn list_items(v: Seq<u8>) -> Seq<char>
    decreases v.len(),
{
    if v.len() == 0 {
        seq![]
    } else if v.len() == 1 {
        decimal_chars(v[0] as nat)
    } else {
        list_items(v.drop_last()) + ", "@ + decimal_chars(v.last() as nat)
    }
}

/// The debug text of a list of numbers: `[a, b, c]`.
pub open spec fn list_text(v: Seq<u8>) -> Seq<char> {
    "["@ + list_items(v) + "]"@
}

/// The text of a boolean.
pub open spec fn bool_text(b: bool) -> Seq<char> {
    if b {
        "true"@
    } else {
        "false"@
    }
}

/// The `ANIM_` constant of an animation.
pub open spec fn anim_text(a: Anim) -> Seq<Seq<char>> {
    seq![
        "pub const ANIM_"@ + uppercase(a.name@) + ": Anim = Anim {"@,
        "   fps: "@ + decimal_chars(a.fps as nat) + ","@,
        "   repeat: "@ + bool_text(a.repeat) + ","@,
        "   frames: &"@ + list_text(a.frames@) + ","@,
        "   strip: &STRIP_"@ + ascii_upper(a.strip_name@),
        "        };"@,
        ""@,
    ]
}

/// The line of a single tile's constant.
pub open spec fn single_tile_line(name: Seq<char>, c: Cell) -> Seq<char> {
    "pub const "@ + uppercase(name) + ": Cell = "@ + cell_code(c) + ";"@
}

/// The text of a bank's file with the palette colors `colors`: the header, a `mod` line
/// and a re-export line per tilemap, the `Bank` constant, the colors, the tiles, the
/// animation strips, the animations and the single tiles, each part as the builder's
/// options ask.
pub open spec fn bank_file_text(b: BankBuilder, colors: Seq<RGBA12>) -> Seq<Seq<char>> {
    let upper = uppercase(b.name@);
    header_text(b.allow_unused, b.use_crate_assets) + b.maps@.map_values(|m: MapBuilder| map_mod_line(m))
        + blank_if(b.maps@.len() > 0) + b.maps@.map_values(|m: MapBuilder| map_use_line(m)) + blank_if(
        b.maps@.len() > 0,
    ) + bank_const_text(upper, b.write_colors && b.write_tiles) + bank_colors_text(upper, colors, b.write_colors)
        + bank_tiles_text(upper, b.pixels@, b.write_tiles) + strips_text(b.strips@, b.write_animations) + (
    if b.write_animations {
        concat_lines(b.anims@.map_values(|a: Anim| anim_text(a)))
    } else {
        seq![]
    }) + (if b.write_tiles {
        b.single_tiles@.map_values(|t: crate::pipeline::bank_builder::SingleTileBuilder| single_tile_line(t.name@, t.cell))
            + blank_if(b.single_tiles@.len() > 0)
    } else {
        seq![]
    })
}


/// The `mod` lines of the tilemaps' files (`uses` false) or their re-export lines
/// (`uses` true), then a blank line when there is a tilemap.
fn map_name_lines(maps: &Vec<MapBuilder>, uses: bool) -> (r: Vec<String>)
    ensures
        line_texts(r@) == (if uses {
            maps@.map_values(|m: MapBuilder| map_use_line(m))
        } else {
            maps@.map_values(|m: MapBuilder| map_mod_line(m))
        }) + blank_if(maps@.len() > 0),
{
    let mut lines: Vec<String> = Vec::new();
    let ghost f = if uses {
        |m: MapBuilder| map_use_line(m)
    } else {
        |m: MapBuilder| map_mod_line(m)
    };
    let mut i: usize = 0;
    while i < maps.len()
        invariant
            i <= maps@.len(),
            f == (if uses {
                |m: MapBuilder| map_use_line(m)
            } else {
                |m: MapBuilder| map_mod_line(m)
            }),
            line_texts(lines@) == maps@.take(i as int).map_values(f),
        decreases maps@.len() - i,
    {
        let lower = to_lowercase(maps[i].name.as_str());
        let mut line = String::new();
        if uses {
            line.append("pub use ");
            line.append(lower.as_str());
            line.append("::*;");
        } else {
            line.append("mod ");
            line.append(lower.as_str());
            line.append(";");
        }
        assert(line@ == f(maps@[i as int]));
        push_line(&mut lines, line);
        i += 1;
        assert(line_texts(lines@) =~= maps@.take(i as int).map_values(f));
    }
    assert(maps@.take(maps@.len() as int) =~= maps@);
    if maps.len() > 0 {
        push_str(&mut lines, "");
    }
    proof {
        if uses {
            assert(maps@.map_values(f) =~= maps@.map_values(|m: MapBuilder| map_use_line(m)));
        } else {
            assert(maps@.map_values(f) =~= maps@.map_values(|m: MapBuilder| map_mod_line(m)));
        }
    }
    lines
}

/// `prefix`, `name` and `suffix` one after the other.
fn joined(prefix: &str, name: &str, suffix: &str) -> (r: String)
    ensures
        r@ == prefix@ + name@ + suffix@,
{
    let mut out = String::new();
    out.append(prefix);
    out.append(name);
    out.append(suffix);
    assert(out@ =~= prefix@ + name@ + suffix@);
    out
}

/// The lines of the `Bank` constant.
fn bank_const_lines(upper: &str, write: bool) -> (r: Vec<String>)
    ensures
        line_texts(r@) == bank_const_text(upper@, write),
{
    let mut lines: Vec<String> = Vec::new();
    if write {
        push_line(&mut lines, joined("pub const BANK_", upper, ": Bank = Bank {"));
        push_line(&mut lines, joined("  colors: COLORS_", upper, ", "));
        push_line(&mut lines, joined("  tiles: TILES_", upper, ", "));
        push_str(&mut lines, "};");
        push_str(&mut lines, "");
    }
    assert(line_texts(lines@) =~= bank_const_text(upper@, write));
    lines
}

/// The lines of the bank's colors.
fn bank_colors_lines(upper: &str, colors: &[RGBA12], write: bool) -> (r: Vec<String>)
    ensures
        line_texts(r@) == bank_colors_text(upper@, colors@, write),
{
    let mut lines: Vec<String> = Vec::new();
    if !write {
        assert(line_texts(lines@) =~= bank_colors_text(upper@, colors@, write));
        return lines;
    }
    push_line(&mut lines, joined("pub const COLORS_", upper, ": ColorBank = ColorBank::new_from("));
    push_str(&mut lines, "    &[");
    let ghost head = line_texts(lines@);
    let mut i: usize = 0;
    while i < colors.len()
        invariant
            i <= colors@.len(),
            line_texts(lines@) == head + colors@.take(i as int).map_values(|c: RGBA12| bank_color_line(c)),
        decreases colors@.len() - i,
    {
        let c = colors[i];
        let mut line = String::new();
        line.append("        RGBA12::with_transparency(");
        push_decimal_chars(&mut line, c.r() as u64);
        line.append(", ");
        push_decimal_chars(&mut line, c.g() as u64);
        line.append(", ");
        push_decimal_chars(&mut line, c.b() as u64);
        line.append(", ");
        push_decimal_chars(&mut line, c.a() as u64);
        line.append("),");
        assert(line@ =~= bank_color_line(c));
        push_line(&mut lines, line);
        i += 1;
        assert(line_texts(lines@) =~= head + colors@.take(i as int).map_values(|c: RGBA12| bank_color_line(c)));
    }
    assert(colors@.take(colors@.len() as int) =~= colors@);
    push_str(&mut lines, "    ],");
    push_str(&mut lines, ");");
    push_str(&mut lines, "");
    assert(line_texts(lines@) =~= bank_colors_text(upper@, colors@, write));
    lines
}

/// The lines of the bank's tiles.
fn bank_tiles_lines(upper: &str, pixels: &Vec<u8>, write: bool) -> (r: Vec<String>)
    requires
        write ==> pixels@.len() % 64 == 0,
    ensures
        line_texts(r@) == bank_tiles_text(upper@, pixels@, write),
{
    let mut lines: Vec<String> = Vec::new();
    if !write {
        assert(line_texts(lines@) =~= bank_tiles_text(upper@, pixels@, write));
        return lines;
    }
    push_line(&mut lines, joined("pub const TILES_", upper, ": TileBank = TileBank::new_from("));
    push_str(&mut lines, "    &[");
    let ghost head = line_texts(lines@);
    let count = pixels.len() / 64;
    let mut k: usize = 0;
    while k < count
        invariant
            k <= count,
            count == pixels@.len() / 64,
            pixels@.len() % 64 == 0,
            line_texts(lines@) == head + Seq::new(k as nat, |j: int| tile_line(pixels@, j)),
        decreases count - k,
    {
        proof {
            let n = pixels@.len() as int;
            assert(64 * k + 64 <= n) by (nonlinear_arith)
                requires
                    k < n / 64,
                    n % 64 == 0,
                    0 <= n,
            ;
            assert(pixels@.len() == pixels.len());
        }
        let chunk = vstd::slice::slice_subrange(pixels.as_slice(), 64 * k, 64 * k + 64);
        let code = format_tile_compact(chunk);
        proof {
            vstd::utf8::encode_utf8_decode_utf8(code@);
        }
        let mut line = String::new();
        line.append("        ");
        line.append(code.as_str());
        line.append(",");
        assert(line@ =~= tile_line(pixels@, k as int));
        push_line(&mut lines, line);
        k += 1;
        assert(line_texts(lines@) =~= head + Seq::new(k as nat, |j: int| tile_line(pixels@, j)));
    }
    push_str(&mut lines, "    ],");
    push_str(&mut lines, ");");
    push_str(&mut lines, "");
    assert(line_texts(lines@) =~= bank_tiles_text(upper@, pixels@, write));
    lines
}


/// The lines of the `STRIP_` constant of a strip.
fn strip_ref_lines(strip: &StripBuilder) -> (r: Vec<String>)
    ensures
        line_texts(r@) == strip_ref_text(*strip),
{
    let mut lines: Vec<String> = Vec::new();
    let upper = to_uppercase(strip.name.as_str());
    let mut first = String::new();
    first.append("pub const STRIP_");
    first.append(upper.as_str());
    first.append(": [TilemapRef; ");
    push_decimal_chars(&mut first, strip.frames.len() as u64);
    first.append("] = [");
    push_line(&mut lines, first);
    let ghost head = line_texts(lines@);
    let ghost parts = Seq::new(strip.frames@.len(), |i: int| frame_ref_text(strip.name@, strip.frames@[i], i));
    let mut i: usize = 0;
    while i < strip.frames.len()
        invariant
            i <= strip.frames@.len(),
            parts == Seq::new(strip.frames@.len(), |i: int| frame_ref_text(strip.name@, strip.frames@[i], i)),
            line_texts(lines@) == head + concat_lines(parts.take(i as int)),
        decreases strip.frames@.len() - i,
    {
        let frame = &strip.frames[i];
        let ghost before = line_texts(lines@);
        push_str(&mut lines, "    TilemapRef {");
        let mut cells = String::new();
        cells.append("        cells: &FRAMES_");
        cells.append(strip.name.as_str());
        cells.append("[");
        push_decimal_chars(&mut cells, i as u64);
        cells.append("],");
        push_line(&mut lines, cells);
        let mut columns = String::new();
        columns.append("        columns: ");
        push_decimal_chars(&mut columns, frame.columns as u64);
        columns.append(",");
        push_line(&mut lines, columns);
        let mut rows = String::new();
        rows.append("        rows: ");
        push_decimal_chars(&mut rows, frame.rows as u64);
        rows.append(",");
        push_line(&mut lines, rows);
        push_str(&mut lines, "    },");
        proof {
            assert(line_texts(lines@) =~= before + parts[i as int]);
            assert(parts.take(i + 1) =~= parts.take(i as int).push(parts[i as int]));
            lemma_concat_push(parts.take(i as int), parts[i as int]);
        }
        i += 1;
    }
    assert(parts.take(strip.frames@.len() as int) =~= parts);
    push_str(&mut lines, "];");
    push_str(&mut lines, "");
    assert(line_texts(lines@) =~= strip_ref_text(*strip));
    lines
}

/// The lines of one frame's cells in a `FRAMES_` constant.
fn frame_cells_lines(frame: &MapBuilder) -> (r: Vec<String>)
    ensures
        line_texts(r@) == frame_cells_text(*frame),
{
    let mut lines: Vec<String> = Vec::new();
    push_str(&mut lines, "           [");
    append_lines(&mut lines, cell_lines(&frame.cells));
    push_str(&mut lines, "           ],");
    assert(line_texts(lines@) =~= frame_cells_text(*frame));
    lines
}

/// The lines of the `FRAMES_` constant of a strip with at least one frame.
fn strip_frames_lines(strip: &StripBuilder) -> (r: Vec<String>)
    requires
        strip.frames@.len() > 0,
    ensures
        line_texts(r@) == strip_frames_text(*strip),
{
    let mut lines: Vec<String> = Vec::new();
    let upper = to_uppercase(strip.name.as_str());
    let mut first = String::new();
    first.append("pub const FRAMES_");
    first.append(upper.as_str());
    first.append(": [[Cell; ");
    push_decimal_chars(&mut first, strip.frames[0].cells.len() as u64);
    first.append("]; ");
    push_decimal_chars(&mut first, strip.frames.len() as u64);
    first.append("] = [");
    push_line(&mut lines, first);
    let ghost head = line_texts(lines@);
    let ghost parts = strip.frames@.map_values(|f: MapBuilder| frame_cells_text(f));
    let mut i: usize = 0;
    while i < strip.frames.len()
        invariant
            i <= strip.frames@.len(),
            parts == strip.frames@.map_values(|f: MapBuilder| frame_cells_text(f)),
            line_texts(lines@) == head + concat_lines(parts.take(i as int)),
        decreases strip.frames@.len() - i,
    {
        append_lines(&mut lines, frame_cells_lines(&strip.frames[i]));
        proof {
            assert(parts.take(i + 1) =~= parts.take(i as int).push(parts[i as int]));
            lemma_concat_push(parts.take(i as int), parts[i as int]);
        }
        i += 1;
    }
    assert(parts.take(strip.frames@.len() as int) =~= parts);
    push_str(&mut lines, "        ];");
    push_str(&mut lines, "");
    assert(line_texts(lines@) =~= strip_frames_text(*strip));
    lines
}

/// The lines of the strips' constants.
fn strips_lines(strips: &Vec<StripBuilder>, write: bool) -> (r: Vec<String>)
    requires
        write ==> forall|k: int| 0 <= k < strips@.len() ==> (#[trigger] strips@[k]).frames@.len() > 0,
    ensures
        line_texts(r@) == strips_text(strips@, write),
{
    let mut lines: Vec<String> = Vec::new();
    if !write || strips.len() == 0 {
        assert(line_texts(lines@) =~= strips_text(strips@, write));
        return lines;
    }
    let ghost refs = strips@.map_values(|s: StripBuilder| strip_ref_text(s));
    let ghost frames = strips@.map_values(|s: StripBuilder| strip_frames_text(s));
    let mut i: usize = 0;
    while i < strips.len()
        invariant
            i <= strips@.len(),
            refs == strips@.map_values(|s: StripBuilder| strip_ref_text(s)),
            line_texts(lines@) == concat_lines(refs.take(i as int)),
        decreases strips@.len() - i,
    {
        append_lines(&mut lines, strip_ref_lines(&strips[i]));
        proof {
            assert(refs.take(i + 1) =~= refs.take(i as int).push(refs[i as int]));
            lemma_concat_push(refs.take(i as int), refs[i as int]);
        }
        i += 1;
    }
    assert(refs.take(strips@.len() as int) =~= refs);
    let ghost head = line_texts(lines@);
    let mut j: usize = 0;
    while j < strips.len()
        invariant
            j <= strips@.len(),
            forall|k: int| 0 <= k < strips@.len() ==> (#[trigger] strips@[k]).frames@.len() > 0,
            frames == strips@.map_values(|s: StripBuilder| strip_frames_text(s)),
            line_texts(lines@) == head + concat_lines(frames.take(j as int)),
        decreases strips@.len() - j,
    {
        assert(strips@[j as int].frames@.len() > 0);
        append_lines(&mut lines, strip_frames_lines(&strips[j]));
        proof {
            assert(frames.take(j + 1) =~= frames.take(j as int).push(frames[j as int]));
            lemma_concat_push(frames.take(j as int), frames[j as int]);
        }
        j += 1;
    }
    assert(frames.take(strips@.len() as int) =~= frames);
    lines
}

/// The debug text of a list of numbers.
fn list_string(v: &Vec<u8>) -> (r: String)
    ensures
        r@ == list_text(v@),
{
    let mut out = String::new();
    out.append("[");
    let mut i: usize = 0;
    while i < v.len()
        invariant
            i <= v@.len(),
            out@ == "["@ + list_items(v@.take(i as int)),
        decreases v@.len() - i,
    {
        if i > 0 {
            out.append(", ");
        }
        push_decimal_chars(&mut out, v[i] as u64);
        proof {
            let t = v@.take(i + 1);
            assert(t.drop_last() =~= v@.take(i as int));
            if i == 0 {
                assert(v@.take(0) =~= Seq::<u8>::empty());
            }
        }
        i += 1;
        assert(out@ =~= "["@ + list_items(v@.take(i as int)));
    }
    assert(v@.take(v@.len() as int) =~= v@);
    out.append("]");
    out
}

/// The lines of an animation's constant.
fn anim_lines(a: &Anim) -> (r: Vec<String>)
    ensures
        line_texts(r@) == anim_text(*a),
{
    let mut lines: Vec<String> = Vec::new();
    let upper = to_uppercase(a.name.as_str());
    push_line(&mut lines, joined("pub const ANIM_", upper.as_str(), ": Anim = Anim {"));
    let mut fps = String::new();
    fps.append("   fps: ");
    push_decimal_chars(&mut fps, a.fps as u64);
    fps.append(",");
    push_line(&mut lines, fps);
    push_line(&mut lines, joined("   repeat: ", if a.repeat { "true" } else { "false" }, ","));
    let list = list_string(&a.frames);
    push_line(&mut lines, joined("   frames: &", list.as_str(), ","));
    let strip = to_ascii_uppercase(a.strip_name.as_str());
    push_line(&mut lines, joined("   strip: &STRIP_", strip.as_str(), ""));
    push_str(&mut lines, "        };");
    push_str(&mut lines, "");
    proof {
        reveal_strlit("");
    }
    assert(line_texts(lines@) =~= anim_text(*a));
    lines
}

/// The lines of the animations' constants, when animations are written.
fn anims_lines(anims: &Vec<Anim>, write: bool) -> (r: Vec<String>)
    ensures
        line_texts(r@) == (if write {
            concat_lines(anims@.map_values(|a: Anim| anim_text(a)))
        } else {
            seq![]
        }),
{
    let mut lines: Vec<String> = Vec::new();
    if !write {
        assert(line_texts(lines@) =~= Seq::<Seq<char>>::empty());
        return lines;
    }
    let ghost parts = anims@.map_values(|a: Anim| anim_text(a));
    let mut i: usize = 0;
    assert(parts.take(0) =~= Seq::<Seq<Seq<char>>>::empty());
    assert(line_texts(lines@) =~= Seq::<Seq<char>>::empty());
    while i < anims.len()
        invariant
            i <= anims@.len(),
            parts == anims@.map_values(|a: Anim| anim_text(a)),
            line_texts(lines@) == concat_lines(parts.take(i as int)),
        decreases anims@.len() - i,
    {
        append_lines(&mut lines, anim_lines(&anims[i]));
        proof {
            assert(parts.take(i + 1) =~= parts.take(i as int).push(parts[i as int]));
            lemma_concat_push(parts.take(i as int), parts[i as int]);
        }
        i += 1;
    }
    assert(parts.take(anims@.len() as int) =~= parts);
    lines
}

/// The lines of the single tiles' constants, then a blank line when there is one, when
/// tiles are written.
fn single_tile_lines(tiles: &Vec<crate::pipeline::bank_builder::SingleTileBuilder>, write: bool) -> (r: Vec<String>)
    ensures
        line_texts(r@) == (if write {
            tiles@.map_values(|t: crate::pipeline::bank_builder::SingleTileBuilder| single_tile_line(t.name@, t.cell))
                + blank_if(tiles@.len() > 0)
        } else {
            seq![]
        }),
{
    let mut lines: Vec<String> = Vec::new();
    if !write {
        assert(line_texts(lines@) =~= Seq::<Seq<char>>::empty());
        return lines;
    }
    let mut i: usize = 0;
    while i < tiles.len()
        invariant
            i <= tiles@.len(),
            line_texts(lines@) == tiles@.take(i as int).map_values(
                |t: crate::pipeline::bank_builder::SingleTileBuilder| single_tile_line(t.name@, t.cell),
            ),
        decreases tiles@.len() - i,
    {
        let upper = to_uppercase(tiles[i].name.as_str());
        let code = format_cell_compact(&tiles[i].cell);
        let mut line = String::new();
        line.append("pub const ");
        line.append(upper.as_str());
        line.append(": Cell = ");
        line.append(code.as_str());
        line.append(";");
        assert(line@ =~= single_tile_line(tiles@[i as int].name@, tiles@[i as int].cell));
        push_line(&mut lines, line);
        i += 1;
        assert(line_texts(lines@) =~= tiles@.take(i as int).map_values(
            |t: crate::pipeline::bank_builder::SingleTileBuilder| single_tile_line(t.name@, t.cell),
        ));
    }
    assert(tiles@.take(tiles@.len() as int) =~= tiles@);
    if tiles.len() > 0 {
        push_str(&mut lines, "");
    }
    lines
}


impl BankBuilder {
    /// The lines of the bank's file for the palette colors `palette_colors`; see
    /// `bank_file_text`.
    #[verifier::spinoff_prover]
    #[verifier::rlimit(50)]
    pub fn bank_file_lines(&self, palette_colors: &[RGBA12]) -> (r: Vec<String>)
        requires
            self.wf(),
        ensures
            line_texts(r@) == bank_file_text(*self, palette_colors@),
    {
        proof {
            let n = self.next_tile as int;
            assert((64 * n) % 64 == 0) by (nonlinear_arith);
        }
        let upper = to_uppercase(self.name.as_str());
        let mut lines = header_lines(self.allow_unused, self.use_crate_assets);
        append_lines(&mut lines, map_name_lines(&self.maps, false));
        append_lines(&mut lines, map_name_lines(&self.maps, true));
        append_lines(&mut lines, bank_const_lines(upper.as_str(), self.write_colors && self.write_tiles));
        append_lines(&mut lines, bank_colors_lines(upper.as_str(), palette_colors, self.write_colors));
        append_lines(&mut lines, bank_tiles_lines(upper.as_str(), &self.pixels, self.write_tiles));
        append_lines(&mut lines, strips_lines(&self.strips, self.write_animations));
        append_lines(&mut lines, anims_lines(&self.anims, self.write_animations));
        append_lines(&mut lines, single_tile_lines(&self.single_tiles, self.write_tiles));
        assert(line_texts(lines@) =~= bank_file_text(*self, palette_colors@));
        lines
    }

    /// The lines of the file of tilemap `i`; see `map_file_text`.
    pub fn map_file_lines(&self, i: usize) -> (r: Vec<String>)
        requires
            i < self.maps@.len(),
        ensures
            line_texts(r@) == map_file_text(self.maps@[i as int], self.allow_unused, self.use_crate_assets),
    {
        map_lines(&self.maps[i], self.allow_unused, self.use_crate_assets)
    }
}

} // verus!
