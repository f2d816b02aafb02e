//! The lines that generated asset source files are made of: the header, the color arrays
//! and the group constants.

use vstd::prelude::*;
use crate::video::color::RGBA12;
use crate::decimal::{decimal_chars, push_decimal_chars};

verus! {

/// The texts of a sequence of lines.
pub open spec fn line_texts(lines: Seq<String>) -> Seq<Seq<char>> {
    lines.map_values(|s: String| s@)
}

/// The lines of the header of a generated file: a notice, `#![allow(unused)]` when
/// `allow_unused`, the prelude import (of the crate itself when `use_crate_assets`, else of
/// `tato`), and two blank lines.
pub open spec fn header_text(allow_unused: bool, use_crate_assets: bool) -> Seq<Seq<char>> {
    seq!["// Auto-generated code. Do not edit manually!"@] + (if allow_unused {
        seq!["#![allow(unused)]"@]
    } else {
        seq![]
    }) + seq![
        if use_crate_assets {
            "use crate::prelude::*;"@
        } else {
            "use tato::prelude::*;"@
        },
        ""@,
        ""@,
    ]
}

/// The header lines of a generated file.
pub fn header_lines(allow_unused: bool, use_crate_assets: bool) -> (r: Vec<String>)
    ensures
        line_texts(r@) == header_text(allow_unused, use_crate_assets),
{
    let mut lines: Vec<String> = Vec::new();
    lines.push("// Auto-generated code. Do not edit manually!".to_owned());
    if allow_unused {
        lines.push("#![allow(unused)]".to_owned());
    }
    if use_crate_assets {
        lines.push("use crate::prelude::*;".to_owned());
    } else {
        lines.push("use tato::prelude::*;".to_owned());
    }
    lines.push("".to_owned());
    lines.push("".to_owned());
    assert(line_texts(lines@) =~= header_text(allow_unused, use_crate_assets));
    lines
}

/// The line of one color of a color array: its constructor call with its red, green,
/// blue and alpha channels.
pub open spec fn color_line(c: RGBA12) -> Seq<char> {
    "    RGBA12::with_transparency("@ + decimal_chars(c.spec_r() as nat) + ", "@ + decimal_chars(
        c.spec_g() as nat,
    ) + ", "@ + decimal_chars(c.spec_b() as nat) + ", "@ + decimal_chars(c.spec_a() as nat)
        + "),"@
}

/// The lines of the color array `<constant>_COLORS` holding `colors`, placed in the link
/// section `section`: nothing for no colors; else the attribute, the opening line with the
/// count, a line per color, the closing line and a blank line.
pub open spec fn color_array_text(constant: Seq<char>, colors: Seq<RGBA12>, section: Seq<char>) -> Seq<
    Seq<char>,
> {
    if colors.len() == 0 {
        seq![]
    } else {
        seq![
            "#[unsafe(link_section = \""@ + section + "\")]"@,
            "pub static "@ + constant + "_COLORS: [RGBA12; "@ + decimal_chars(colors.len()) + "] = ["@,
        ] + colors.map_values(|c: RGBA12| color_line(c)) + seq!["];"@, ""@]
    }
}

/// The line of one color of a color array.
fn color_line_string(c: &RGBA12) -> (r: String)
    ensures
        r@ == color_line(*c),
{
    let mut out = String::new();
    out.append("    RGBA12::with_transparency(");
    push_decimal_chars(&mut out, c.r() as u64);
    out.append(", ");
    push_decimal_chars(&mut out, c.g() as u64);
    out.append(", ");
    push_decimal_chars(&mut out, c.b() as u64);
    out.append(", ");
    push_decimal_chars(&mut out, c.a() as u64);
    out.append("),");
    assert(out@ =~= color_line(*c));
    out
}

/// The lines of the color array whose constant is named `constant` (already uppercase).
pub fn color_array_lines_named(constant: &str, colors: &[RGBA12], section: &str) -> (r: Vec<String>)
    ensures
        line_texts(r@) == color_array_text(constant@, colors@, section@),
{
    let mut lines: Vec<String> = Vec::new();
    if colors.len() == 0 {
        assert(line_texts(lines@) =~= color_array_text(constant@, colors@, section@));
        return lines;
    }
    let mut attribute = String::new();
    attribute.append("#[unsafe(link_section = \"");
    attribute.append(section);
    attribute.append("\")]");
    lines.push(attribute);
    let mut opening = String::new();
    opening.append("pub static ");
    opening.append(constant);
    opening.append("_COLORS: [RGBA12; ");
    push_decimal_chars(&mut opening, colors.len() as u64);
    opening.append("] = [");
    lines.push(opening);
    let mut i: usize = 0;
    while i < colors.len()
        invariant
            i <= colors@.len(),
            lines@.len() == 2 + i,
            line_texts(lines@).take(2) == color_array_text(constant@, colors@, section@).take(2),
            forall|k: int| 0 <= k < i ==> (#[trigger] lines@[2 + k])@ == color_line(colors@[k]),
        decreases colors@.len() - i,
    {
        let line = color_line_string(&colors[i]);
        lines.push(line);
        proof {
            assert(line_texts(lines@).take(2) =~= line_texts(lines@.drop_last()).take(2));
        }
        i += 1;
    }
    lines.push("];".to_owned());
    lines.push("".to_owned());
    assert(line_texts(lines@) =~= color_array_text(constant@, colors@, section@)) by {
        let t = color_array_text(constant@, colors@, section@);
        assert(t.len() == lines@.len());
        assert forall|k: int| 0 <= k < t.len() implies #[trigger] line_texts(lines@)[k] == t[k] by {
            if k < 2 {
                assert(line_texts(lines@).take(2)[k] == t.take(2)[k]);
            } else if k < 2 + colors@.len() {
                assert(lines@[2 + (k - 2)]@ == color_line(colors@[k - 2]));
            }
        }
    }
    lines
}

/// What `str::to_uppercase` gives for `s`: its characters mapped to uppercase as Unicode
/// defines it, which may change the length.
pub uninterp spec fn uppercase(s: Seq<char>) -> Seq<char>;

/// Calls `str::to_uppercase`. The contract claims that the result depends on `s` alone
/// (the mapping is Unicode's, without locale), and names it.
#[verifier::external_body]
pub(crate) fn to_uppercase(s: &str) -> (r: String)
    ensures
        r@ == uppercase(s@),
{
    s.to_uppercase()
}

/// The lines of the color array named after `name`: its constant is `name` in uppercase
/// followed by `_COLORS`.
pub fn color_array_lines(name: &str, colors: &[RGBA12], section: &str) -> (r: Vec<String>)
    ensures
        line_texts(r@) == color_array_text(uppercase(name@), colors@, section@),
{
    let constant = to_uppercase(name);
    color_array_lines_named(constant.as_str(), colors, section)
}

/// The value of the constant of group `group_index` (counted from 1): the bit of that
/// group.
pub open spec fn group_value(group_index: u8) -> u16 {
    (1u16 << ((group_index - 1) as u16)) as u16
}

/// The line that declares the constant `constant` of group `group_index`.
pub open spec fn group_constant_text(constant: Seq<char>, group_index: u8) -> Seq<char> {
    "pub const "@ + constant + ": u8 = "@ + decimal_chars(group_value(group_index) as nat) + ";"@
}

/// The line declaring the constant named `constant` (already uppercase) of group
/// `group_index`, counted from 1, up to 16.
pub fn group_constant_line_named(constant: &str, group_index: u8) -> (r: String)
    requires
        1 <= group_index <= 16,
    ensures
        r@ == group_constant_text(constant@, group_index),
{
    let value: u16 = 1u16 << (group_index - 1);
    let mut out = String::new();
    out.append("pub const ");
    out.append(constant);
    out.append(": u8 = ");
    push_decimal_chars(&mut out, value as u64);
    out.append(";");
    assert(out@ =~= group_constant_text(constant@, group_index));
    out
}

/// The line declaring the constant of group `group_index` (counted from 1, up to 16),
/// named `name` in uppercase.
pub fn group_constant_line(name: &str, group_index: u8) -> (r: String)
    requires
        1 <= group_index <= 16,
    ensures
        r@ == group_constant_text(uppercase(name@), group_index),
{
    let constant = to_uppercase(name);
    group_constant_line_named(constant.as_str(), group_index)
}

} // verus!
