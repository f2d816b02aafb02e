//! Tile groups (collision or rendering categories) and the palette builder's colors.

use vstd::prelude::*;
use vstd::string::StringSliceAdditionalSpecFns;
use crate::pipeline::code_lines::{group_constant_text, group_constant_line, line_texts, uppercase};
use crate::video::color::RGBA12;
use crate::pipeline::tiles::Pixels;

verus! {

/// The position of the first name of `names` equal to `name`.
pub open spec fn first_name(names: Seq<Seq<char>>, name: Seq<char>, from: int) -> Option<int>
    decreases names.len() - from,
{
    if from < 0 || from >= names.len() {
        None
    } else if names[from] == name {
        Some(from)
    } else {
        first_name(names, name, from + 1)
    }
}

/// The group bits last recorded for `tile`, or 0.
pub open spec fn tile_bits(entries: Seq<(Pixels, u8)>, tile: Pixels) -> u8
    decreases entries.len(),
{
    if entries.len() == 0 {
        0
    } else if entries.last().0 == tile {
        entries.last().1
    } else {
        tile_bits(entries.drop_last(), tile)
    }
}

/// The group constant lines for the group names `names`: one per non-empty name, the
/// group of the name at position `i` being `i + 1`.
pub open spec fn group_lines_text(names: Seq<Seq<char>>) -> Seq<Seq<char>>
    decreases names.len(),
{
    if names.len() == 0 {
        seq![]
    } else {
        let rest = group_lines_text(names.drop_last());
        let last = names.last();
        if last.len() == 0 {
            rest
        } else {
            rest.push(group_constant_text(uppercase(last), names.len() as u8))
        }
    }
}

/// Manages tile groups for collision or rendering categories.
pub struct GroupBuilder {
    /// The group bits of each registered tile, latest last.
    pub hash: Vec<(Pixels, u8)>,
    /// Group names indexed by group index (0-based).
    pub names: Vec<String>,
}

impl GroupBuilder {
    /// The names of the groups.
    pub open spec fn name_texts(&self) -> Seq<Seq<char>> {
        line_texts(self.names@)
    }

    /// Creates an empty group builder.
    pub fn new() -> (r: Self)
        ensures
            r.names@.len() == 0,
            r.hash@.len() == 0,
    {
        Self { hash: Vec::new(), names: Vec::new() }
    }

    /// Adds a named group and returns its index, counted from 1; a name added before gives
    /// its index back. At most 16 groups exist.
    pub fn add_group(&mut self, name: &str) -> (r: u8)
        requires
            first_name(old(self).name_texts(), name@, 0) is Some || old(self).names@.len() < 16,
        ensures
            final(self).hash@ == old(self).hash@,
            match first_name(old(self).name_texts(), name@, 0) {
                Some(i) => r == (i + 1) as u8 && final(self).names@ == old(self).names@,
                None => {
                    &&& r == old(self).names@.len() + 1
                    &&& final(self).name_texts() == old(self).name_texts().push(name@)
                },
            },
    {
        let mut index: usize = 0;
        while index < self.names.len()
            invariant
                index <= self.names@.len(),
                self.names@ == old(self).names@,
                self.hash@ == old(self).hash@,
                first_name(old(self).name_texts(), name@, 0) == first_name(old(self).name_texts(), name@, index as int),
                first_name(old(self).name_texts(), name@, 0) is Some || old(self).names@.len() < 16,
            decreases self.names@.len() - index,
        {
            let existing = self.names[index].as_str();
            if str_equal(existing, name) {
                proof {
                    assert(self.name_texts()[index as int] == name@);
                }
                return (index + 1) as u8;
            }
            proof {
                assert(self.name_texts()[index as int] != name@);
            }
            index += 1;
        }
        let group_index = self.names.len() + 1;
        self.names.push(name.to_owned());
        proof {
            assert(self.name_texts() =~= old(self).name_texts().push(name@));
        }
        group_index as u8
    }

    /// Registers a tile as belonging to group `group_index` (counted from 1, up to 8): its
    /// group bits gain that group's bit.
    pub fn register_tile(&mut self, canonical_tile: Pixels, group_index: u8)
        requires
            1 <= group_index <= 8,
        ensures
            final(self).names@ == old(self).names@,
            final(self).hash@ == old(self).hash@.push(
                (canonical_tile, tile_bits(old(self).hash@, canonical_tile) | (1u8 << ((group_index - 1) as u8))),
            ),
    {
        let group_bit: u8 = 1u8 << (group_index - 1);
        let current = self.groups_of(&canonical_tile);
        self.hash.push((canonical_tile, current | group_bit));
    }

    /// The group bits of `tile`: 0 for a tile never registered.
    pub fn groups_of(&self, tile: &Pixels) -> (r: u8)
        ensures
            r == tile_bits(self.hash@, *tile),
    {
        let mut i = self.hash.len();
        proof {
            assert(self.hash@.take(i as int) =~= self.hash@);
        }
        while i > 0
            invariant
                i <= self.hash@.len(),
                tile_bits(self.hash@, *tile) == tile_bits(self.hash@.take(i as int), *tile),
            decreases i,
        {
            let entry = &self.hash[i - 1];
            proof {
                assert(self.hash@.take(i as int).last() == *entry);
                assert(self.hash@.take(i as int).drop_last() =~= self.hash@.take(i - 1));
            }
            if same_pixels(&entry.0, tile) {
                return entry.1;
            }
            i -= 1;
        }
        0
    }

    /// The lines of the group constants: one per non-empty group name, with its group bit.
    /// Only the first 16 groups can be named.
    pub fn constant_lines(&self) -> (r: Vec<String>)
        requires
            forall|i: int| 16 <= i < self.names@.len() ==> (#[trigger] self.name_texts()[i]).len() == 0,
        ensures
            line_texts(r@) == group_lines_text(self.name_texts()),
    {
        let mut lines: Vec<String> = Vec::new();
        let mut i: usize = 0;
        while i < self.names.len()
            invariant
                i <= self.names@.len(),
                forall|k: int| 16 <= k < self.names@.len() ==> (#[trigger] self.name_texts()[k]).len() == 0,
                line_texts(lines@) == group_lines_text(self.name_texts().take(i as int)),
            decreases self.names@.len() - i,
        {
            let name = self.names[i].as_str();
            proof {
                assert(self.name_texts().take(i + 1).drop_last() =~= self.name_texts().take(i as int));
                assert(self.name_texts().take(i + 1).last() == name@);
            }
            proof {
                assert(self.name_texts().take(i + 1).len() == i + 1);
            }
            if !name.is_empty() {
                proof {
                    assert(self.name_texts()[i as int] == name@);
                }
                let line = group_constant_line(name, (i + 1) as u8);
                lines.push(line);
                proof {
                    assert(line_texts(lines@) =~= line_texts(lines@.drop_last()).push(line@));
                    assert(group_lines_text(self.name_texts().take(i + 1)) == group_lines_text(
                        self.name_texts().take(i as int),
                    ).push(group_constant_text(uppercase(name@), (i + 1) as u8)));
                }
            } else {
                proof {
                    assert(group_lines_text(self.name_texts().take(i + 1)) == group_lines_text(
                        self.name_texts().take(i as int),
                    ));
                }
            }
            i += 1;
        }
        proof {
            assert(self.name_texts().take(self.names@.len() as int) =~= self.name_texts());
        }
        lines
    }
}

/// Collects colors from images for a palette.
pub struct PaletteBuilder {
    /// Palette identifier used in generated code.
    pub name: String,
    /// Collected 12-bit RGBA colors.
    pub rgb_colors: Vec<RGBA12>,
    /// Maps colors to their palette indices.
    pub rgb_to_index: Vec<(RGBA12, u8)>,
}

impl PaletteBuilder {
    /// Creates an empty palette builder with the given name.
    pub fn new(name: &str) -> (r: Self)
        ensures
            r.name@ == name@,
            r.rgb_colors@.len() == 0,
            r.rgb_to_index@.len() == 0,
    {
        PaletteBuilder { name: name.to_owned(), rgb_colors: Vec::new(), rgb_to_index: Vec::new() }
    }

    /// Adds a color to the palette, which holds at most 16.
    pub fn push(&mut self, color: RGBA12)
        requires
            old(self).rgb_colors@.len() < 16,
        ensures
            final(self).rgb_colors@ == old(self).rgb_colors@.push(color),
            final(self).name == old(self).name,
            final(self).rgb_to_index == old(self).rgb_to_index,
    {
        self.rgb_colors.push(color);
    }

    /// The palette's id: always 0, ids are no longer used.
    pub fn id(&self) -> (r: u8)
        ensures
            r == 0,
    {
        0
    }
}

/// Whether two strings hold the same characters.
pub(crate) fn str_equal(a: &str, b: &str) -> (r: bool)
    ensures
        r == (a@ == b@),
{
    let x = a.as_bytes();
    let y = b.as_bytes();
    proof {
        assert(x@ == vstd::utf8::encode_utf8(a@));
        assert(y@ == vstd::utf8::encode_utf8(b@));
    }
    if x.len() != y.len() {
        return false;
    }
    let mut i: usize = 0;
    while i < x.len()
        invariant
            i <= x@.len() == y@.len(),
            x@ == vstd::utf8::encode_utf8(a@),
            y@ == vstd::utf8::encode_utf8(b@),
            forall|k: int| 0 <= k < i ==> x@[k] == y@[k],
        decreases x@.len() - i,
    {
        if x[i] != y[i] {
            return false;
        }
        i += 1;
    }
    proof {
        assert(x@ =~= y@);
        vstd::utf8::encode_utf8_decode_utf8(a@);
        vstd::utf8::encode_utf8_decode_utf8(b@);
    }
    true
}

/// Whether two tiles hold the same pixels.
fn same_pixels(a: &Pixels, b: &Pixels) -> (r: bool)
    ensures
        r == (*a == *b),
{
    let mut i: usize = 0;
    while i < 64
        invariant
            i <= 64,
            forall|k: int| 0 <= k < i ==> a@[k] == b@[k],
        decreases 64 - i,
    {
        if a[i] != b[i] {
            return false;
        }
        i += 1;
    }
    proof {
        assert(*a =~= *b);
    }
    true
}

} // verus!
