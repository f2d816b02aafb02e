use vstd::prelude::*;
use crate::video::color::{RGBA12, ColorID};

verus! {

/// The colors of the default palette, in order: transparent, black, gray, white, dark
/// red, red, light red, orange, yellow, dark green, green, light green, dark blue, blue,
/// light blue, pink.
pub open spec fn default_palette_spec() -> Seq<RGBA12> {
    seq![
        RGBA12 { data: 0 },
        RGBA12 { data: 3584 },
        RGBA12 { data: 3876 },
        RGBA12 { data: 4095 },
        RGBA12 { data: 3776 },
        RGBA12 { data: 3922 },
        RGBA12 { data: 4077 },
        RGBA12 { data: 4001 },
        RGBA12 { data: 4083 },
        RGBA12 { data: 3601 },
        RGBA12 { data: 3746 },
        RGBA12 { data: 3891 },
        RGBA12 { data: 3595 },
        RGBA12 { data: 3670 },
        RGBA12 { data: 3895 },
        RGBA12 { data: 3998 },
    ]
}

/// The default palette of 16 colors.
pub fn default_palette() -> (r: [RGBA12; 16])
    ensures
        r@ == default_palette_spec(),
{
    let r = [
        RGBA12::transparent(),
        RGBA12::black(),
        RGBA12::gray(),
        RGBA12::white(),
        RGBA12::dark_red(),
        RGBA12::red(),
        RGBA12::light_red(),
        RGBA12::orange(),
        RGBA12::yellow(),
        RGBA12::dark_green(),
        RGBA12::green(),
        RGBA12::light_green(),
        RGBA12::dark_blue(),
        RGBA12::blue(),
        RGBA12::light_blue(),
        RGBA12::pink(),
    ];
    assert(r@ =~= default_palette_spec());
    r
}

/// The identity color mapping: index `i` maps to color `i`.
pub const DEFAULT_MAPPING: [u8; 16] = [0, 1, 2, 3, 4, 5, 6, 7, 8, 9, 10, 11, 12, 13, 14, 15];

/// The first index in `start..head` of `pal` that holds `c`, or -1 if there is none.
pub open spec fn find_color(pal: Seq<RGBA12>, c: RGBA12, start: int, head: int) -> int
    decreases head - start,
{
    if start >= head {
        -1
    } else if pal[start] == c {
        start
    } else {
        find_color(pal, c, start + 1, head)
    }
}

/// What appending `colors` does to a palette whose first `count` entries are in use:
/// the palette, the new count, the remap of each color handled so far, and whether all
/// of them found a place. Each color reuses the first entry that already holds it, or
/// takes the next free entry; with no entry left the append stops there.
pub open spec fn append_colors(pal: Seq<RGBA12>, count: int, colors: Seq<RGBA12>) -> (
    Seq<RGBA12>,
    int,
    Seq<u8>,
    bool,
)
    decreases colors.len(),
{
    if colors.len() == 0 {
        (pal, count, Seq::empty(), true)
    } else {
        let prev = append_colors(pal, count, colors.drop_last());
        let c = colors.last();
        let found = find_color(prev.0, c, 0, prev.1);
        if !prev.3 {
            prev
        } else if found >= 0 {
            (prev.0, prev.1, prev.2.push(found as u8), true)
        } else if prev.1 >= 16 {
            (prev.0, prev.1, prev.2, false)
        } else {
            (prev.0.update(prev.1, c), prev.1 + 1, prev.2.push(prev.1 as u8), true)
        }
    }
}

/// What `find_color` finds: -1, or the first index in range that holds the color.
pub proof fn lemma_find_color(pal: Seq<RGBA12>, c: RGBA12, start: int, head: int)
    requires
        0 <= start,
        head <= pal.len(),
    ensures
        find_color(pal, c, start, head) == -1 || (start <= find_color(pal, c, start, head) < head
            && pal[find_color(pal, c, start, head)] == c),
        find_color(pal, c, start, head) == -1 ==> forall|k: int|
            start <= k < head ==> pal[k] != c,
        forall|k: int| start <= k < find_color(pal, c, start, head) ==> pal[k] != c,
    decreases head - start,
{
    if start < head && pal[start] != c {
        lemma_find_color(pal, c, start + 1, head);
    }
}

/// After an append, the entries in use before it are unchanged, at most 16 are in use,
/// and when every color found a place, the remap of each color points at an entry in use
/// that holds that color. A color is only added when no entry in use held it already.
pub proof fn lemma_append_colors(pal: Seq<RGBA12>, count: int, colors: Seq<RGBA12>)
    requires
        pal.len() == 16,
        0 <= count <= 16,
    ensures
        ({
            let r = append_colors(pal, count, colors);
            &&& r.0.len() == 16
            &&& count <= r.1 <= 16
            &&& forall|k: int| 0 <= k < count ==> #[trigger] r.0[k] == pal[k]
            &&& r.3 ==> r.2.len() == colors.len()
            &&& r.3 ==> forall|i: int|
                0 <= i < colors.len() ==> #[trigger] r.2[i] < r.1 && r.0[r.2[i] as int]
                    == colors[i]
            &&& forall|k: int|
                count <= k < r.1 ==> find_color(r.0, #[trigger] r.0[k], 0, r.1) == k
        }),
    decreases colors.len(),
{
    if colors.len() > 0 {
        lemma_append_colors(pal, count, colors.drop_last());
        let prev = append_colors(pal, count, colors.drop_last());
        let c = colors.last();
        lemma_find_color(prev.0, c, 0, prev.1);
        let r = append_colors(pal, count, colors);
        if prev.3 {
            if find_color(prev.0, c, 0, prev.1) >= 0 {
                assert forall|i: int| 0 <= i < colors.len() implies #[trigger] r.2[i] < r.1
                    && r.0[r.2[i] as int] == colors[i] by {
                    if i < colors.len() - 1 {
                        assert(r.2[i] == prev.2[i]);
                        assert(colors.drop_last()[i] == colors[i]);
                    }
                }
            } else if prev.1 < 16 {
                let n = prev.1;
                assert forall|i: int| 0 <= i < colors.len() implies #[trigger] r.2[i] < r.1
                    && r.0[r.2[i] as int] == colors[i] by {
                    if i < colors.len() - 1 {
                        assert(r.2[i] == prev.2[i]);
                        assert(colors.drop_last()[i] == colors[i]);
                    }
                }
                assert forall|k: int| count <= k < r.1 implies find_color(
                    r.0,
                    #[trigger] r.0[k],
                    0,
                    r.1,
                ) == k by {
                    lemma_find_color(r.0, r.0[k], 0, r.1);
                    lemma_find_color(prev.0, prev.0[k], 0, prev.1);
                    lemma_find_color_prefix(prev.0, r.0, r.0[k], n);
                    if k < n {
                        assert(r.0[k] == prev.0[k]);
                    } else {
                        assert(forall|j: int| 0 <= j < n ==> prev.0[j] != c);
                        lemma_find_color_first(r.0, c, n);
                    }
                }
            }
        }
    }
}

/// Searching a palette whose first `n` entries agree with another's finds the same
/// first match among them.
proof fn lemma_find_color_prefix(a: Seq<RGBA12>, b: Seq<RGBA12>, c: RGBA12, n: int)
    requires
        0 <= n <= a.len(),
        n < b.len(),
        forall|j: int| 0 <= j < n ==> a[j] == b[j],
        b[n] == c || find_color(a, c, 0, n) >= 0,
    ensures
        find_color(b, c, 0, n + 1) == (if find_color(a, c, 0, n) >= 0 {
            find_color(a, c, 0, n)
        } else {
            n
        }),
{
    lemma_find_color_prefix_from(a, b, c, 0, n);
}

proof fn lemma_find_color_prefix_from(a: Seq<RGBA12>, b: Seq<RGBA12>, c: RGBA12, s: int, n: int)
    requires
        0 <= s <= n <= a.len(),
        n < b.len(),
        forall|j: int| 0 <= j < n ==> a[j] == b[j],
        b[n] == c || find_color(a, c, s, n) >= 0,
    ensures
        find_color(b, c, s, n + 1) == (if find_color(a, c, s, n) >= 0 {
            find_color(a, c, s, n)
        } else {
            n
        }),
    decreases n - s,
{
    if s < n && a[s] != c {
        lemma_find_color_prefix_from(a, b, c, s + 1, n);
    }
}

/// An entry that no earlier entry matches is its own first match.
proof fn lemma_find_color_first(pal: Seq<RGBA12>, c: RGBA12, n: int)
    requires
        0 <= n < pal.len(),
        pal[n] == c,
        forall|j: int| 0 <= j < n ==> pal[j] != c,
    ensures
        find_color(pal, c, 0, n + 1) == n,
{
    lemma_find_color_first_from(pal, c, 0, n);
}

proof fn lemma_find_color_first_from(pal: Seq<RGBA12>, c: RGBA12, s: int, n: int)
    requires
        0 <= s <= n < pal.len(),
        pal[n] == c,
        forall|j: int| 0 <= j < n ==> pal[j] != c,
    ensures
        find_color(pal, c, s, n + 1) == n,
    decreases n - s,
{
    if s < n {
        lemma_find_color_first_from(pal, c, s + 1, n);
    }
}

/// A main palette of 16 colors and the count of entries in use.
#[derive(Debug, Clone)]
pub struct ColorBank {
    pub palette: [RGBA12; 16],
    pub(crate) palette_head: u8,
}

impl ColorBank {
    /// The number of palette entries in use.
    pub closed spec fn count(self) -> int {
        self.palette_head as int
    }

    /// The 16 colors of the palette.
    pub closed spec fn colors(self) -> Seq<RGBA12> {
        self.palette@
    }

    /// The count is a byte and the palette always has 16 colors.
    pub proof fn lemma_bounds(self)
        ensures
            0 <= self.count() <= 255,
            self.colors().len() == 16,
    {
    }

    /// Inside the crate, the count and the colors are the fields.
    pub(crate) proof fn lemma_fields(self)
        ensures
            self.count() == self.palette_head as int,
            self.colors() == self.palette@,
    {
    }

    /// A bank holding the default palette, with no entry in use.
    pub fn new() -> (r: Self)
        ensures
            r.colors() == default_palette_spec(),
            r.count() == 0,
    {
        Self { palette: default_palette(), palette_head: 0 }
    }

    /// A bank whose first entries are `palette` (as many as fit; the rest are opaque
    /// black) and whose count is the length of `palette`, cut to a byte.
    pub fn new_from(palette: &[RGBA12]) -> (r: Self)
        ensures
            forall|i: int|
                0 <= i < 16 ==> #[trigger] r.colors()[i] == if i < palette@.len() {
                    palette@[i]
                } else {
                    RGBA12 { data: 3584 }
                },
            r.count() == (palette@.len() as u8) as int,
    {
        let black = RGBA12::black();
        let mut palette_array = [black; 16];
        assert(forall|k: int| 0 <= k < 16 ==> palette_array@[k] == black);
        let mut i: usize = 0;
        while i < 16
            invariant
                i <= 16,
                forall|k: int|
                    0 <= k < 16 ==> #[trigger] palette_array@[k] == if k < i && k < palette@.len() {
                        palette@[k]
                    } else {
                        RGBA12 { data: 3584 }
                    },
            decreases 16 - i,
        {
            if i < palette.len() {
                palette_array[i] = palette[i];
            }
            i += 1;
        }
        Self { palette: palette_array, palette_head: palette.len() as u8 }
    }

    /// The number of palette entries in use.
    pub fn color_count(&self) -> (r: u8)
        ensures
            r == self.count(),
    {
        self.palette_head
    }

    /// Restores the default palette, with no entry in use.
    pub fn reset_palettes(&mut self)
        ensures
            final(self).colors() == default_palette_spec(),
            final(self).count() == 0,
    {
        self.palette = default_palette();
        self.palette_head = 0;
    }

    /// Sets the count of entries in use back to `color_count`; the colors stay.
    pub fn restore_state(&mut self, color_count: u8, color_mapping_count: u8)
        requires
            color_count <= 16,
            color_mapping_count <= 16,
        ensures
            final(self).colors() == old(self).colors(),
            final(self).count() == color_count,
    {
        self.palette_head = color_count;
    }

    /// Puts `color` in the next free entry and returns that entry's id.
    pub fn push_color(&mut self, color: RGBA12) -> (r: ColorID)
        requires
            old(self).count() < 16,
        ensures
            r.0 == old(self).count(),
            final(self).colors() == old(self).colors().update(old(self).count(), color),
            final(self).count() == old(self).count() + 1,
    {
        let id = ColorID(self.palette_head);
        self.palette[self.palette_head as usize] = color;
        self.palette_head += 1;
        id
    }

    /// Loads the default palette, with all 16 entries in use.
    pub fn load_default(&mut self)
        ensures
            final(self).colors() == default_palette_spec(),
            final(self).count() == 16,
    {
        self.palette = default_palette();
        self.palette_head = 16;
    }

    /// Replaces the color in entry `id`.
    pub fn set_color(&mut self, id: ColorID, color: RGBA12)
        requires
            id.0 < 16,
        ensures
            final(self).colors() == old(self).colors().update(id.0 as int, color),
            final(self).count() == old(self).count(),
    {
        self.palette[id.0 as usize] = color;
    }

    /// Adds the colors that the bank does not hold yet, and returns for each color of
    /// `colors` the entry that holds it (the remaining entries of the remap are 0). Where a
    /// new color finds no free entry the append stops with an error; the colors added
    /// before that stay.
    pub fn append(&mut self, colors: &[RGBA12]) -> (r: Result<[u8; 16], &'static str>)
        requires
            old(self).count() <= 16,
            colors@.len() <= 16,
        ensures
            final(self).colors() == append_colors(old(self).colors(), old(self).count(), colors@).0,
            final(self).count() == append_colors(old(self).colors(), old(self).count(), colors@).1,
            r is Ok <==> append_colors(old(self).colors(), old(self).count(), colors@).3,
            r matches Ok(remap) ==> forall|i: int|
                0 <= i < 16 ==> #[trigger] remap@[i] == if i < colors@.len() {
                    append_colors(old(self).colors(), old(self).count(), colors@).2[i]
                } else {
                    0
                },
            r matches Err(e) ==> e == "Not enough space in bank for colors",
    {
        let ghost pal0 = self.palette@;
        let ghost count0 = self.count();
        let mut color_remap = [0u8; 16];
        let mut src_color_idx: usize = 0;
        proof {
            lemma_append_colors(pal0, count0, colors@.take(0));
            assert(colors@.take(0) =~= Seq::<RGBA12>::empty());
        }
        while src_color_idx < colors.len()
            invariant
                pal0 == old(self).colors(),
                count0 == old(self).count(),
                pal0.len() == 16,
                0 <= count0 <= 16,
                colors@.len() <= 16,
                src_color_idx <= colors@.len(),
                append_colors(pal0, count0, colors@.take(src_color_idx as int)).3,
                self.palette@ == append_colors(pal0, count0, colors@.take(src_color_idx as int)).0,
                self.count() == append_colors(pal0, count0, colors@.take(src_color_idx as int)).1,
                self.count() <= 16,
                forall|i: int|
                    0 <= i < 16 ==> #[trigger] color_remap@[i] == if i < src_color_idx {
                        append_colors(pal0, count0, colors@.take(src_color_idx as int)).2[i]
                    } else {
                        0
                    },
                append_colors(pal0, count0, colors@.take(src_color_idx as int)).2.len()
                    == src_color_idx,
            decreases colors@.len() - src_color_idx,
        {
            let src_color = colors[src_color_idx];
            let ghost prefix = colors@.take(src_color_idx as int);
            let ghost next = colors@.take(src_color_idx + 1);
            proof {
                assert(next.drop_last() =~= prefix);
                assert(next.last() == src_color);
                lemma_append_colors(pal0, count0, next);
            }
            let mut found_idx: Option<usize> = None;
            let mut dest_color_idx: usize = 0;
            while dest_color_idx < self.palette_head as usize
                invariant_except_break
                    found_idx is None,
                invariant
                    self.count() <= 16,
                    self.palette@.len() == 16,
                    dest_color_idx <= self.count(),
                    forall|k: int| 0 <= k < dest_color_idx ==> self.palette@[k] != src_color,
                ensures
                    found_idx is None ==> forall|k: int|
                        0 <= k < self.count() ==> self.palette@[k] != src_color,
                    found_idx matches Some(f) ==> f == find_color(
                        self.palette@,
                        src_color,
                        0,
                        self.count(),
                    ) && f < 16,
                decreases self.count() - dest_color_idx,
            {
                if self.palette[dest_color_idx] == src_color {
                    proof {
                        lemma_find_color_at(self.palette@, src_color, dest_color_idx as int, self.count());
                    }
                    found_idx = Some(dest_color_idx);
                    break;
                }
                dest_color_idx += 1;
            }
            proof {
                lemma_find_color(self.palette@, src_color, 0, self.count());
            }
            if let Some(existing_idx) = found_idx {
                color_remap[src_color_idx] = existing_idx as u8;
            } else {
                if self.palette_head >= 16 {
                    proof {
                        assert(!append_colors(pal0, count0, next).3);
                        assert(append_colors(pal0, count0, next).0 == self.palette@);
                        lemma_append_stops(pal0, count0, colors@, src_color_idx + 1);
                    }
                    return Err("Not enough space in bank for colors");
                }
                color_remap[src_color_idx] = self.palette_head;
                self.palette[self.palette_head as usize] = src_color;
                self.palette_head += 1;
            }
            src_color_idx += 1;
        }
        proof {
            assert(colors@.take(colors@.len() as int) =~= colors@);
        }
        Ok(color_remap)
    }
}

/// Once a color finds no place, the rest of the colors change nothing.
proof fn lemma_append_stops(pal: Seq<RGBA12>, count: int, colors: Seq<RGBA12>, i: int)
    requires
        0 <= i <= colors.len(),
        !append_colors(pal, count, colors.take(i)).3,
    ensures
        append_colors(pal, count, colors) == append_colors(pal, count, colors.take(i)),
    decreases colors.len() - i,
{
    if i < colors.len() {
        assert(colors.drop_last().take(i) =~= colors.take(i));
        lemma_append_stops(pal, count, colors.drop_last(), i);
    } else {
        assert(colors.take(i) =~= colors);
    }
}

/// When no entry before `k` holds the color and entry `k` does, `k` is the first match.
proof fn lemma_find_color_at(pal: Seq<RGBA12>, c: RGBA12, k: int, head: int)
    requires
        0 <= k < head <= pal.len(),
        pal[k] == c,
        forall|j: int| 0 <= j < k ==> pal[j] != c,
    ensures
        find_color(pal, c, 0, head) == k,
{
    lemma_find_color_at_from(pal, c, 0, k, head);
}

proof fn lemma_find_color_at_from(pal: Seq<RGBA12>, c: RGBA12, s: int, k: int, head: int)
    requires
        0 <= s <= k < head <= pal.len(),
        pal[k] == c,
        forall|j: int| 0 <= j < k ==> pal[j] != c,
    ensures
        find_color(pal, c, s, head) == k,
    decreases k - s,
{
    if s < k {
        lemma_find_color_at_from(pal, c, s + 1, k, head);
    }
}

} // verus!
