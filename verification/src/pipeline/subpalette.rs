//! Sub-palettes: the up to four main-palette colors a tile is drawn with, and the builder
//! that shares them between tiles.

use vstd::prelude::*;
use std::collections::HashMap;

verus! {

/// Number of colors a tile (2 bits per pixel) can use.
pub const COLORS_PER_TILE: u8 = 4;

/// The position of the first `v` in `s` at or after `i`.
pub open spec fn index_from(s: Seq<u8>, v: u8, i: int) -> Option<int>
    decreases s.len() - i,
{
    if i < 0 || i >= s.len() {
        None
    } else if s[i] == v {
        Some(i)
    } else {
        index_from(s, v, i + 1)
    }
}

/// The map from each color of `s` to its position; a repeated color maps to its last
/// position.
pub open spec fn mapping_of(s: Seq<u8>) -> Map<u8, u8>
    decreases s.len(),
{
    if s.len() == 0 {
        Map::empty()
    } else {
        mapping_of(s.drop_last()).insert(s.last(), (s.len() - 1) as u8)
    }
}

/// What `index_from` finds.
pub proof fn lemma_index_from(s: Seq<u8>, v: u8, i: int)
    requires
        0 <= i,
    ensures
        match index_from(s, v, i) {
            Some(k) => i <= k < s.len() && s[k] == v && forall|j: int| i <= j < k ==> s[j] != v,
            None => forall|j: int| i <= j < s.len() ==> s[j] != v,
        },
    decreases s.len() - i,
{
    if i < s.len() && s[i] != v {
        lemma_index_from(s, v, i + 1);
    }
}

/// The keys of `mapping_of(s)` are the colors of `s`, and each maps below `s.len()`.
pub proof fn lemma_mapping_of(s: Seq<u8>)
    requires
        s.len() <= 256,
    ensures
        forall|c: u8| #[trigger] mapping_of(s).contains_key(c) <==> s.contains(c),
        forall|c: u8|
            #[trigger] mapping_of(s).contains_key(c) ==> mapping_of(s)[c] < s.len() && s[mapping_of(s)[c] as int] == c,
    decreases s.len(),
{
    if s.len() > 0 {
        let t = s.drop_last();
        let n = s.len() - 1;
        lemma_mapping_of(t);
        assert(s[n] == s.last());
        assert forall|c: u8| #[trigger] mapping_of(s).contains_key(c) <==> s.contains(c) by {
            assert(mapping_of(s) == mapping_of(t).insert(s.last(), n as u8));
            assert(mapping_of(t).contains_key(c) <==> t.contains(c));
            if c == s.last() {
                assert(s.contains(c));
            } else {
                if s.contains(c) {
                    let k = choose|k: int| 0 <= k < s.len() && s[k] == c;
                    assert(k != n);
                    assert(t[k] == c);
                    assert(t.contains(c));
                }
                if t.contains(c) {
                    let k = choose|k: int| 0 <= k < t.len() && t[k] == c;
                    assert(s[k] == c);
                }
            }
        }
        assert forall|c: u8| #[trigger] mapping_of(s).contains_key(c) implies mapping_of(s)[c] < s.len()
            && s[mapping_of(s)[c] as int] == c by {
            if c == s.last() {
                assert(mapping_of(s)[c] == n as u8);
                assert(n as u8 == n);
            } else {
                assert(mapping_of(t).contains_key(c));
                assert(mapping_of(s)[c] == mapping_of(t)[c]);
                assert(t[mapping_of(t)[c] as int] == c);
            }
        }
    }
}

/// The colors a tile is drawn with: `count` colors of the main palette, in order.
#[derive(Debug, Clone, Copy, Default, PartialEq, Eq, Hash)]
pub struct SubPalette {
    pub colors: [u8; 4],
    pub count: u8,
}

impl SubPalette {
    /// At most four colors are in use.
    pub open spec fn wf(self) -> bool {
        self.count <= COLORS_PER_TILE
    }

    /// The colors in use, in order.
    pub open spec fn color_seq(self) -> Seq<u8> {
        self.colors@.take(self.count as int)
    }

    /// The sub-palette with `v` stored after its colors.
    pub open spec fn with_color(self, v: u8) -> SubPalette {
        SubPalette {
            colors: vstd::array::spec_array_update(self.colors, self.count as int, v),
            count: (self.count + 1) as u8,
        }
    }

    /// The sub-palette after pushing `v`: unchanged when it holds `v` already.
    pub open spec fn pushed(self, v: u8) -> SubPalette {
        if self.color_seq().contains(v) {
            self
        } else {
            self.with_color(v)
        }
    }

    /// The sub-palette holding the colors of `source` (up to four) in order.
    pub fn from(source: &[u8]) -> (r: Self)
        requires
            source@.len() <= COLORS_PER_TILE,
        ensures
            r.wf(),
            r.count == source@.len(),
            r.color_seq() == source@,
            forall|i: int| source@.len() <= i < 4 ==> r.colors@[i] == 0,
    {
        let mut colors: [u8; 4] = [0u8; 4];
        let mut i: usize = 0;
        while i < source.len()
            invariant
                i <= source@.len() <= 4,
                forall|k: int| 0 <= k < i ==> colors@[k] == source@[k],
                forall|k: int| i <= k < 4 ==> colors@[k] == 0,
            decreases source@.len() - i,
        {
            colors[i] = source[i];
            i += 1;
        }
        let r = Self { colors, count: source.len() as u8 };
        assert(r.color_seq() =~= source@);
        r
    }

    /// The map from each color in use to its position (a repeated color to its last).
    pub fn generate_mapping(&self) -> (r: HashMap<u8, u8>)
        requires
            self.wf(),
        ensures
            r@ == mapping_of(self.color_seq()),
    {
        let colors = self.colors();
        let mut result: HashMap<u8, u8> = HashMap::new();
        let mut i: usize = 0;
        while i < colors.len()
            invariant
                i <= colors@.len() <= 4,
                colors@ == self.color_seq(),
                result@ == mapping_of(colors@.take(i as int)),
            decreases colors@.len() - i,
        {
            result.insert(colors[i], i as u8);
            proof {
                assert(colors@.take(i + 1).drop_last() =~= colors@.take(i as int));
            }
            i += 1;
        }
        proof {
            assert(colors@.take(colors@.len() as int) =~= colors@);
        }
        result
    }

    /// Adds the color `value` unless it is in use already.
    pub fn push(&mut self, value: u8)
        requires
            old(self).wf(),
            old(self).color_seq().contains(value) || old(self).count < COLORS_PER_TILE,
        ensures
            *final(self) == old(self).pushed(value),
            final(self).wf(),
    {
        let found = find(value, self.colors());
        if found.is_none() {
            proof {
                lemma_index_from(self.color_seq(), value, 0);
            }
            let count = self.count;
            self.colors[count as usize] = value;
            self.count = count + 1;
        } else {
            proof {
                lemma_index_from(self.color_seq(), value, 0);
            }
        }
    }

    /// The colors in use, in order.
    pub fn colors(&self) -> (r: &[u8])
        requires
            self.wf(),
        ensures
            r@ == self.color_seq(),
    {
        vstd::slice::slice_subrange(self.colors.as_slice(), 0, self.count as usize)
    }
}

/// The position of the first `value` in `colors`.
pub fn find(value: u8, colors: &[u8]) -> (r: Option<usize>)
    ensures
        r matches Some(i) ==> index_from(colors@, value, 0) == Some(i as int),
        r is None ==> index_from(colors@, value, 0) is None,
{
    let mut i: usize = 0;
    while i < colors.len()
        invariant
            i <= colors@.len(),
            index_from(colors@, value, 0) == index_from(colors@, value, i as int),
        decreases colors@.len() - i,
    {
        if colors[i] == value {
            return Some(i);
        }
        i += 1;
    }
    None
}

/// Number of sub-palettes a builder holds: one per color mapping of a video bank.
pub const SUBPALETTE_COUNT: u8 = 16;

/// `Some` of the value `m` maps `k` to, or `None` when `k` is not a key.
pub open spec fn map_get(m: Map<u8, u8>, k: u8) -> Option<u8> {
    if m.contains_key(k) {
        Some(m[k])
    } else {
        None
    }
}

/// What trying to take the colors `colors`, in order, into the candidate `c` gives, with
/// the map `m` of where each color goes: a color the candidate holds goes to its first
/// position there; another one is added at the end when there is room. Without room the
/// attempt fails, and the colors added so far stay.
pub open spec fn absorb(c: SubPalette, colors: Seq<u8>, m: Map<u8, u8>) -> (SubPalette, Map<u8, u8>, bool)
    decreases colors.len(),
{
    if colors.len() == 0 {
        (c, m, true)
    } else {
        let color = colors[0];
        match index_from(c.color_seq(), color, 0) {
            Some(i) => absorb(c, colors.drop_first(), m.insert(color, i as u8)),
            None => if c.count < COLORS_PER_TILE {
                absorb(c.with_color(color), colors.drop_first(), m.insert(color, c.count))
            } else {
                (c, m, false)
            },
        }
    }
}

/// Like `absorb`, but each color must also go where the map says already: the candidate's
/// own map of its colors and `m` must agree on it (both without it, or both with the same
/// position), else the attempt fails.
pub open spec fn absorb_exact(c: SubPalette, colors: Seq<u8>, m: Map<u8, u8>) -> (SubPalette, Map<u8, u8>, bool)
    decreases colors.len(),
{
    if colors.len() == 0 {
        (c, m, true)
    } else {
        let color = colors[0];
        let agree = map_get(mapping_of(c.color_seq()), color) == map_get(m, color);
        match index_from(c.color_seq(), color, 0) {
            Some(i) => if agree {
                absorb_exact(c, colors.drop_first(), m.insert(color, i as u8))
            } else {
                (c, m, false)
            },
            None => if c.count < COLORS_PER_TILE && agree {
                absorb_exact(c.with_color(color), colors.drop_first(), m.insert(color, c.count))
            } else {
                (c, m, false)
            },
        }
    }
}

/// Trying the incoming sub-palette on the candidate `c`, starting from the incoming
/// sub-palette's own map of its colors.
pub open spec fn attempt(c: SubPalette, incoming: SubPalette, exact: bool) -> (SubPalette, Map<u8, u8>, bool) {
    if exact {
        absorb_exact(c, incoming.color_seq(), mapping_of(incoming.color_seq()))
    } else {
        absorb(c, incoming.color_seq(), mapping_of(incoming.color_seq()))
    }
}

/// The sub-palettes after trying `incoming` on each of them in order from `from`, each
/// keeping what the attempt did to it, up to the first that takes it; and that one's
/// position and color map, if any.
pub open spec fn search(data: Seq<SubPalette>, incoming: SubPalette, exact: bool, from: int) -> (
    Seq<SubPalette>,
    Option<(int, Map<u8, u8>)>,
)
    decreases data.len() - from,
{
    if from < 0 || from >= data.len() {
        (data, None)
    } else {
        let a = attempt(data[from], incoming, exact);
        let data2 = data.update(from, a.0);
        if a.2 {
            (data2, Some((from, a.1)))
        } else {
            search(data2, incoming, exact, from + 1)
        }
    }
}

/// The position last recorded for the sub-palette `k`.
pub open spec fn lookup(known: Seq<(SubPalette, u8)>, k: SubPalette) -> Option<u8>
    decreases known.len(),
{
    if known.len() == 0 {
        None
    } else if known.last().0 == k {
        Some(known.last().1)
    } else {
        lookup(known.drop_last(), k)
    }
}

/// The state and answer after force-inserting `incoming`: it goes at the end, and its
/// colors map to their own positions.
pub open spec fn insert_outcome(data: Seq<SubPalette>, known: Seq<(SubPalette, u8)>, incoming: SubPalette) -> (
    Seq<SubPalette>,
    Seq<(SubPalette, u8)>,
    u8,
    Map<u8, u8>,
) {
    (
        data.push(incoming),
        known.push((incoming, data.len() as u8)),
        data.len() as u8,
        mapping_of(incoming.color_seq()),
    )
}

/// The state and answer after adding `incoming`: a sub-palette added before gives its
/// position back, with the current colors of that entry; else the first entry that can
/// take its colors (adding the missing ones) does; else it is inserted.
pub open spec fn add_outcome(data: Seq<SubPalette>, known: Seq<(SubPalette, u8)>, incoming: SubPalette) -> (
    Seq<SubPalette>,
    Seq<(SubPalette, u8)>,
    u8,
    Map<u8, u8>,
) {
    match lookup(known, incoming) {
        Some(p) => (data, known, p, mapping_of(data[p as int].color_seq())),
        None => {
            let s = search(data, incoming, false, 0);
            match s.1 {
                Some(found) => (s.0, known.push((incoming, found.0 as u8)), found.0 as u8, found.1),
                None => insert_outcome(s.0, known, incoming),
            }
        },
    }
}

/// The state and answer after adding `incoming` with `add_new`: the first entry whose
/// colors agree with it takes it; else it is inserted.
pub open spec fn add_new_outcome(data: Seq<SubPalette>, known: Seq<(SubPalette, u8)>, incoming: SubPalette) -> (
    Seq<SubPalette>,
    Seq<(SubPalette, u8)>,
    u8,
    Map<u8, u8>,
) {
    let s = search(data, incoming, true, 0);
    match s.1 {
        Some(found) => (s.0, known.push((incoming, found.0 as u8)), found.0 as u8, found.1),
        None => insert_outcome(s.0, known, incoming),
    }
}





/// The colors in use of `after` start with those of `before`.
pub open spec fn extends(after: SubPalette, before: SubPalette) -> bool {
    before.color_seq().is_prefix_of(after.color_seq())
}

/// Each color of `sp` is mapped by `m` to a position of `entry` holding that color.
pub open spec fn maps_into(sp: SubPalette, entry: SubPalette, m: Map<u8, u8>) -> bool {
    forall|k: u8|
        #[trigger] sp.color_seq().contains(k) ==> m.contains_key(k) && m[k] < entry.count
            && entry.color_seq()[m[k] as int] == k
}

/// Every color of `sp` is in use in `entry`.
pub open spec fn colors_within(sp: SubPalette, entry: SubPalette) -> bool {
    forall|k: u8| #[trigger] sp.color_seq().contains(k) ==> entry.color_seq().contains(k)
}

/// The invariant of a builder's sub-palettes and records: at most `SUBPALETTE_COUNT` valid
/// sub-palettes, and each recorded sub-palette's colors are all in use in the entry
/// recorded for it.
pub open spec fn builder_inv(data: Seq<SubPalette>, known: Seq<(SubPalette, u8)>) -> bool {
    &&& data.len() <= SUBPALETTE_COUNT
    &&& forall|i: int| 0 <= i < data.len() ==> (#[trigger] data[i]).wf()
    &&& forall|j: int|
        0 <= j < known.len() ==> (#[trigger] known[j]).1 < data.len() && colors_within(
            known[j].0,
            data[known[j].1 as int],
        )
}

/// Adding a color at the end extends the colors in use by it.
pub proof fn lemma_with_color(c: SubPalette, v: u8)
    requires
        c.count < COLORS_PER_TILE,
    ensures
        c.with_color(v).color_seq() == c.color_seq().push(v),
        c.with_color(v).wf(),
        extends(c.with_color(v), c),
{
    assert(c.with_color(v).colors@ == c.colors@.update(c.count as int, v));
    assert(c.with_color(v).color_seq() =~= c.color_seq().push(v));
    assert(c.color_seq() =~= c.with_color(v).color_seq().subrange(0, c.color_seq().len() as int));
}

/// Pushing never repeats a color: the colors in use stay free of repeats.
pub proof fn lemma_push_no_repeats(c: SubPalette, v: u8)
    requires
        c.wf(),
        c.color_seq().contains(v) || c.count < COLORS_PER_TILE,
        c.color_seq().no_duplicates(),
    ensures
        c.pushed(v).color_seq().no_duplicates(),
{
    if !c.color_seq().contains(v) {
        lemma_with_color(c, v);
        let t = c.pushed(v).color_seq();
        assert forall|i: int, j: int| 0 <= i < j < t.len() implies t[i] != t[j] by {
            if j == t.len() - 1 {
                assert(t[i] == c.color_seq()[i]);
            }
        }
    }
}

/// Extension is transitive.
pub proof fn lemma_extends_trans(a: SubPalette, b: SubPalette, c: SubPalette)
    requires
        extends(a, b),
        extends(b, c),
    ensures
        extends(a, c),
{
    let n = c.color_seq().len() as int;
    assert(c.color_seq() =~= a.color_seq().subrange(0, n)) by {
        assert(b.color_seq().subrange(0, n) =~= a.color_seq().subrange(0, n));
    }
}

/// A color in use stays in use in an extension.
pub proof fn lemma_extends_contains(after: SubPalette, before: SubPalette, k: u8)
    requires
        extends(after, before),
        before.color_seq().contains(k),
    ensures
        after.color_seq().contains(k),
{
    let i = choose|i: int| 0 <= i < before.color_seq().len() && before.color_seq()[i] == k;
    assert(after.color_seq()[i] == before.color_seq()[i]);
}

/// What `absorb` gives: a valid extension of the candidate, a map that differs from `m`
/// only on the colors tried, and on success a position in the result for each of them.
pub proof fn lemma_absorb(c: SubPalette, colors: Seq<u8>, m: Map<u8, u8>)
    requires
        c.wf(),
    ensures
        absorb(c, colors, m).0.wf(),
        extends(absorb(c, colors, m).0, c),
        forall|k: u8| !colors.contains(k) ==> #[trigger] map_get(absorb(c, colors, m).1, k) == map_get(m, k),
        absorb(c, colors, m).2 ==> forall|k: u8|
            #[trigger] colors.contains(k) ==> absorb(c, colors, m).1.contains_key(k) && absorb(c, colors, m).1[k]
                < absorb(c, colors, m).0.count && absorb(c, colors, m).0.color_seq()[absorb(c, colors, m).1[k] as int]
                == k,
    decreases colors.len(),
{
    assert(c.color_seq().is_prefix_of(c.color_seq())) by {
        assert(c.color_seq() =~= c.color_seq().subrange(0, c.color_seq().len() as int));
    }
    if colors.len() > 0 {
        let color = colors[0];
        let rest = colors.drop_first();
        let r = absorb(c, colors, m);
        assert forall|k: u8| #[trigger] colors.contains(k) <==> (k == color || rest.contains(k)) by {
            if colors.contains(k) && k != color {
                let i = choose|i: int| 0 <= i < colors.len() && colors[i] == k;
                assert(rest[i - 1] == k);
            }
            if rest.contains(k) {
                let i = choose|i: int| 0 <= i < rest.len() && rest[i] == k;
                assert(colors[i + 1] == k);
            }
            if k == color {
                assert(colors[0] == k);
            }
        }
        lemma_index_from(c.color_seq(), color, 0);
        match index_from(c.color_seq(), color, 0) {
            Some(i) => {
                let m1 = m.insert(color, i as u8);
                lemma_absorb(c, rest, m1);
                assert(r == absorb(c, rest, m1));
                if r.2 {
                    assert(map_get(r.1, color) == map_get(m1, color) || rest.contains(color));
                    assert forall|k: u8| #[trigger] colors.contains(k) implies r.1.contains_key(k) && r.1[k] < r.0.count
                        && r.0.color_seq()[r.1[k] as int] == k by {
                        if !rest.contains(k) {
                            assert(k == color);
                            assert(map_get(r.1, k) == map_get(m1, k));
                            assert(r.0.color_seq()[i] == c.color_seq()[i]);
                        }
                    }
                }
            },
            None => {
                if c.count < COLORS_PER_TILE {
                    let c2 = c.with_color(color);
                    let m1 = m.insert(color, c.count);
                    lemma_with_color(c, color);
                    lemma_absorb(c2, rest, m1);
                    lemma_extends_trans(r.0, c2, c);
                    if r.2 {
                        assert forall|k: u8| #[trigger] colors.contains(k) implies r.1.contains_key(k) && r.1[k]
                            < r.0.count && r.0.color_seq()[r.1[k] as int] == k by {
                            if !rest.contains(k) {
                                assert(k == color);
                                assert(map_get(r.1, k) == map_get(m1, k));
                                assert(c2.color_seq()[c.count as int] == color);
                                assert(r.0.color_seq()[c.count as int] == c2.color_seq()[c.count as int]);
                            }
                        }
                    }
                }
            },
        }
    }
}

/// What `absorb_exact` gives, as `lemma_absorb` says of `absorb`.
pub proof fn lemma_absorb_exact(c: SubPalette, colors: Seq<u8>, m: Map<u8, u8>)
    requires
        c.wf(),
    ensures
        absorb_exact(c, colors, m).0.wf(),
        extends(absorb_exact(c, colors, m).0, c),
        forall|k: u8| !colors.contains(k) ==> #[trigger] map_get(absorb_exact(c, colors, m).1, k) == map_get(m, k),
        absorb_exact(c, colors, m).2 ==> forall|k: u8|
            #[trigger] colors.contains(k) ==> absorb_exact(c, colors, m).1.contains_key(k) && absorb_exact(
                c,
                colors,
                m,
            ).1[k] < absorb_exact(c, colors, m).0.count && absorb_exact(c, colors, m).0.color_seq()[absorb_exact(
                c,
                colors,
                m,
            ).1[k] as int] == k,
    decreases colors.len(),
{
    assert(c.color_seq().is_prefix_of(c.color_seq())) by {
        assert(c.color_seq() =~= c.color_seq().subrange(0, c.color_seq().len() as int));
    }
    if colors.len() > 0 {
        let color = colors[0];
        let rest = colors.drop_first();
        let r = absorb_exact(c, colors, m);
        let agree = map_get(mapping_of(c.color_seq()), color) == map_get(m, color);
        assert forall|k: u8| #[trigger] colors.contains(k) <==> (k == color || rest.contains(k)) by {
            if colors.contains(k) && k != color {
                let i = choose|i: int| 0 <= i < colors.len() && colors[i] == k;
                assert(rest[i - 1] == k);
            }
            if rest.contains(k) {
                let i = choose|i: int| 0 <= i < rest.len() && rest[i] == k;
                assert(colors[i + 1] == k);
            }
            if k == color {
                assert(colors[0] == k);
            }
        }
        lemma_index_from(c.color_seq(), color, 0);
        match index_from(c.color_seq(), color, 0) {
            Some(i) => {
                if agree {
                    let m1 = m.insert(color, i as u8);
                    lemma_absorb_exact(c, rest, m1);
                    if r.2 {
                        assert forall|k: u8| #[trigger] colors.contains(k) implies r.1.contains_key(k) && r.1[k]
                            < r.0.count && r.0.color_seq()[r.1[k] as int] == k by {
                            if !rest.contains(k) {
                                assert(k == color);
                                assert(map_get(r.1, k) == map_get(m1, k));
                                assert(r.0.color_seq()[i] == c.color_seq()[i]);
                            }
                        }
                    }
                }
            },
            None => {
                if c.count < COLORS_PER_TILE && agree {
                    let c2 = c.with_color(color);
                    let m1 = m.insert(color, c.count);
                    lemma_with_color(c, color);
                    lemma_absorb_exact(c2, rest, m1);
                    lemma_extends_trans(r.0, c2, c);
                    if r.2 {
                        assert forall|k: u8| #[trigger] colors.contains(k) implies r.1.contains_key(k) && r.1[k]
                            < r.0.count && r.0.color_seq()[r.1[k] as int] == k by {
                            if !rest.contains(k) {
                                assert(k == color);
                                assert(map_get(r.1, k) == map_get(m1, k));
                                assert(c2.color_seq()[c.count as int] == color);
                                assert(r.0.color_seq()[c.count as int] == c2.color_seq()[c.count as int]);
                            }
                        }
                    }
                }
            },
        }
    }
}

/// What an attempt gives: a valid extension of the candidate, and on success a map
/// placing each incoming color in it.
pub proof fn lemma_attempt(c: SubPalette, incoming: SubPalette, exact: bool)
    requires
        c.wf(),
    ensures
        attempt(c, incoming, exact).0.wf(),
        extends(attempt(c, incoming, exact).0, c),
        attempt(c, incoming, exact).2 ==> maps_into(incoming, attempt(c, incoming, exact).0, attempt(c, incoming, exact).1),
{
    let a = attempt(c, incoming, exact);
    if exact {
        lemma_absorb_exact(c, incoming.color_seq(), mapping_of(incoming.color_seq()));
    } else {
        lemma_absorb(c, incoming.color_seq(), mapping_of(incoming.color_seq()));
    }
    if a.2 {
        assert forall|k: u8| #[trigger] incoming.color_seq().contains(k) implies a.1.contains_key(k) && a.1[k]
            < a.0.count && a.0.color_seq()[a.1[k] as int] == k by {
        }
    }
}

/// Searching extends every sub-palette, keeps them valid, and a found entry holds every
/// incoming color where the map says.
pub proof fn lemma_search_props(data: Seq<SubPalette>, incoming: SubPalette, exact: bool, from: int)
    requires
        0 <= from,
        forall|i: int| 0 <= i < data.len() ==> (#[trigger] data[i]).wf(),
    ensures
        search(data, incoming, exact, from).0.len() == data.len(),
        forall|i: int|
            0 <= i < data.len() ==> (#[trigger] search(data, incoming, exact, from).0[i]).wf() && extends(
                search(data, incoming, exact, from).0[i],
                data[i],
            ),
        search(data, incoming, exact, from).1 matches Some(f) ==> from <= f.0 < data.len() && maps_into(
            incoming,
            search(data, incoming, exact, from).0[f.0],
            f.1,
        ),
    decreases data.len() - from,
{
    if from < data.len() {
        let a = attempt(data[from], incoming, exact);
        lemma_attempt(data[from], incoming, exact);
        let data2 = data.update(from, a.0);
        assert forall|i: int| 0 <= i < data2.len() implies (#[trigger] data2[i]).wf() && extends(data2[i], data[i]) by {
            if i != from {
                assert(data[i].color_seq() =~= data[i].color_seq().subrange(0, data[i].color_seq().len() as int));
            }
        }
        if !a.2 {
            lemma_search_props(data2, incoming, exact, from + 1);
            let s = search(data2, incoming, exact, from + 1);
            assert forall|i: int| 0 <= i < data.len() implies (#[trigger] s.0[i]).wf() && extends(s.0[i], data[i]) by {
                lemma_extends_trans(s.0[i], data2[i], data[i]);
            }
        }
    } else {
        assert forall|i: int| 0 <= i < data.len() implies (#[trigger] data[i]).wf() && extends(data[i], data[i]) by {
            assert(data[i].color_seq() =~= data[i].color_seq().subrange(0, data[i].color_seq().len() as int));
        }
    }
}

/// Replacing a sub-palette by a valid extension of it keeps the builder invariant.
pub proof fn lemma_extend_entry_inv(data: Seq<SubPalette>, known: Seq<(SubPalette, u8)>, i: int, c: SubPalette)
    requires
        builder_inv(data, known),
        0 <= i < data.len(),
        c.wf(),
        extends(c, data[i]),
    ensures
        builder_inv(data.update(i, c), known),
{
    let d2 = data.update(i, c);
    assert forall|j: int| 0 <= j < known.len() implies (#[trigger] known[j]).1 < d2.len() && colors_within(
        known[j].0,
        d2[known[j].1 as int],
    ) by {
        let p = known[j].1 as int;
        if p == i {
            assert forall|k: u8| #[trigger] known[j].0.color_seq().contains(k) implies d2[p].color_seq().contains(k) by {
                lemma_extends_contains(c, data[i], k);
            }
        }
    }
}

/// Searching keeps the builder invariant.
pub proof fn lemma_search_inv(data: Seq<SubPalette>, known: Seq<(SubPalette, u8)>, incoming: SubPalette, exact: bool)
    requires
        builder_inv(data, known),
    ensures
        builder_inv(search(data, incoming, exact, 0).0, known),
{
    lemma_search_props(data, incoming, exact, 0);
    let d2 = search(data, incoming, exact, 0).0;
    assert forall|j: int| 0 <= j < known.len() implies (#[trigger] known[j]).1 < d2.len() && colors_within(
        known[j].0,
        d2[known[j].1 as int],
    ) by {
        let p = known[j].1 as int;
        assert forall|k: u8| #[trigger] known[j].0.color_seq().contains(k) implies d2[p].color_seq().contains(k) by {
            lemma_extends_contains(d2[p], data[p], k);
        }
    }
}

/// Recording a sub-palette at an entry that holds all its colors keeps the invariant.
pub proof fn lemma_record_inv(data: Seq<SubPalette>, known: Seq<(SubPalette, u8)>, sp: SubPalette, p: int)
    requires
        builder_inv(data, known),
        0 <= p < data.len(),
        colors_within(sp, data[p]),
    ensures
        builder_inv(data, known.push((sp, p as u8))),
{
    let k2 = known.push((sp, p as u8));
    assert forall|j: int| 0 <= j < k2.len() implies (#[trigger] k2[j]).1 < data.len() && colors_within(
        k2[j].0,
        data[k2[j].1 as int],
    ) by {
        if j < known.len() {
            assert(k2[j] == known[j]);
        } else {
            assert((p as u8) as int == p);
        }
    }
}

/// A map placing the colors of `sp` in `entry` means `entry` holds them all.
pub proof fn lemma_maps_into_within(sp: SubPalette, entry: SubPalette, m: Map<u8, u8>)
    requires
        maps_into(sp, entry, m),
        entry.wf(),
    ensures
        colors_within(sp, entry),
{
    assert(entry.color_seq().len() == entry.count);
    assert forall|k: u8| #[trigger] sp.color_seq().contains(k) implies entry.color_seq().contains(k) by {
        assert(entry.color_seq()[m[k] as int] == k);
    }
}

/// A sub-palette's own color map places its colors in itself.
pub proof fn lemma_own_mapping(sp: SubPalette, entry: SubPalette)
    requires
        sp.wf(),
        entry.wf(),
        colors_within(sp, entry),
    ensures
        maps_into(sp, entry, mapping_of(entry.color_seq())),
{
    lemma_mapping_of(entry.color_seq());
    assert forall|k: u8| #[trigger] sp.color_seq().contains(k) implies mapping_of(entry.color_seq()).contains_key(k)
        && mapping_of(entry.color_seq())[k] < entry.count && entry.color_seq()[mapping_of(entry.color_seq())[k] as int]
        == k by {
        assert(entry.color_seq().contains(k));
        assert(mapping_of(entry.color_seq()).contains_key(k));
    }
}

/// Inserting keeps the builder invariant.
pub proof fn lemma_insert_inv(data: Seq<SubPalette>, known: Seq<(SubPalette, u8)>, sp: SubPalette)
    requires
        builder_inv(data, known),
        sp.wf(),
        data.len() < SUBPALETTE_COUNT,
    ensures
        builder_inv(insert_outcome(data, known, sp).0, insert_outcome(data, known, sp).1),
{
    let d2 = data.push(sp);
    assert forall|i: int| 0 <= i < d2.len() implies (#[trigger] d2[i]).wf() by {
        if i < data.len() {
            assert(d2[i] == data[i]);
        }
    }
    assert(builder_inv(d2, known)) by {
        assert forall|j: int| 0 <= j < known.len() implies (#[trigger] known[j]).1 < d2.len() && colors_within(
            known[j].0,
            d2[known[j].1 as int],
        ) by {
            assert(d2[known[j].1 as int] == data[known[j].1 as int]);
        }
    }
    assert(colors_within(sp, d2[data.len() as int]));
    lemma_record_inv(d2, known, sp, data.len() as int);
}

/// Whether adding `incoming` has room: it was added before, or an entry can take it, or
/// there is room for one more.
pub open spec fn add_fits(data: Seq<SubPalette>, known: Seq<(SubPalette, u8)>, incoming: SubPalette) -> bool {
    lookup(known, incoming) is Some || search(data, incoming, false, 0).1 is Some || data.len()
        < SUBPALETTE_COUNT
}

/// Whether adding `incoming` with `add_new` has room: an entry agrees with it, or there is
/// room for one more.
pub open spec fn add_new_fits(data: Seq<SubPalette>, known: Seq<(SubPalette, u8)>, incoming: SubPalette) -> bool {
    search(data, incoming, true, 0).1 is Some || data.len() < SUBPALETTE_COUNT
}

/// A recorded position comes with its sub-palette.
proof fn lemma_lookup_entry(known: Seq<(SubPalette, u8)>, k: SubPalette)
    ensures
        lookup(known, k) matches Some(p) ==> exists|i: int| 0 <= i < known.len() && #[trigger] known[i] == (k, p),
    decreases known.len(),
{
    if known.len() > 0 {
        if known.last().0 == k {
            assert(known[known.len() - 1] == (k, known.last().1));
        } else {
            lemma_lookup_entry(known.drop_last(), k);
            if let Some(p) = lookup(known.drop_last(), k) {
                let i = choose|i: int| 0 <= i < known.drop_last().len() && #[trigger] known.drop_last()[i] == (k, p);
                assert(known[i] == known.drop_last()[i]);
            }
        }
    }
}

/// Adding keeps the builder invariant.
pub proof fn lemma_add_inv(data: Seq<SubPalette>, known: Seq<(SubPalette, u8)>, incoming: SubPalette)
    requires
        builder_inv(data, known),
        incoming.wf(),
        add_fits(data, known, incoming),
    ensures
        builder_inv(add_outcome(data, known, incoming).0, add_outcome(data, known, incoming).1),
{
    if lookup(known, incoming) is None {
        lemma_search_inv(data, known, incoming, false);
        lemma_search_props(data, incoming, false, 0);
        let s = search(data, incoming, false, 0);
        match s.1 {
            Some(f) => {
                lemma_maps_into_within(incoming, s.0[f.0], f.1);
                lemma_record_inv(s.0, known, incoming, f.0);
            },
            None => {
                lemma_insert_inv(s.0, known, incoming);
            },
        }
    }
}

/// Adding with `add_new` keeps the builder invariant.
pub proof fn lemma_add_new_inv(data: Seq<SubPalette>, known: Seq<(SubPalette, u8)>, incoming: SubPalette)
    requires
        builder_inv(data, known),
        incoming.wf(),
        add_new_fits(data, known, incoming),
    ensures
        builder_inv(add_new_outcome(data, known, incoming).0, add_new_outcome(data, known, incoming).1),
{
    lemma_search_inv(data, known, incoming, true);
    lemma_search_props(data, incoming, true, 0);
    let s = search(data, incoming, true, 0);
    match s.1 {
        Some(f) => {
            lemma_maps_into_within(incoming, s.0[f.0], f.1);
            lemma_record_inv(s.0, known, incoming, f.0);
        },
        None => {
            lemma_insert_inv(s.0, known, incoming);
        },
    }
}

/// The map that adding a sub-palette gives back places each of its colors at a position
/// of the sub-palette it went to that holds that color.
pub proof fn lemma_add_mapping(data: Seq<SubPalette>, known: Seq<(SubPalette, u8)>, incoming: SubPalette)
    requires
        builder_inv(data, known),
        incoming.wf(),
        add_fits(data, known, incoming),
    ensures
        ({
            let o = add_outcome(data, known, incoming);
            o.2 < o.0.len() && maps_into(incoming, o.0[o.2 as int], o.3)
        }),
{
    match lookup(known, incoming) {
        Some(p) => {
            lemma_lookup_entry(known, incoming);
            let i = choose|i: int| 0 <= i < known.len() && #[trigger] known[i] == (incoming, p);
            assert(known[i].1 == p);
            lemma_own_mapping(incoming, data[p as int]);
        },
        None => {
            lemma_search_props(data, incoming, false, 0);
            let s = search(data, incoming, false, 0);
            match s.1 {
                Some(f) => {
                    assert((f.0 as u8) as int == f.0);
                },
                None => {
                    assert(s.0.push(incoming)[s.0.len() as int] == incoming);
                    assert(colors_within(incoming, incoming));
                    lemma_own_mapping(incoming, incoming);
                    assert((s.0.len() as u8) as int == s.0.len());
                },
            }
        },
    }
}

/// The map that `add_new` gives back places each color of the sub-palette at a position
/// of the sub-palette it went to that holds that color.
pub proof fn lemma_add_new_mapping(data: Seq<SubPalette>, known: Seq<(SubPalette, u8)>, incoming: SubPalette)
    requires
        builder_inv(data, known),
        incoming.wf(),
        add_new_fits(data, known, incoming),
    ensures
        ({
            let o = add_new_outcome(data, known, incoming);
            o.2 < o.0.len() && maps_into(incoming, o.0[o.2 as int], o.3)
        }),
{
    lemma_search_props(data, incoming, true, 0);
    let s = search(data, incoming, true, 0);
    match s.1 {
        Some(f) => {
            assert((f.0 as u8) as int == f.0);
        },
        None => {
            assert(s.0.push(incoming)[s.0.len() as int] == incoming);
            assert(colors_within(incoming, incoming));
            lemma_own_mapping(incoming, incoming);
            assert((s.0.len() as u8) as int == s.0.len());
        },
    }
}

/// Adding the same sub-palette again changes nothing and gives the same position, with
/// the current map of that entry's colors.
pub proof fn lemma_add_again(data: Seq<SubPalette>, known: Seq<(SubPalette, u8)>, incoming: SubPalette)
    requires
        builder_inv(data, known),
        incoming.wf(),
        add_fits(data, known, incoming),
    ensures
        ({
            let o = add_outcome(data, known, incoming);
            add_outcome(o.0, o.1, incoming) == (o.0, o.1, o.2, mapping_of(o.0[o.2 as int].color_seq()))
        }),
{
    let o = add_outcome(data, known, incoming);
    if lookup(known, incoming) is None {
        assert(o.1.last() == (incoming, o.2));
        assert(lookup(o.1, incoming) == Some(o.2));
    }
}

/// The value `m` holds for `k`.
fn map_lookup(m: &HashMap<u8, u8>, k: u8) -> (r: Option<u8>)
    ensures
        r == map_get(m@, k),
{
    match m.get(&k) {
        Some(v) => Some(*v),
        None => None,
    }
}

/// Tries to take the colors of `incoming` into `candidate`; see `attempt`.
fn absorb_into(candidate: &mut SubPalette, incoming: &SubPalette, exact: bool) -> (r: (HashMap<u8, u8>, bool))
    requires
        old(candidate).wf(),
        incoming.wf(),
    ensures
        final(candidate).wf(),
        ({
            let a = attempt(*old(candidate), *incoming, exact);
            *final(candidate) == a.0 && r.0@ == a.1 && r.1 == a.2
        }),
{
    let colors = incoming.colors();
    let ghost all = incoming.color_seq();
    let mut mapping = incoming.generate_mapping();
    let mut j: usize = 0;
    proof {
        assert(all.skip(0) =~= all);
    }
    while j < colors.len()
        invariant
            j <= colors@.len() <= 4,
            colors@ == all,
            candidate.wf(),
            incoming.wf(),
            attempt(*old(candidate), *incoming, exact) == (if exact {
                absorb_exact(*candidate, all.skip(j as int), mapping@)
            } else {
                absorb(*candidate, all.skip(j as int), mapping@)
            }),
        decreases colors@.len() - j,
    {
        let color = colors[j];
        let ghost rest = all.skip(j as int);
        proof {
            assert(rest[0] == color);
            assert(rest.drop_first() =~= all.skip(j + 1));
        }
        let agree = if exact {
            let candidate_mapping = candidate.generate_mapping();
            map_lookup(&candidate_mapping, color) == map_lookup(&mapping, color)
        } else {
            true
        };
        let found = find(color, candidate.colors());
        match found {
            Some(index) => {
                if !agree {
                    return (mapping, false);
                }
                proof {
                    lemma_index_from(candidate.color_seq(), color, 0);
                }
                mapping.insert(color, index as u8);
            },
            None => {
                if candidate.count < COLORS_PER_TILE && agree {
                    mapping.insert(color, candidate.count);
                    proof {
                        lemma_index_from(candidate.color_seq(), color, 0);
                    }
                    candidate.push(color);
                } else {
                    return (mapping, false);
                }
            },
        }
        j += 1;
    }
    proof {
        assert(all.skip(j as int).len() == 0);
    }
    (mapping, true)
}

/// Where an added sub-palette went, and where each of its colors is in the sub-palette
/// it went to.
pub struct SubPaletteInsert {
    pub position: u8,
    pub mapping: HashMap<u8, u8>,
}

/// Collects the sub-palettes of a set of tiles, sharing one between tiles where their
/// colors fit in it.
pub struct SubPaletteBuilder {
    known: Vec<(SubPalette, u8)>,
    data: Vec<SubPalette>,
}

impl SubPaletteBuilder {
    /// The sub-palettes, in order.
    pub closed spec fn entries(&self) -> Seq<SubPalette> {
        self.data@
    }

    /// The sub-palettes added so far with the position each went to, latest last.
    pub closed spec fn known(&self) -> Seq<(SubPalette, u8)> {
        self.known@
    }

    /// The builder invariant holds of its sub-palettes and records.
    pub open spec fn wf(&self) -> bool {
        builder_inv(self.entries(), self.known())
    }

    /// An empty builder.
    pub fn new() -> (r: Self)
        ensures
            r.wf(),
            r.entries().len() == 0,
            r.known().len() == 0,
    {
        Self { known: Vec::new(), data: Vec::new() }
    }

    /// The sub-palettes, in order.
    pub fn data(&self) -> (r: &[SubPalette])
        ensures
            r@ == self.entries(),
    {
        self.data.as_slice()
    }

    /// Whether no sub-palette was added.
    pub fn is_empty(&self) -> (r: bool)
        ensures
            r == (self.entries().len() == 0),
    {
        self.data.len() == 0
    }

    /// The position last recorded for `k`.
    fn lookup_known(&self, k: &SubPalette) -> (r: Option<u8>)
        ensures
            r == lookup(self.known(), *k),
    {
        let mut i = self.known.len();
        proof {
            assert(self.known@.take(i as int) =~= self.known@);
        }
        while i > 0
            invariant
                i <= self.known@.len(),
                lookup(self.known@, *k) == lookup(self.known@.take(i as int), *k),
            decreases i,
        {
            let entry = self.known[i - 1];
            proof {
                assert(self.known@.take(i as int).last() == entry);
                assert(self.known@.take(i as int).drop_last() =~= self.known@.take(i - 1));
            }
            if same_sub_palette(&entry.0, k) {
                return Some(entry.1);
            }
            i -= 1;
        }
        None
    }

    /// Tries `incoming` on each sub-palette in order; see `search`.
    fn search_entries(&mut self, incoming: &SubPalette, exact: bool) -> (r: Option<(u8, HashMap<u8, u8>)>)
        requires
            old(self).wf(),
            incoming.wf(),
        ensures
            final(self).wf(),
            final(self).known() == old(self).known(),
            ({
                let s = search(old(self).entries(), *incoming, exact, 0);
                &&& final(self).entries() == s.0
                &&& match r {
                    Some(found) => s.1 == Some((found.0 as int, found.1@)),
                    None => s.1 is None,
                }
            }),
    {
        let ghost start = self.data@;
        let n = self.data.len();
        let mut position: usize = 0;
        while position < n
            invariant
                n == self.entries().len() == start.len() <= SUBPALETTE_COUNT,
                start == old(self).entries(),
                position <= n,
                self.wf(),
                self.known() == old(self).known(),
                incoming.wf(),
                search(start, *incoming, exact, 0) == search(self.entries(), *incoming, exact, position as int),
            decreases n - position,
        {
            let mut candidate = self.data[position];
            let ghost before = self.data@;
            proof {
                assert(before[position as int].wf());
                lemma_attempt(before[position as int], *incoming, exact);
            }
            let (mapping, is_match) = absorb_into(&mut candidate, incoming, exact);
            self.data.set(position, candidate);
            proof {
                let a = attempt(before[position as int], *incoming, exact);
                assert(self.data@ == before.update(position as int, a.0));
                lemma_extend_entry_inv(before, self.known@, position as int, a.0);
            }
            if is_match {
                proof {
                    assert(search(before, *incoming, exact, position as int) == (
                        self.data@,
                        Some((position as int, mapping@)),
                    ));
                    assert((position as u8) as int == position);
                    assert(start == old(self).entries());
                    assert(self.entries() == search(old(self).entries(), *incoming, exact, 0).0);
                }
                return Some((position as u8, mapping));
            }
            position += 1;
        }
        None
    }

    /// Force-inserts `subpalette` at the end, without looking for a match.
    pub fn insert(&mut self, subpalette: SubPalette) -> (r: SubPaletteInsert)
        requires
            old(self).wf(),
            subpalette.wf(),
            old(self).entries().len() < SUBPALETTE_COUNT,
        ensures
            final(self).wf(),
            (final(self).entries(), final(self).known(), r.position, r.mapping@) == insert_outcome(
                old(self).entries(),
                old(self).known(),
                subpalette,
            ),
    {
        let position = self.data.len();
        let mapping = subpalette.generate_mapping();
        proof {
            lemma_insert_inv(self.data@, self.known@, subpalette);
        }
        self.known.push((subpalette, position as u8));
        self.data.push(subpalette);
        SubPaletteInsert { position: position as u8, mapping }
    }

    /// Adds `incoming`: gives back where it was put before, or shares the first
    /// sub-palette that can take its colors (adding the missing ones), or inserts it.
    pub fn add(&mut self, incoming: SubPalette) -> (r: SubPaletteInsert)
        requires
            old(self).wf(),
            incoming.wf(),
            add_fits(old(self).entries(), old(self).known(), incoming),
        ensures
            final(self).wf(),
            (final(self).entries(), final(self).known(), r.position, r.mapping@) == add_outcome(
                old(self).entries(),
                old(self).known(),
                incoming,
            ),
    {
        if let Some(i) = self.lookup_known(&incoming) {
            proof {
                lemma_lookup_entry(self.known@, incoming);
            }
            let entry = self.data[i as usize];
            return SubPaletteInsert { position: i, mapping: entry.generate_mapping() };
        }
        proof {
            lemma_search_props(self.data@, incoming, false, 0);
        }
        match self.search_entries(&incoming, false) {
            Some((position, mapping)) => {
                proof {
                    lemma_maps_into_within(incoming, self.data@[position as int], mapping@);
                    lemma_record_inv(self.data@, self.known@, incoming, position as int);
                }
                self.known.push((incoming, position));
                SubPaletteInsert { position, mapping }
            },
            None => self.insert(incoming),
        }
    }

    /// Adds `incoming`, sharing the first sub-palette whose colors agree with it (each of
    /// its colors at the same position), or inserting it.
    pub fn add_new(&mut self, incoming: SubPalette) -> (r: SubPaletteInsert)
        requires
            old(self).wf(),
            incoming.wf(),
            add_new_fits(old(self).entries(), old(self).known(), incoming),
        ensures
            final(self).wf(),
            (final(self).entries(), final(self).known(), r.position, r.mapping@) == add_new_outcome(
                old(self).entries(),
                old(self).known(),
                incoming,
            ),
    {
        proof {
            lemma_search_props(self.data@, incoming, true, 0);
        }
        match self.search_entries(&incoming, true) {
            Some((position, mapping)) => {
                proof {
                    lemma_maps_into_within(incoming, self.data@[position as int], mapping@);
                    lemma_record_inv(self.data@, self.known@, incoming, position as int);
                }
                self.known.push((incoming, position));
                SubPaletteInsert { position, mapping }
            },
            None => self.insert(incoming),
        }
    }
}

impl Default for SubPaletteBuilder {
    fn default() -> (r: Self)
        ensures
            r.wf(),
            r.entries().len() == 0,
            r.known().len() == 0,
    {
        Self::new()
    }
}


/// Whether two sub-palettes are the same: same count and same four colors.
fn same_sub_palette(a: &SubPalette, b: &SubPalette) -> (r: bool)
    ensures
        r == (*a == *b),
{
    let same = a.count == b.count && a.colors[0] == b.colors[0] && a.colors[1] == b.colors[1] && a.colors[2]
        == b.colors[2] && a.colors[3] == b.colors[3];
    proof {
        if same {
            assert(a.colors =~= b.colors);
        }
    }
    same
}

} // verus!