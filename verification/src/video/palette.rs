use vstd::prelude::*;
use crate::decimal::{decimal_chars, push_decimal_chars};
use crate::math::scalar::{trunc_rem, lemma_trunc_rem_floor};
use vstd::arithmetic::div_mod::{lemma_mod_bound, lemma_add_mod_noop_right, lemma_sub_mod_noop_right, lemma_small_mod};

verus! {

/// How far to the right the nibble of `slot` sits in a packed palette.
pub open spec fn slot_shift(slot: int) -> u16 {
    if slot == 0 {
        12
    } else if slot == 1 {
        8
    } else if slot == 2 {
        4
    } else {
        0
    }
}

/// The 4-bit color index stored in `slot` (0 to 3) of the packed value `v`.
pub open spec fn nibble(v: u16, slot: int) -> u8 {
    ((v >> slot_shift(slot)) & 15u16) as u8
}

/// The four color indices packed as `a b c d`, most significant nibble first.
pub open spec fn pack_nibbles(a: u16, b: u16, c: u16, d: u16) -> u16 {
    (a << 12u16) | (b << 8u16) | (c << 4u16) | d
}

/// Packing four nibbles and reading them back, and replacing one nibble.
pub proof fn lemma_nibble_bits(v: u16, val: u16, s: u16, t: u16, a: u16, b: u16, c: u16, d: u16)
    by (bit_vector)
    requires
        s == 0 || s == 4 || s == 8 || s == 12,
        t == 0 || t == 4 || t == 8 || t == 12,
        val < 16,
        a < 16,
        b < 16,
        c < 16,
        d < 16,
    ensures
        (((v & !(15u16 << s)) | (val << s)) >> t) & 15 == (if s == t {
            val
        } else {
            (v >> t) & 15
        }),
        (v >> t) & 15 < 16,
        (((a << 12u16) | (b << 8u16) | (c << 4u16) | d) >> 12u16) & 15 == a,
        (((a << 12u16) | (b << 8u16) | (c << 4u16) | d) >> 8u16) & 15 == b,
        (((a << 12u16) | (b << 8u16) | (c << 4u16) | d) >> 4u16) & 15 == c,
        (((a << 12u16) | (b << 8u16) | (c << 4u16) | d) >> 0u16) & 15 == d,
{
}

/// Where slot `i` of a palette cycled over `start..=end` by `delta` takes its value from.
pub open spec fn cycle_source(start: int, end: int, delta: int, i: int) -> int {
    start + (i - start - delta) % (end - start + 1)
}

/// The slots `s` after rotating the range `start..=end` by `delta`: each slot of the
/// range takes the value `delta` places before it, wrapping within the range.
pub open spec fn cycled(s: Seq<u8>, start: int, end: int, delta: int) -> Seq<u8> {
    Seq::new(
        s.len(),
        |i: int|
            if start <= i <= end {
                s[cycle_source(start, end, delta, i)]
            } else {
                s[i]
            },
    )
}

/// Identifies a sub-palette a sprite is drawn with.
#[derive(Debug, Clone, Copy, PartialEq, Eq, Structural, Default, Hash)]
pub struct PaletteID(pub u8);

/// A 16-bit value holding four 4-bit color indices (slots 0 to 3, slot 0 in the most
/// significant nibble). It maps the up to four colors of a 2-bit tile to the main palette.
#[derive(Clone, Copy, PartialEq, Eq, Structural, Default, Hash, Debug)]
pub struct Palette(pub u16);

impl Palette {
    /// The four color indices, slot 0 first.
    pub open spec fn slots(self) -> Seq<u8> {
        Seq::new(4, |i: int| nibble(self.0, i))
    }

    /// The palette with the given indices in slots 0 to 3.
    pub fn new(a: u8, b: u8, c: u8, d: u8) -> (r: Self)
        requires
            a < 16,
            b < 16,
            c < 16,
            d < 16,
        ensures
            r.0 == pack_nibbles(a as u16, b as u16, c as u16, d as u16),
            r.slots() == seq![a, b, c, d],
    {
        let data = (a as u16) << 12u16 | (b as u16) << 8u16 | (c as u16) << 4u16 | d as u16;
        proof {
            let (aa, bb, cc, dd) = (a as u16, b as u16, c as u16, d as u16);
            lemma_nibble_bits(0, 0, 0, 0, aa, bb, cc, dd);
            assert(Self(data).slots() =~= seq![a, b, c, d]);
        }
        Self(data)
    }

    /// The debug text of the palette: its four slots in order.
    pub open spec fn debug_text(self) -> Seq<char> {
        "Palette(["@ + decimal_chars(self.slots()[0] as nat) + ", "@ + decimal_chars(
            self.slots()[1] as nat,
        ) + ", "@ + decimal_chars(self.slots()[2] as nat) + ", "@ + decimal_chars(
            self.slots()[3] as nat,
        ) + "])"@
    }

    /// Writes the palette for debugging: `Palette([a, b, c, d])`, slot 0 first.
    pub fn debug_string(&self) -> (r: String)
        ensures
            r@ == self.debug_text(),
    {
        let mut out = String::new();
        out.append("Palette([");
        push_decimal_chars(&mut out, self.get(0) as u64);
        out.append(", ");
        push_decimal_chars(&mut out, self.get(1) as u64);
        out.append(", ");
        push_decimal_chars(&mut out, self.get(2) as u64);
        out.append(", ");
        push_decimal_chars(&mut out, self.get(3) as u64);
        out.append("])");
        assert(out@ =~= self.debug_text());
        out
    }

    /// The identity palette: slots 0 to 3 hold the indices 0 to 3.
    pub fn default() -> (r: Self)
        ensures
            r.slots() == seq![0u8, 1u8, 2u8, 3u8],
    {
        Self::new(0, 1, 2, 3)
    }

    /// The color index in `slot`.
    pub fn get(&self, slot: u8) -> (r: u8)
        requires
            slot < 4,
        ensures
            r == self.slots()[slot as int],
            r < 16,
    {
        proof {
            lemma_nibble_bits(self.0, 0, 0, slot_shift(slot as int), 0, 0, 0, 0);
        }
        match slot {
            0 => ((self.0 >> 12u16) & 15u16) as u8,
            1 => ((self.0 >> 8u16) & 15u16) as u8,
            2 => ((self.0 >> 4u16) & 15u16) as u8,
            _ => ((self.0 >> 0u16) & 15u16) as u8,
        }
    }

    /// Stores the color index `value` in `slot`; the other slots keep theirs.
    pub fn set(&mut self, slot: u8, value: u8)
        requires
            slot < 4,
            value < 16,
        ensures
            final(self).slots() == old(self).slots().update(slot as int, value),
    {
        let shift: u16 = (3 - slot) as u16 * 4;
        let slot_mask: u16 = 15u16 << shift;
        let value_shifted = (value as u16) << shift;
        let ghost before = *self;
        self.0 = (self.0 & !slot_mask) | value_shifted;
        proof {
            assert forall|i: int| 0 <= i < 4 implies #[trigger] self.slots()[i] == before.slots().update(
                slot as int,
                value,
            )[i] by {
                lemma_nibble_bits(before.0, value as u16, shift, slot_shift(i), 0, 0, 0, 0);
            }
            assert(self.slots() =~= before.slots().update(slot as int, value));
        }
    }

    /// Rotates the slots `start_index..=end_index` by `delta` positions: slot `i` takes the
    /// index that was in the slot `delta` places before it, wrapping around within the
    /// range. Slots outside the range keep their indices.
    pub fn cycle(&mut self, start_index: u8, end_index: u8, delta: i8)
        requires
            start_index <= end_index < 4,
        ensures
            final(self).slots() == cycled(
                old(self).slots(),
                start_index as int,
                end_index as int,
                delta as int,
            ),
    {
        let arr: [u8; 4] = self.to_array();
        let ghost before = *self;
        let range_size = (end_index - start_index + 1) as isize;
        let mut i: u8 = start_index;
        while i <= end_index
            invariant
                start_index <= i <= end_index + 1,
                end_index < 4,
                range_size == end_index - start_index + 1,
                arr@ == before.slots(),
                forall|k: int| 0 <= k < 4 ==> #[trigger] arr@[k] < 16,
                forall|k: int|
                    0 <= k < 4 ==> #[trigger] self.slots()[k] == if start_index <= k < i {
                        before.slots()[cycle_source(
                            start_index as int,
                            end_index as int,
                            delta as int,
                            k,
                        )]
                    } else {
                        before.slots()[k]
                    },
            decreases end_index + 1 - i,
        {
            let current_pos = (i - start_index) as isize;
            let x = current_pos - delta as isize;
            proof {
                lemma_trunc_rem_floor(x as int, range_size as int);
            }
            let mut source_pos: isize = match x.checked_rem(range_size) {
                Some(r) => r,
                None => {
                    proof {
                        assert(false);
                    }
                    0
                },
            };
            if source_pos < 0 {
                source_pos += range_size;
            }
            let source_index = start_index + source_pos as u8;
            proof {
                lemma_mod_bound(x as int, range_size as int);
                assert(source_index as int == cycle_source(
                    start_index as int,
                    end_index as int,
                    delta as int,
                    i as int,
                ));
            }
            let ghost mid = *self;
            self.set(i, arr[source_index as usize]);
            proof {
                assert forall|k: int| 0 <= k < 4 implies #[trigger] self.slots()[k] == if start_index
                    <= k < i + 1 {
                    before.slots()[cycle_source(start_index as int, end_index as int, delta as int, k)]
                } else {
                    before.slots()[k]
                } by {
                    assert(self.slots()[k] == mid.slots().update(i as int, arr@[source_index as int])[k]);
                }
            }
            i = i + 1;
        }
        proof {
            assert(self.slots() =~= cycled(
                before.slots(),
                start_index as int,
                end_index as int,
                delta as int,
            ));
        }
    }

    /// The palette with slots 0 to 3 taken from `values`.
    pub fn from_array(values: [u8; 4]) -> (r: Self)
        requires
            values@[0] < 16,
            values@[1] < 16,
            values@[2] < 16,
            values@[3] < 16,
        ensures
            r.slots() == values@,
    {
        let r = Self::new(values[0], values[1], values[2], values[3]);
        assert(r.slots() =~= values@);
        r
    }

    /// The four color indices, slot 0 first.
    pub fn to_array(self) -> (r: [u8; 4])
        ensures
            r@ == self.slots(),
            forall|i: int| 0 <= i < 4 ==> #[trigger] r@[i] < 16,
    {
        let r = [
            ((self.0 >> 12u16) & 15u16) as u8,
            ((self.0 >> 8u16) & 15u16) as u8,
            ((self.0 >> 4u16) & 15u16) as u8,
            ((self.0 >> 0u16) & 15u16) as u8,
        ];
        proof {
            lemma_nibble_bits(self.0, 0, 0, 12, 0, 0, 0, 0);
            lemma_nibble_bits(self.0, 0, 0, 8, 0, 0, 0, 0);
            lemma_nibble_bits(self.0, 0, 0, 4, 0, 0, 0, 0);
            lemma_nibble_bits(self.0, 0, 0, 0, 0, 0, 0, 0);
            assert(r@ =~= self.slots());
        }
        r
    }
}

/// Where a slot of a range cycled by `-delta` takes its value from, cycling by `delta`
/// sends back: the two index maps undo each other.
proof fn lemma_cycle_source_inverse(start: int, end: int, delta: int, i: int)
    requires
        0 <= start <= i <= end,
    ensures
        start <= cycle_source(start, end, delta, i) <= end,
        cycle_source(start, end, delta, cycle_source(start, end, -delta, i)) == i,
{
    let n = end - start + 1;
    lemma_mod_bound(i - start - delta, n);
    lemma_mod_bound(i - start + delta, n);
    assert(((i - start + delta) % n - delta) % n == (i - start) % n) by {
        lemma_add_mod_noop_right(-delta, i - start + delta, n);
        assert(-delta + (i - start + delta) == i - start);
    }
    lemma_small_mod((i - start) as nat, n as nat);
}

/// Cycling a range of palette slots by `delta` and then by `-delta` gives every slot
/// its color index back.
pub proof fn lemma_cycle_then_back(s: Seq<u8>, start: int, end: int, delta: int)
    requires
        0 <= start <= end < s.len(),
    ensures
        cycled(cycled(s, start, end, delta), start, end, -delta) == s,
{
    let once = cycled(s, start, end, delta);
    assert forall|i: int| 0 <= i < s.len() implies #[trigger] cycled(once, start, end, -delta)[i]
        == s[i] by {
        if start <= i <= end {
            lemma_cycle_source_inverse(start, end, delta, i);
            lemma_cycle_source_inverse(start, end, -delta, i);
        }
    }
    assert(cycled(once, start, end, -delta) =~= s);
}

} // verus!
