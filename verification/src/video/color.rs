use vstd::prelude::*;
use crate::decimal::{decimal_chars, push_decimal_chars};

verus! {

/// Unique identifier for a color in the main palettes.
#[derive(Debug, Clone, Copy, PartialEq, Eq, Structural, Hash)]
pub struct ColorID(pub u8);

impl ColorID {
    /// The identifier as an index.
    pub fn id(self) -> (r: usize)
        ensures
            r == self.0,
    {
        self.0 as usize
    }
}

impl From<ColorID> for u8 {
    fn from(value: ColorID) -> (r: Self) {
        value.0
    }
}

impl vstd::std_specs::convert::FromSpecImpl<ColorID> for u8 {
    open spec fn obeys_from_spec() -> bool {
        true
    }

    open spec fn from_spec(v: ColorID) -> Self {
        v.0
    }
}

/// The packed value of a color: 4 bits of z-buffer priority, then 3 bits each of
/// alpha, red, green and blue.
pub open spec fn pack12(z: u16, a: u16, r: u16, g: u16, b: u16) -> u16 {
    (z << 12) | (a << 9) | (r << 6) | (g << 3) | b
}

/// The 3-bit field of `data` that starts at bit `shift`.
pub open spec fn field3(data: u16, shift: u16) -> u16 {
    (data >> shift) & 7
}

/// Packing five fields and reading them back gives the fields.
pub proof fn lemma_pack12(z: u16, a: u16, r: u16, g: u16, b: u16)
    by (bit_vector)
    requires
        z < 16,
        a < 8,
        r < 8,
        g < 8,
        b < 8,
    ensures
        (pack12(z, a, r, g, b) >> 12) & 15 == z,
        (pack12(z, a, r, g, b) >> 9) & 7 == a,
        (pack12(z, a, r, g, b) >> 6) & 7 == r,
        (pack12(z, a, r, g, b) >> 3) & 7 == g,
        pack12(z, a, r, g, b) & 7 == b,
{
}

/// Every 16-bit value is the packing of its own fields.
pub proof fn lemma_unpack12(data: u16)
    by (bit_vector)
    ensures
        data == pack12((data >> 12) & 15, (data >> 9) & 7, (data >> 6) & 7, (data >> 3) & 7, data & 7),
{
}

/// Every field read from a 16-bit value is in its range.
pub proof fn lemma_field_ranges(d: u16)
    by (bit_vector)
    ensures
        (d >> 12) & 15 < 16,
        (d >> 9) & 7 < 8,
        (d >> 6) & 7 < 8,
        (d >> 3) & 7 < 8,
        d & 7 < 8,
{
}

/// Packing alpha and the channels with no priority bits is packing with priority 0.
pub proof fn lemma_pack_without_z(a: u16, r: u16, g: u16, b: u16)
    by (bit_vector)
    ensures
        (a << 9) | (r << 6) | (g << 3) | b == pack12(0, a, r, g, b),
{
}

/// Overwriting one field of a packed value is packing the other fields with the new one.
pub proof fn lemma_set_field(d: u16, v: u16)
    by (bit_vector)
    ensures
        v < 8 ==> (d & !(7u16 << 6)) | (v << 6) == pack12((d >> 12) & 15, (d >> 9) & 7, v, (d >> 3) & 7, d & 7),
        v < 8 ==> (d & !(7u16 << 3)) | (v << 3) == pack12((d >> 12) & 15, (d >> 9) & 7, (d >> 6) & 7, v, d & 7),
        v < 8 ==> (d & !7u16) | v == pack12((d >> 12) & 15, (d >> 9) & 7, (d >> 6) & 7, (d >> 3) & 7, v),
        v < 8 ==> (d & !(7u16 << 9)) | (v << 9) == pack12((d >> 12) & 15, v, (d >> 6) & 7, (d >> 3) & 7, d & 7),
        v < 16 ==> (d & !(15u16 << 12)) | (v << 12) == pack12(v, (d >> 9) & 7, (d >> 6) & 7, (d >> 3) & 7, d & 7),
{
}

/// A color of the main palettes: 3 bits per channel (512 colors) plus 3 bits of alpha,
/// and a 4-bit z-buffer priority (higher values render in front).
#[derive(Debug, Clone, Copy, Default, PartialEq, Eq, Structural, Hash)]
pub struct RGBA12 {
    pub data: u16,
}

impl RGBA12 {
    /// Fully transparent black.
    pub fn transparent() -> (c: Self)
        ensures
            c == (Self { data: 0 }),
    {
        Self { data: 0 }
    }

    /// Opaque color (0, 0, 0).
    pub fn black() -> (c: Self)
        ensures
            c == (Self { data: 3584 }),
    {
        Self { data: 3584 }
    }

    /// Opaque color (4, 4, 4).
    pub fn gray() -> (c: Self)
        ensures
            c == (Self { data: 3876 }),
    {
        Self { data: 3876 }
    }

    /// Opaque color (7, 7, 7).
    pub fn white() -> (c: Self)
        ensures
            c == (Self { data: 4095 }),
    {
        Self { data: 4095 }
    }

    /// Opaque color (3, 0, 0).
    pub fn dark_red() -> (c: Self)
        ensures
            c == (Self { data: 3776 }),
    {
        Self { data: 3776 }
    }

    /// Opaque color (5, 2, 2).
    pub fn red() -> (c: Self)
        ensures
            c == (Self { data: 3922 }),
    {
        Self { data: 3922 }
    }

    /// Opaque color (7, 5, 5).
    pub fn light_red() -> (c: Self)
        ensures
            c == (Self { data: 4077 }),
    {
        Self { data: 4077 }
    }

    /// Opaque color (6, 4, 1).
    pub fn orange() -> (c: Self)
        ensures
            c == (Self { data: 4001 }),
    {
        Self { data: 4001 }
    }

    /// Opaque color (7, 6, 3).
    pub fn yellow() -> (c: Self)
        ensures
            c == (Self { data: 4083 }),
    {
        Self { data: 4083 }
    }

    /// Opaque color (0, 2, 1).
    pub fn dark_green() -> (c: Self)
        ensures
            c == (Self { data: 3601 }),
    {
        Self { data: 3601 }
    }

    /// Opaque color (2, 4, 2).
    pub fn green() -> (c: Self)
        ensures
            c == (Self { data: 3746 }),
    {
        Self { data: 3746 }
    }

    /// Opaque color (4, 6, 3).
    pub fn light_green() -> (c: Self)
        ensures
            c == (Self { data: 3891 }),
    {
        Self { data: 3891 }
    }

    /// Opaque color (0, 1, 3).
    pub fn dark_blue() -> (c: Self)
        ensures
            c == (Self { data: 3595 }),
    {
        Self { data: 3595 }
    }

    /// Opaque color (1, 2, 6).
    pub fn blue() -> (c: Self)
        ensures
            c == (Self { data: 3670 }),
    {
        Self { data: 3670 }
    }

    /// Opaque color (4, 6, 7).
    pub fn light_blue() -> (c: Self)
        ensures
            c == (Self { data: 3895 }),
    {
        Self { data: 3895 }
    }

    /// Opaque color (6, 3, 6).
    pub fn pink() -> (c: Self)
        ensures
            c == (Self { data: 3998 }),
    {
        Self { data: 3998 }
    }

    /// Red channel, 0 to 7.
    pub open spec fn spec_r(self) -> u16 {
        (self.data >> 6) & 7
    }

    /// Green channel, 0 to 7.
    pub open spec fn spec_g(self) -> u16 {
        (self.data >> 3) & 7
    }

    /// Blue channel, 0 to 7.
    pub open spec fn spec_b(self) -> u16 {
        self.data & 7
    }

    /// Alpha channel, 0 to 7.
    pub open spec fn spec_a(self) -> u16 {
        (self.data >> 9) & 7
    }

    /// Z-buffer priority, 0 to 15.
    pub open spec fn spec_z(self) -> u16 {
        (self.data >> 12) & 15
    }

    /// An opaque color (alpha 7, z 0) with the given channels.
    pub fn new(r: u8, g: u8, b: u8) -> (c: Self)
        requires
            r < 8,
            g < 8,
            b < 8,
        ensures
            c.data == pack12(0, 7, r as u16, g as u16, b as u16),
    {
        let packed_data = ((7u16) << 9) | ((r as u16) << 6) | ((g as u16) << 3) | (b as u16);
        proof {
            let (rr, gg, bb) = (r as u16, g as u16, b as u16);
            lemma_pack_without_z(7, rr, gg, bb);
        }
        Self { data: packed_data }
    }

    /// A color (z 0) with the given channels and alpha.
    pub fn with_transparency(r: u8, g: u8, b: u8, a: u8) -> (c: Self)
        requires
            r < 8,
            g < 8,
            b < 8,
            a < 8,
        ensures
            c.data == pack12(0, a as u16, r as u16, g as u16, b as u16),
    {
        let packed_data = ((a as u16) << 9) | ((r as u16) << 6) | ((g as u16) << 3) | (b as u16);
        proof {
            let (aa, rr, gg, bb) = (a as u16, r as u16, g as u16, b as u16);
            lemma_pack_without_z(aa, rr, gg, bb);
        }
        Self { data: packed_data }
    }

    /// Red channel.
    pub fn r(&self) -> (v: u8)
        ensures
            v == self.spec_r(),
    {
        proof {
            let d = self.data;
            lemma_field_ranges(d);
        }
        (self.data >> 6 & 0b_0111) as u8
    }

    /// Green channel.
    pub fn g(&self) -> (v: u8)
        ensures
            v == self.spec_g(),
    {
        proof {
            let d = self.data;
            lemma_field_ranges(d);
        }
        (self.data >> 3 & 0b_0111) as u8
    }

    /// Blue channel.
    pub fn b(&self) -> (v: u8)
        ensures
            v == self.spec_b(),
    {
        proof {
            let d = self.data;
            lemma_field_ranges(d);
        }
        (self.data & 0b_0111) as u8
    }

    /// Alpha channel.
    pub fn a(&self) -> (v: u8)
        ensures
            v == self.spec_a(),
    {
        proof {
            let d = self.data;
            lemma_field_ranges(d);
        }
        (self.data >> 9 & 0b_0111) as u8
    }

    /// Z-buffer priority.
    pub fn z(&self) -> (v: u8)
        ensures
            v == self.spec_z(),
    {
        proof {
            let d = self.data;
            lemma_field_ranges(d);
        }
        (self.data >> 12 & 0b_1111) as u8
    }

    /// Sets the red channel.
    pub fn set_r(&mut self, r: u8)
        requires
            r < 8,
        ensures
            final(self).data == pack12(old(self).spec_z(), old(self).spec_a(), r as u16, old(self).spec_g(), old(self).spec_b()),
    {
        let d = self.data;
        self.data = (self.data & !(0b_0111 << 6)) | ((r as u16) << 6);
        proof {
            let rr = r as u16;
            lemma_set_field(d, rr);
        }
    }

    /// Sets the green channel.
    pub fn set_g(&mut self, g: u8)
        requires
            g < 8,
        ensures
            final(self).data == pack12(old(self).spec_z(), old(self).spec_a(), old(self).spec_r(), g as u16, old(self).spec_b()),
    {
        let d = self.data;
        self.data = (self.data & !(0b_0111 << 3)) | ((g as u16) << 3);
        proof {
            let gg = g as u16;
            lemma_set_field(d, gg);
        }
    }

    /// Sets the blue channel.
    pub fn set_b(&mut self, b: u8)
        requires
            b < 8,
        ensures
            final(self).data == pack12(old(self).spec_z(), old(self).spec_a(), old(self).spec_r(), old(self).spec_g(), b as u16),
    {
        let d = self.data;
        self.data = (self.data & !(0b_0111)) | (b as u16);
        proof {
            let bb = b as u16;
            lemma_set_field(d, bb);
        }
    }

    /// Sets the alpha channel.
    pub fn set_a(&mut self, a: u8)
        requires
            a < 8,
        ensures
            final(self).data == pack12(old(self).spec_z(), a as u16, old(self).spec_r(), old(self).spec_g(), old(self).spec_b()),
    {
        let d = self.data;
        self.data = (self.data & !(0b_0111 << 9)) | ((a as u16) << 9);
        proof {
            let aa = a as u16;
            lemma_set_field(d, aa);
        }
    }

    /// Sets the z-buffer priority.
    pub fn set_z(&mut self, z: u8)
        requires
            z < 16,
        ensures
            final(self).data == pack12(z as u16, old(self).spec_a(), old(self).spec_r(), old(self).spec_g(), old(self).spec_b()),
    {
        let d = self.data;
        self.data = (self.data & !(0b_1111 << 12)) | ((z as u16) << 12);
        proof {
            let zz = z as u16;
            lemma_set_field(d, zz);
        }
    }

    /// The color with the given z-buffer priority.
    pub fn with_z(self, z: u8) -> (c: Self)
        requires
            z < 16,
        ensures
            c.data == pack12(z as u16, self.spec_a(), self.spec_r(), self.spec_g(), self.spec_b()),
    {
        let mut result = self;
        result.set_z(z);
        result
    }

    /// The text of the color: its channels and z priority, in decimal.
    pub open spec fn text(self) -> Seq<char> {
        "RGBA12(r: "@ + decimal_chars(self.spec_r() as nat) + ", g: "@ + decimal_chars(
            self.spec_g() as nat,
        ) + ", b: "@ + decimal_chars(self.spec_b() as nat) + ", a: "@ + decimal_chars(
            self.spec_a() as nat,
        ) + ", z: "@ + decimal_chars(self.spec_z() as nat) + ")"@
    }

    /// Writes the color as text: `RGBA12(r: _, g: _, b: _, a: _, z: _)`.
    pub fn to_string(&self) -> (r: String)
        ensures
            r@ == self.text(),
    {
        let mut out = String::new();
        out.append("RGBA12(r: ");
        push_decimal_chars(&mut out, self.r() as u64);
        out.append(", g: ");
        push_decimal_chars(&mut out, self.g() as u64);
        out.append(", b: ");
        push_decimal_chars(&mut out, self.b() as u64);
        out.append(", a: ");
        push_decimal_chars(&mut out, self.a() as u64);
        out.append(", z: ");
        push_decimal_chars(&mut out, self.z() as u64);
        out.append(")");
        assert(out@ =~= self.text());
        out
    }
}

/// The output format of pixels: 8 bits per channel.
#[derive(Debug, Clone, Copy, PartialEq, Eq, Structural, Hash)]
pub struct RGBA32 {
    pub r: u8,
    pub g: u8,
    pub b: u8,
    pub a: u8,
}

impl RGBA32 {
    /// Opaque white.
    pub fn white() -> (c: Self)
        ensures
            c == (Self { r: 255, g: 255, b: 255, a: 255 }),
    {
        Self { r: 255, g: 255, b: 255, a: 255 }
    }

    /// Opaque black.
    pub fn black() -> (c: Self)
        ensures
            c == (Self { r: 0, g: 0, b: 0, a: 255 }),
    {
        Self { r: 0, g: 0, b: 0, a: 255 }
    }

    /// Opaque gray.
    pub fn gray() -> (c: Self)
        ensures
            c == (Self { r: 128, g: 128, b: 128, a: 255 }),
    {
        Self { r: 128, g: 128, b: 128, a: 255 }
    }

    /// Opaque light gray.
    pub fn light_gray() -> (c: Self)
        ensures
            c == (Self { r: 192, g: 192, b: 192, a: 255 }),
    {
        Self { r: 192, g: 192, b: 192, a: 255 }
    }

    /// Opaque dark gray.
    pub fn dark_gray() -> (c: Self)
        ensures
            c == (Self { r: 64, g: 64, b: 64, a: 255 }),
    {
        Self { r: 64, g: 64, b: 64, a: 255 }
    }

    /// Opaque red.
    pub fn red() -> (c: Self)
        ensures
            c == (Self { r: 255, g: 0, b: 0, a: 255 }),
    {
        Self { r: 255, g: 0, b: 0, a: 255 }
    }

    /// Opaque green.
    pub fn green() -> (c: Self)
        ensures
            c == (Self { r: 0, g: 255, b: 0, a: 255 }),
    {
        Self { r: 0, g: 255, b: 0, a: 255 }
    }

    /// Opaque blue.
    pub fn blue() -> (c: Self)
        ensures
            c == (Self { r: 0, g: 0, b: 255, a: 255 }),
    {
        Self { r: 0, g: 0, b: 255, a: 255 }
    }

    /// Opaque yellow.
    pub fn yellow() -> (c: Self)
        ensures
            c == (Self { r: 255, g: 255, b: 0, a: 255 }),
    {
        Self { r: 255, g: 255, b: 0, a: 255 }
    }

    /// Opaque cyan.
    pub fn cyan() -> (c: Self)
        ensures
            c == (Self { r: 0, g: 255, b: 255, a: 255 }),
    {
        Self { r: 0, g: 255, b: 255, a: 255 }
    }

    /// Opaque magenta.
    pub fn magenta() -> (c: Self)
        ensures
            c == (Self { r: 255, g: 0, b: 255, a: 255 }),
    {
        Self { r: 255, g: 0, b: 255, a: 255 }
    }

    /// Fully transparent black.
    pub fn transparent() -> (c: Self)
        ensures
            c == (Self { r: 0, g: 0, b: 0, a: 0 }),
    {
        Self { r: 0, g: 0, b: 0, a: 0 }
    }
}

/// The default color is "debug pink", not meant to be seen.
impl Default for RGBA32 {
    fn default() -> (c: Self)
        ensures
            c == (RGBA32 { r: 255, g: 0, b: 255, a: 255 }),
    {
        Self { r: 255, g: 0, b: 255, a: 255 }
    }
}

/// A 3-bit channel scaled to 8 bits (about `v * 36.4`).
pub open spec fn widen_channel(v: int) -> int {
    v * 36 + v / 2
}

/// An 8-bit channel scaled down to 3 bits.
pub open spec fn narrow_channel(v: int) -> int {
    if v / 36 < 7 {
        v / 36
    } else {
        7
    }
}

/// Scales a 3-bit channel to 8 bits.
fn widen(v: u16) -> (r: u8)
    requires
        v < 8,
    ensures
        r == widen_channel(v as int),
{
    let c = v as u8;
    c * 36 + c / 2
}

/// Scales an 8-bit channel down to 3 bits.
fn narrow(v: u8) -> (r: u16)
    ensures
        r == narrow_channel(v as int),
{
    let q = v / 36;
    if q < 7 {
        q as u16
    } else {
        7
    }
}

impl From<RGBA12> for RGBA32 {
    fn from(color: RGBA12) -> (c: Self) {
        proof {
            let d = color.data;
            lemma_field_ranges(d);
        }
        Self {
            r: widen((color.data >> 6) & 0x7),
            g: widen((color.data >> 3) & 0x7),
            b: widen(color.data & 0x7),
            a: widen((color.data >> 9) & 0x7),
        }
    }
}

impl vstd::std_specs::convert::FromSpecImpl<RGBA12> for RGBA32 {
    open spec fn obeys_from_spec() -> bool {
        true
    }

    open spec fn from_spec(color: RGBA12) -> Self {
        RGBA32 {
            r: widen_channel(color.spec_r() as int) as u8,
            g: widen_channel(color.spec_g() as int) as u8,
            b: widen_channel(color.spec_b() as int) as u8,
            a: widen_channel(color.spec_a() as int) as u8,
        }
    }
}

impl From<RGBA32> for RGBA12 {
    fn from(color: RGBA32) -> (c: Self) {
        let r = narrow(color.r);
        let g = narrow(color.g);
        let b = narrow(color.b);
        let a = narrow(color.a);
        proof {
            lemma_pack_without_z(a, r, g, b);
        }
        Self { data: (a << 9) | (r << 6) | (g << 3) | b }
    }
}

impl vstd::std_specs::convert::FromSpecImpl<RGBA32> for RGBA12 {
    open spec fn obeys_from_spec() -> bool {
        true
    }

    open spec fn from_spec(color: RGBA32) -> Self {
        RGBA12 {
            data: pack12(
                0,
                narrow_channel(color.a as int) as u16,
                narrow_channel(color.r as int) as u16,
                narrow_channel(color.g as int) as u16,
                narrow_channel(color.b as int) as u16,
            ),
        }
    }
}

/// Scaling a 3-bit channel up to 8 bits and back down gives it back.
pub proof fn lemma_channel_roundtrip(v: int)
    requires
        0 <= v < 8,
    ensures
        0 <= widen_channel(v) <= 255,
        narrow_channel(widen_channel(v)) == v,
{
}

/// Converting a color to 8 bits per channel and back keeps every channel (the
/// z-buffer priority is not carried and comes back as 0).
pub proof fn lemma_rgba_roundtrip(color: RGBA12)
    ensures
        ({
            let wide = RGBA32 {
                r: widen_channel(color.spec_r() as int) as u8,
                g: widen_channel(color.spec_g() as int) as u8,
                b: widen_channel(color.spec_b() as int) as u8,
                a: widen_channel(color.spec_a() as int) as u8,
            };
            pack12(
                0,
                narrow_channel(wide.a as int) as u16,
                narrow_channel(wide.r as int) as u16,
                narrow_channel(wide.g as int) as u16,
                narrow_channel(wide.b as int) as u16,
            ) == pack12(0, color.spec_a(), color.spec_r(), color.spec_g(), color.spec_b())
        }),
{
    let d = color.data;
    lemma_field_ranges(d);
    lemma_channel_roundtrip(color.spec_r() as int);
    lemma_channel_roundtrip(color.spec_g() as int);
    lemma_channel_roundtrip(color.spec_b() as int);
    lemma_channel_roundtrip(color.spec_a() as int);
}

/// A new color reads back the channels it was made with, fully opaque and at z 0.
pub proof fn lemma_new_reads_back(r: u16, g: u16, b: u16)
    requires
        r < 8,
        g < 8,
        b < 8,
    ensures
        ({
            let c = RGBA12 { data: pack12(0, 7, r, g, b) };
            c.spec_r() == r && c.spec_g() == g && c.spec_b() == b && c.spec_a() == 7 && c.spec_z() == 0
        }),
{
    lemma_pack12(0, 7, r, g, b);
}

} // verus!
