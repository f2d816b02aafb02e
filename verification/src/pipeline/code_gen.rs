//! Rust source text for tiles.

use vstd::prelude::*;
use vstd::utf8::{valid_utf8, encode_utf8, pop_first_scalar};
use vstd::string::StringSliceAdditionalSpecFns;
use crate::arena::text::str_from_utf8;
use crate::pipeline::build_steps::range_equals;

verus! {

/// The nibble `k` (0 to 15, most significant first) of a 64-bit word.
pub open spec fn word_nibble(w: u64, k: int) -> u64 {
    (w >> ((60 - 4 * k) as u64)) & 15
}

/// The uppercase hexadecimal digit of `d` (0 to 15), as an ASCII byte.
pub open spec fn hex_digit(d: u64) -> u8 {
    if d < 10 {
        (48 + d) as u8
    } else {
        (55 + d) as u8
    }
}

/// The hex digits of pixels `16 * w .. 16 * w + 16` of a tile, one per pixel (its low 4
/// bits).
pub open spec fn pixel_digits(pixels: Seq<u8>, w: int) -> Seq<u8> {
    Seq::new(16, |k: int| hex_digit((pixels[16 * w + k] & 15) as u64))
}

/// The ASCII text `Tile::new(0x` followed by the hex digits of the first 16 pixels, then
/// `, 0x` and the next 16, and so on for the 64 pixels, then `)`.
pub open spec fn tile_code(pixels: Seq<u8>) -> Seq<u8> {
    let open_call = seq![84u8, 105, 108, 101, 58, 58, 110, 101, 119, 40, 48, 120];
    let separator = seq![44u8, 32, 48, 120];
    open_call + pixel_digits(pixels, 0) + separator + pixel_digits(pixels, 1) + separator
        + pixel_digits(pixels, 2) + separator + pixel_digits(pixels, 3) + seq![41u8]
}

/// Or-ing a nibble into an empty place of a word sets that place only.
proof fn lemma_nibble_or(a: u64, v: u64, s: u64, t: u64)
    by (bit_vector)
    requires
        v < 16,
        s <= 60,
        t <= 60,
        s & 3 == 0,
        t & 3 == 0,
    ensures
        ((a | (v << s)) >> t) & 15 == (if s == t {
            ((a >> t) & 15) | v
        } else {
            (a >> t) & 15
        }),
        (0u64 >> t) & 15 == 0,
        0u64 | v == v,
        (a >> t) & 15 < 16,
{
}

/// The shift of nibble `k` is a multiple of 4, and a byte's low nibble is below 16.
proof fn lemma_nibble_facts(k: u64, x: u8)
    by (bit_vector)
    requires
        k < 16,
    ensures
        ((60 - 4 * k) as u64) & 3 == 0,
        x & 15 < 16,
{
}

/// ASCII bytes are valid UTF-8.
proof fn lemma_ascii_valid(bytes: Seq<u8>)
    requires
        forall|i: int| 0 <= i < bytes.len() ==> #[trigger] bytes[i] < 128,
    ensures
        valid_utf8(bytes),
    decreases bytes.len(),
{
    if bytes.len() > 0 {
        let b = bytes[0];
        assert(b & 0x7F <= 0x7F) by (bit_vector);
        let rest = pop_first_scalar(bytes);
        assert(rest =~= bytes.subrange(1, bytes.len() as int));
        lemma_ascii_valid(rest);
    }
}

/// Packs 64 pixels of 4 bits into four words, two rows (16 pixels) per word, the first
/// pixel in the most significant bits.
fn pack_tile(tile_pixels: &[u8]) -> (r: [u64; 4])
    requires
        tile_pixels@.len() == 64,
    ensures
        forall|w: int, k: int|
            0 <= w < 4 && 0 <= k < 16 ==> #[trigger] word_nibble(r@[w], k) == (tile_pixels@[16 * w
                + k] & 15) as u64,
{
    let mut data = [0u64; 4];
    assert(forall|w: int| 0 <= w < 4 ==> data@[w] == 0u64);
    assert forall|w: int, k: int| 0 <= w < 4 && 0 <= k < 16 implies #[trigger] word_nibble(
        data@[w],
        k,
    ) == 0 by {
        lemma_nibble_facts(k as u64, 0);
        lemma_nibble_or(0, 0, (60 - 4 * k) as u64, (60 - 4 * k) as u64);
    }
    let mut row: usize = 0;
    while row < 8
        invariant
            row <= 8,
            tile_pixels@.len() == 64,
            forall|w: int, k: int|
                0 <= w < 4 && 0 <= k < 16 ==> #[trigger] word_nibble(data@[w], k) == if 16 * w + k
                    < 8 * row {
                    (tile_pixels@[16 * w + k] & 15) as u64
                } else {
                    0
                },
        decreases 8 - row,
    {
        // Determine which u64 this row belongs to
        let data_idx = row / 2;
        // Determine position within the u64 (first or second cluster)
        let cluster_in_u64 = row % 2;
        let mut col: usize = 0;
        while col < 8
            invariant
                row < 8,
                col <= 8,
                data_idx == row / 2,
                cluster_in_u64 == row % 2,
                tile_pixels@.len() == 64,
                forall|w: int, k: int|
                    0 <= w < 4 && 0 <= k < 16 ==> #[trigger] word_nibble(data@[w], k) == if 16 * w
                        + k < 8 * row + col {
                        (tile_pixels@[16 * w + k] & 15) as u64
                    } else {
                        0
                    },
            decreases 8 - col,
        {
            let pixel_idx = row * 8 + col;
            let pixel_val = tile_pixels[pixel_idx] & 0x0F;
            // First cluster uses bits 63-32, second cluster uses bits 31-0
            let byte_offset = if cluster_in_u64 == 0 {
                7 - (col / 2)
            } else {
                3 - (col / 2)
            };
            let bit_offset = (byte_offset * 8 + (1 - (col % 2)) * 4) as u64;
            let ghost k0 = (8 * cluster_in_u64 + col) as int;
            assert(bit_offset == 60 - 4 * k0);
            proof {
                lemma_nibble_facts(k0 as u64, tile_pixels@[pixel_idx as int]);
            }
            let ghost before = data@;
            let v = pixel_val as u64;
            data[data_idx] = data[data_idx] | (v << bit_offset);
            proof {
                assert forall|w: int, k: int| 0 <= w < 4 && 0 <= k < 16 implies #[trigger] word_nibble(
                    data@[w],
                    k,
                ) == if 16 * w + k < 8 * row + col + 1 {
                    (tile_pixels@[16 * w + k] & 15) as u64
                } else {
                    0
                } by {
                    let t = (60 - 4 * k) as u64;
                    lemma_nibble_facts(k as u64, 0);
                    if w == data_idx {
                        lemma_nibble_or(before[w], v, bit_offset, t);
                        assert(word_nibble(before[w], k) == (before[w] >> t) & 15);
                        if k == k0 {
                            assert(16 * w + k == pixel_idx);
                        }
                    }
                }
            }
            col += 1;
        }
        row += 1;
    }
    data
}

/// The hex digit of `d` (0 to 15), uppercase.
fn hex_digit_of(d: u64) -> (r: u8)
    requires
        d < 16,
    ensures
        r == hex_digit(d),
{
    if d < 10 {
        48 + d as u8
    } else {
        55 + d as u8
    }
}

/// Appends `bytes` to `out`.
fn push_all(out: &mut Vec<u8>, bytes: &[u8])
    ensures
        final(out)@ == old(out)@ + bytes@,
{
    let mut i: usize = 0;
    while i < bytes.len()
        invariant
            i <= bytes@.len(),
            out@ == old(out)@ + bytes@.take(i as int),
        decreases bytes@.len() - i,
    {
        out.push(bytes[i]);
        i += 1;
        assert(out@ =~= old(out)@ + bytes@.take(i as int));
    }
    assert(bytes@.take(bytes@.len() as int) =~= bytes@);
}

/// Appends the 16 hex digits of `word`, most significant first.
fn push_hex(out: &mut Vec<u8>, word: u64)
    ensures
        final(out)@ == old(out)@ + Seq::new(16, |k: int| hex_digit(word_nibble(word, k))),
{
    let mut k: u64 = 0;
    while k < 16
        invariant
            k <= 16,
            out@ == old(out)@ + Seq::new(k as nat, |j: int| hex_digit(word_nibble(word, j))),
        decreases 16 - k,
    {
        let shift = 60 - 4 * k;
        let d = (word >> shift) & 15;
        proof {
            lemma_nibble_facts(k, 0);
            lemma_nibble_or(word, 0, shift, shift);
            assert(d == word_nibble(word, k as int));
        }
        out.push(hex_digit_of(d));
        k += 1;
        assert(out@ =~= old(out)@ + Seq::new(k as nat, |j: int| hex_digit(word_nibble(word, j))));
    }
}

/// Formats a tile of 64 pixels (4 bits each) as a call of the compact `Tile::new`
/// constructor: four 64-bit hex literals, each holding two rows of 8 pixels, first pixel
/// in the most significant nibble. The UTF-8 bytes of the result are `tile_code`.
pub fn format_tile_compact(tile_pixels: &[u8]) -> (r: String)
    requires
        tile_pixels@.len() == 64,
    ensures
        encode_utf8(r@) == tile_code(tile_pixels@),
{
    let data = pack_tile(tile_pixels);
    let mut out: Vec<u8> = Vec::new();
    push_all(&mut out, &[84u8, 105, 108, 101, 58, 58, 110, 101, 119, 40, 48, 120]);
    push_hex(&mut out, data[0]);
    push_all(&mut out, &[44u8, 32, 48, 120]);
    push_hex(&mut out, data[1]);
    push_all(&mut out, &[44u8, 32, 48, 120]);
    push_hex(&mut out, data[2]);
    push_all(&mut out, &[44u8, 32, 48, 120]);
    push_hex(&mut out, data[3]);
    push_all(&mut out, &[41u8]);
    proof {
        let p = tile_pixels@;
        assert forall|w: int| 0 <= w < 4 implies Seq::new(
            16,
            |k: int| hex_digit(word_nibble(data@[w], k)),
        ) =~= #[trigger] pixel_digits(p, w) by {
            assert forall|k: int| 0 <= k < 16 implies hex_digit(word_nibble(data@[w], k))
                == #[trigger] pixel_digits(p, w)[k] by {
                assert(word_nibble(data@[w], k) == (p[16 * w + k] & 15) as u64);
            }
        }
        assert(out@ =~= tile_code(p));
        assert forall|i: int| 0 <= i < out@.len() implies #[trigger] out@[i] < 128 by {
            let code = tile_code(p);
            assert(forall|w: int, k: int|
                0 <= w < 4 && 0 <= k < 16 ==> #[trigger] pixel_digits(p, w)[k] < 128) by {
                assert forall|w: int, k: int| 0 <= w < 4 && 0 <= k < 16 implies #[trigger] pixel_digits(
                    p,
                    w,
                )[k] < 128 by {
                    lemma_nibble_facts(0, p[16 * w + k]);
                }
            }
        }
        lemma_ascii_valid(out@);
    }
    let text = match str_from_utf8(out.as_slice()) {
        Some(s) => s,
        None => {
            proof {
                assert(false);
            }
            ""
        },
    };
    text.to_owned()
}

/// The link section that generated `static` items are placed in on the target operating
/// system named `target_os` (as Rust names it): the read-only data section of its object
/// format, Mach-O for "macos", PE/COFF for "windows", ELF for any other.
pub fn get_platform_link_section(target_os: &str) -> (r: &'static str)
    ensures
        target_os.spec_bytes() == seq![109u8, 97, 99, 111, 115] ==> r@ == "__DATA,__const"@,
        target_os.spec_bytes() == seq![119u8, 105, 110, 100, 111, 119, 115] ==> r@ == ".rdata"@,
        target_os.spec_bytes() != seq![109u8, 97, 99, 111, 115] && target_os.spec_bytes()
            != seq![119u8, 105, 110, 100, 111, 119, 115] ==> r@ == ".rodata"@,
{
    let os = target_os.as_bytes();
    let macos: [u8; 5] = [109, 97, 99, 111, 115];
    let windows: [u8; 7] = [119, 105, 110, 100, 111, 119, 115];
    assert(os@.subrange(0, os@.len() as int) =~= os@);
    assert(macos@ =~= seq![109u8, 97, 99, 111, 115]);
    assert(windows@ =~= seq![119u8, 105, 110, 100, 111, 119, 115]);
    if range_equals(os, 0, os.len(), &macos) {
        "__DATA,__const"
    } else if range_equals(os, 0, os.len(), &windows) {
        ".rdata"
    } else {
        ".rodata"
    }
}

} // verus!
