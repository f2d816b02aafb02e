use vstd::prelude::*;
use vstd::layout::size_of;
use vstd::utf8::valid_utf8;
use vstd::string::{StringSliceAdditionalSpecFns, to_string_from_display_ensures};
use core::fmt::Write;
use crate::arena::error::{TempArenaError, TempArenaResult};
use crate::arena::id::TempID;
use crate::arena::index::ArenaIndex;
use crate::arena::temp_arena::{TempArena, alloc_fits, alloc_start, decode_items, out_of_space, keeps_used};

verus! {

broadcast use vstd::layout::layout_of_primitives;

/// Capacity of the scratch buffer that formatted text is assembled in.
pub const FORMAT_CAPACITY: usize = 512;

/// Byte of `{`.
pub const OPEN_BRACE: u8 = 123;

/// Byte of `}`.
pub const CLOSE_BRACE: u8 = 125;

/// Byte of `:`.
pub const COLON: u8 = 58;

/// Byte of `.`.
pub const DOT: u8 = 46;

/// Byte of `+`.
pub const PLUS: u8 = 43;

/// Byte of `0`.
pub const DIGIT_ZERO: u8 = 48;

/// The first index at or after `from` where `t` holds `c`.
pub open spec fn find_from(t: Seq<u8>, from: int, c: u8) -> Option<int>
    decreases t.len() - from,
{
    if from < 0 || from >= t.len() {
        None
    } else if t[from] == c {
        Some(from)
    } else {
        find_from(t, from + 1, c)
    }
}

/// The first index at or after `from` where `t` holds `a` directly followed by `b`.
pub open spec fn find_pair_from(t: Seq<u8>, from: int, a: u8, b: u8) -> Option<int>
    decreases t.len() - from,
{
    if from < 0 || from + 1 >= t.len() {
        None
    } else if t[from] == a && t[from + 1] == b {
        Some(from)
    } else {
        find_pair_from(t, from + 1, a, b)
    }
}

/// The placeholders of a template, as `(start, end)` with `t[start] == '{'` and
/// `t[end] == '}'`, in the order the formatter meets them when it starts at `pos`.
pub open spec fn placeholders_from(t: Seq<u8>, pos: int) -> Seq<(int, int)>
    decreases t.len() - pos,
{
    if pos < 0 || pos >= t.len() {
        Seq::empty()
    } else {
        match find_from(t, pos, OPEN_BRACE) {
            None => Seq::empty(),
            Some(a) => match find_from(t, a, CLOSE_BRACE) {
                None => Seq::empty(),
                Some(e) => {
                    proof {
                        lemma_find_from(t, pos, OPEN_BRACE);
                        lemma_find_from(t, a, CLOSE_BRACE);
                    }
                    seq![(a, e)] + placeholders_from(t, e + 1)
                },
            },
        }
    }
}

/// The text a template becomes, starting at `pos` with `out` already assembled and the
/// `k`-th placeholder to come replaced by `rendered[k]`; `None` when the literal text
/// does not fit the scratch buffer.
///
/// A placeholder without a rendering becomes empty; a rendering that does not fit the
/// space left is dropped; a `{` without a later `}` ends the text.
pub open spec fn assemble_from(
    t: Seq<u8>,
    pos: int,
    out: Seq<u8>,
    rendered: Seq<Seq<u8>>,
) -> Option<Seq<u8>>
    decreases t.len() - pos,
{
    if pos < 0 || pos >= t.len() {
        Some(out)
    } else {
        match find_from(t, pos, OPEN_BRACE) {
            None => {
                let rest = t.subrange(pos, t.len() as int);
                if out.len() + rest.len() > FORMAT_CAPACITY {
                    None
                } else {
                    Some(out + rest)
                }
            },
            Some(a) => {
                let before = t.subrange(pos, a);
                if out.len() + before.len() > FORMAT_CAPACITY {
                    None
                } else {
                    let out1 = out + before;
                    match find_from(t, a, CLOSE_BRACE) {
                        None => Some(out1),
                        Some(e) => {
                            proof {
                                lemma_find_from(t, pos, OPEN_BRACE);
                                lemma_find_from(t, a, CLOSE_BRACE);
                            }
                            let out2 = if rendered.len() > 0 && out1.len() + rendered[0].len()
                                <= FORMAT_CAPACITY {
                                out1 + rendered[0]
                            } else {
                                out1
                            };
                            assemble_from(
                                t,
                                e + 1,
                                out2,
                                if rendered.len() > 0 {
                                    rendered.drop_first()
                                } else {
                                    rendered
                                },
                            )
                        },
                    }
                }
            },
        }
    }
}

/// The text a whole template becomes with the given renderings of its placeholders.
pub open spec fn assemble(t: Seq<u8>, rendered: Seq<Seq<u8>>) -> Option<Seq<u8>> {
    assemble_from(t, 0, Seq::empty(), rendered)
}

/// The number that a run of ASCII digits spells.
pub open spec fn digits_value(s: Seq<u8>) -> nat
    decreases s.len(),
{
    if s.len() == 0 {
        0
    } else {
        digits_value(s.drop_last()) * 10 + (s.last() - DIGIT_ZERO) as nat
    }
}

/// What `find_from` finds is the first match at or after `from`.
pub proof fn lemma_find_from(t: Seq<u8>, from: int, c: u8)
    requires
        0 <= from,
    ensures
        match find_from(t, from, c) {
            Some(i) => from <= i < t.len() && t[i] == c && forall|j: int|
                from <= j < i ==> t[j] != c,
            None => forall|j: int| from <= j < t.len() ==> t[j] != c,
        },
    decreases t.len() - from,
{
    if from < t.len() && t[from] != c {
        lemma_find_from(t, from + 1, c);
    }
}

/// What `find_pair_from` finds is the first pair at or after `from`.
pub proof fn lemma_find_pair_from(t: Seq<u8>, from: int, a: u8, b: u8)
    requires
        0 <= from,
    ensures
        match find_pair_from(t, from, a, b) {
            Some(i) => from <= i && i + 1 < t.len() && t[i] == a && t[i + 1] == b,
            None => forall|j: int| from <= j && j + 1 < t.len() ==> !(#[trigger] t[j] == a && t[j + 1] == b),
        },
    decreases t.len() - from,
{
    if from + 1 < t.len() && !(t[from] == a && t[from + 1] == b) {
        lemma_find_pair_from(t, from + 1, a, b);
    }
}

/// Every placeholder found from `pos` on lies inside the template, after `pos`.
pub proof fn lemma_placeholders_bounds(t: Seq<u8>, pos: int)
    requires
        0 <= pos,
    ensures
        forall|j: int|
            0 <= j < placeholders_from(t, pos).len() ==> {
                let (a, e) = #[trigger] placeholders_from(t, pos)[j];
                pos <= a <= e < t.len()
            },
    decreases t.len() - pos,
{
    if pos < t.len() {
        lemma_find_from(t, pos, OPEN_BRACE);
        match find_from(t, pos, OPEN_BRACE) {
            None => {},
            Some(a) => {
                lemma_find_from(t, a, CLOSE_BRACE);
                match find_from(t, a, CLOSE_BRACE) {
                    None => {},
                    Some(e) => {
                        lemma_placeholders_bounds(t, e + 1);
                        let rest = placeholders_from(t, e + 1);
                        assert forall|j: int| 0 <= j < placeholders_from(t, pos).len() implies {
                            let (a2, e2) = #[trigger] placeholders_from(t, pos)[j];
                            pos <= a2 <= e2 < t.len()
                        } by {
                            if j > 0 {
                                assert(placeholders_from(t, pos)[j] == rest[j - 1]);
                            }
                        }
                    },
                }
            },
        }
    }
}

/// Whether every byte is an ASCII digit.
pub open spec fn all_digits(s: Seq<u8>) -> bool {
    forall|i: int| 0 <= i < s.len() ==> DIGIT_ZERO <= #[trigger] s[i] <= DIGIT_ZERO + 9
}

/// What parsing `s` as a `usize` gives: an optional `+`, then at least one digit, and
/// a value that fits.
pub open spec fn parse_usize_spec(s: Seq<u8>) -> Option<usize> {
    let digits = if s.len() > 0 && s[0] == PLUS {
        s.drop_first()
    } else {
        s
    };
    if digits.len() > 0 && all_digits(digits) && digits_value(digits) <= usize::MAX {
        Some(digits_value(digits) as usize)
    } else {
        None
    }
}

/// The precision a placeholder asks for: the text between its first `:.` and the `}`
/// after it, when that text parses as a number.
pub open spec fn placeholder_precision(p: Seq<u8>) -> Option<usize> {
    match find_pair_from(p, 0, COLON, DOT) {
        None => None,
        Some(d) => match find_from(p, d + 2, CLOSE_BRACE) {
            None => None,
            Some(b) => parse_usize_spec(p.subrange(d + 2, b)),
        },
    }
}

/// Finds the first `c` in `t` at or after `from`.
fn find_byte(t: &[u8], from: usize, c: u8) -> (r: Option<usize>)
    ensures
        r == (match find_from(t@, from as int, c) {
            Some(i) => Some(i as usize),
            None => None::<usize>,
        }),
{
    let mut i = from;
    while i < t.len()
        invariant
            from <= i,
            find_from(t@, from as int, c) == find_from(t@, i as int, c),
        decreases t.len() - i,
    {
        if t[i] == c {
            return Some(i);
        }
        i = i + 1;
    }
    None
}

/// Finds the first `a` directly followed by `b` in `t`, at or after `from`.
fn find_pair(t: &[u8], from: usize, a: u8, b: u8) -> (r: Option<usize>)
    ensures
        r == (match find_pair_from(t@, from as int, a, b) {
            Some(i) => Some(i as usize),
            None => None::<usize>,
        }),
{
    let mut i = from;
    while i < t.len() && i + 1 < t.len()
        invariant
            from <= i,
            find_pair_from(t@, from as int, a, b) == find_pair_from(t@, i as int, a, b),
        decreases t.len() - i,
    {
        if t[i] == a && t[i + 1] == b {
            return Some(i);
        }
        i = i + 1;
    }
    None
}

/// Parses a run of bytes as a `usize` the way `str::parse::<usize>` does.
pub fn parse_usize(s: &[u8]) -> (r: Option<usize>)
    ensures
        r == parse_usize_spec(s@),
{
    let start: usize = if s.len() > 0 && s[0] == PLUS {
        1
    } else {
        0
    };
    let ghost digits = if s@.len() > 0 && s@[0] == PLUS {
        s@.drop_first()
    } else {
        s@
    };
    proof {
        assert(digits =~= s@.subrange(start as int, s@.len() as int));
    }
    if start >= s.len() {
        return None;
    }
    let mut value: usize = 0;
    let mut i = start;
    while i < s.len()
        invariant
            start <= i <= s@.len(),
            digits == s@.subrange(start as int, s@.len() as int),
            digits == (if s@.len() > 0 && s@[0] == PLUS {
                s@.drop_first()
            } else {
                s@
            }),
            all_digits(s@.subrange(start as int, i as int)),
            value as nat == digits_value(s@.subrange(start as int, i as int)),
        decreases s.len() - i,
    {
        let c = s[i];
        proof {
            assert(s@.subrange(start as int, i + 1).drop_last() =~= s@.subrange(
                start as int,
                i as int,
            ));
        }
        if c < DIGIT_ZERO || c > DIGIT_ZERO + 9 {
            proof {
                assert(digits[i - start] == c);
                assert(!all_digits(digits));

            }
            return None;
        }
        let next = match value.checked_mul(10) {
            Some(v) => v.checked_add((c - DIGIT_ZERO) as usize),
            None => None,
        };
        match next {
            Some(v) => {
                value = v;
            },
            None => {
                proof {
                    let p = s@.subrange(start as int, i + 1);
                    assert(p.last() == c);
                    assert(digits_value(p) == digits_value(p.drop_last()) * 10 + (c - DIGIT_ZERO) as nat);
                    assert(digits_value(p) > usize::MAX);
                    if all_digits(digits) {
                        assert(digits.subrange(0, digits.len() as int) =~= digits);
                        lemma_digits_value_prefix(digits, i + 1 - start, digits.len() as int);
                        assert(digits.subrange(0, i + 1 - start) =~= s@.subrange(
                            start as int,
                            i + 1,
                        ));
                    }
                }
                return None;
            },
        }
        i = i + 1;
    }
    proof {
        assert(s@.subrange(start as int, i as int) =~= digits);
    }
    Some(value)
}

/// A prefix of a run of digits spells no more than the whole run.
pub(crate) proof fn lemma_digits_value_prefix(s: Seq<u8>, k: int, n: int)
    requires
        0 <= k <= n <= s.len(),
        all_digits(s.subrange(0, n)),
    ensures
        digits_value(s.subrange(0, k)) <= digits_value(s.subrange(0, n)),
    decreases n - k,
{
    if k < n {
        lemma_digits_value_prefix(s, k, n - 1);
        assert(s.subrange(0, n).drop_last() =~= s.subrange(0, n - 1));
        assert(all_digits(s.subrange(0, n - 1))) by {
            assert forall|i: int| 0 <= i < n - 1 implies DIGIT_ZERO <= #[trigger] s.subrange(
                0,
                n - 1,
            )[i] <= DIGIT_ZERO + 9 by {
                assert(s.subrange(0, n)[i] == s[i]);
            }
        }
        assert(s.subrange(0, n).last() >= DIGIT_ZERO) by {
            assert(s.subrange(0, n)[n - 1] == s.subrange(0, n).last());
        }
    }
}


/// Finds the placeholders of a template in the order the formatter meets them.
pub fn template_placeholders(t: &[u8]) -> (r: Vec<(usize, usize)>)
    ensures
        r@.map_values(|p: (usize, usize)| (p.0 as int, p.1 as int)) == placeholders_from(t@, 0),
{
    let mut out: Vec<(usize, usize)> = Vec::new();
    let mut pos: usize = 0;
    while pos < t.len()
        invariant
            pos <= t@.len(),
            placeholders_from(t@, 0) == out@.map_values(|p: (usize, usize)| (p.0 as int, p.1 as int))
                + placeholders_from(t@, pos as int),
        decreases t.len() - pos,
    {
        let ghost prev = out@;
        match find_byte(t, pos, OPEN_BRACE) {
            None => {
                return out;
            },
            Some(a) => {
                proof {
                    lemma_find_from(t@, pos as int, OPEN_BRACE);
                }
                match find_byte(t, a, CLOSE_BRACE) {
                    None => {
                        return out;
                    },
                    Some(e) => {
                        proof {
                            lemma_find_from(t@, a as int, CLOSE_BRACE);
                        }
                        out.push((a, e));
                        proof {
                            assert(out@.map_values(|p: (usize, usize)| (p.0 as int, p.1 as int))
                                =~= prev.map_values(|p: (usize, usize)| (p.0 as int, p.1 as int))
                                + seq![(a as int, e as int)]);
                        }
                        pos = e + 1;
                    },
                }
            },
        }
    }
    proof {
        assert(out@.map_values(|p: (usize, usize)| (p.0 as int, p.1 as int)) + placeholders_from(
            t@,
            pos as int,
        ) =~= out@.map_values(|p: (usize, usize)| (p.0 as int, p.1 as int)));
    }
    out
}

/// Appends `src[from..to]` to `out`.
fn append_range(out: &mut Vec<u8>, src: &[u8], from: usize, to: usize)
    requires
        from <= to <= src@.len(),
    ensures
        final(out)@ == old(out)@ + src@.subrange(from as int, to as int),
{
    let mut i = from;
    while i < to
        invariant
            from <= i <= to <= src@.len(),
            out@ == old(out)@ + src@.subrange(from as int, i as int),
        decreases to - i,
    {
        out.push(src[i]);
        i = i + 1;
        assert(out@ =~= old(out)@ + src@.subrange(from as int, i as int));
    }
}

/// The byte views of a list of byte vectors.
pub open spec fn byte_views(r: Seq<Vec<u8>>) -> Seq<Seq<u8>> {
    r.map_values(|v: Vec<u8>| v@)
}

/// Assembles the text a template becomes when its placeholders, in order, are replaced
/// by `rendered`; `None` when the literal text does not fit the scratch buffer.
pub fn assemble_template(t: &[u8], rendered: &[Vec<u8>]) -> (r: Option<Vec<u8>>)
    ensures
        (match r {
            Some(v) => Some(v@),
            None => None::<Seq<u8>>,
        }) == assemble(t@, byte_views(rendered@)),
{
    let ghost all = byte_views(rendered@);
    let mut out: Vec<u8> = Vec::new();
    let mut pos: usize = 0;
    let mut k: usize = 0;
    assert(all.subrange(0, all.len() as int) =~= all);
    while pos < t.len()
        invariant
            pos <= t@.len(),
            k <= rendered@.len(),
            all == byte_views(rendered@),
            assemble(t@, all) == assemble_from(t@, pos as int, out@, all.subrange(k as int, all.len() as int)),
        decreases t.len() - pos,
    {
        let ghost rest = all.subrange(k as int, all.len() as int);
        match find_byte(t, pos, OPEN_BRACE) {
            None => {
                if out.len() > FORMAT_CAPACITY || t.len() - pos > FORMAT_CAPACITY - out.len() {
                    return None;
                }
                append_range(&mut out, t, pos, t.len());
                return Some(out);
            },
            Some(a) => {
                proof {
                    lemma_find_from(t@, pos as int, OPEN_BRACE);
                }
                if out.len() > FORMAT_CAPACITY || a - pos > FORMAT_CAPACITY - out.len() {
                    return None;
                }
                append_range(&mut out, t, pos, a);
                match find_byte(t, a, CLOSE_BRACE) {
                    None => {
                        return Some(out);
                    },
                    Some(e) => {
                        proof {
                            lemma_find_from(t@, a as int, CLOSE_BRACE);
                        }
                        if k < rendered.len() {
                            let piece = &rendered[k];
                            if piece.len() <= FORMAT_CAPACITY - out.len() {
                                append_range(&mut out, piece.as_slice(), 0, piece.len());
                                proof {
                                    assert(piece@.subrange(0, piece@.len() as int) =~= piece@);
                                }
                            }
                            k = k + 1;
                            proof {
                                assert(rest.drop_first() =~= all.subrange(k as int, all.len() as int));
                                assert(rest[0] == rendered@[k - 1]@);
                            }
                        } else {
                            proof {
                                assert(rest.len() == 0);
                            }
                        }
                        pos = e + 1;
                    },
                }
            },
        }
    }
    Some(out)
}

/// Calls `core::str::from_utf8`, which is documented to succeed exactly when the bytes
/// are valid UTF-8 and then to view those same bytes as text.
#[verifier::external_body]
pub(crate) fn str_from_utf8(bytes: &[u8]) -> (r: Option<&str>)
    ensures
        r is Some <==> valid_utf8(bytes@),
        r matches Some(s) ==> s.spec_bytes() == bytes@,
{
    core::str::from_utf8(bytes).ok()
}

/// Writes `value` with `{:.prec$}` into a new string with `write!`. An error reported by
/// the value's `Display` ends the writing and is ignored, so this never panics. What
/// comes out depends on how `V` implements `Display`, so nothing is promised of it.
#[verifier::external_body]
fn display_with_precision<V: core::fmt::Display>(value: &V, precision: usize) -> String {
    let mut out = String::new();
    let _ = write!(out, "{:.prec$}", value, prec = precision);
    out
}

/// Writes `value` with `{}` into a new string with `write!`. An error reported by the
/// value's `Display` ends the writing and is ignored, so this never panics. The text is
/// the one `to_string` gives for the value (`to_string_from_display_ensures`):
/// `to_string` writes the value the same way into a new string, and only differs by
/// panicking where the value's `Display` reports an error.
#[verifier::external_body]
fn display_plain<V: core::fmt::Display>(value: &V) -> (r: String)
    ensures
        to_string_from_display_ensures::<V>(value, r),
{
    let mut out = String::new();
    let _ = write!(out, "{}", value);
    out
}

/// The bytes of a string, copied.
pub(crate) fn string_bytes(s: &String) -> (r: Vec<u8>)
    ensures
        r@ == vstd::utf8::encode_utf8(s@),
{
    vstd::slice::slice_to_vec(s.as_str().as_bytes())
}

/// Finds the precision a placeholder asks for.
pub fn precision_of(p: &[u8]) -> (r: Option<usize>)
    ensures
        r == placeholder_precision(p@),
{
    match find_pair(p, 0, COLON, DOT) {
        None => None,
        Some(d) => {
            proof {
                lemma_find_pair_from(p@, 0, COLON, DOT);
                assert(d + 1 < p@.len());
                assert(p@.len() == p.len());
            }
            match find_byte(p, d + 2, CLOSE_BRACE) {
                None => None,
                Some(b) => {
                    proof {
                        lemma_find_from(p@, d + 2, CLOSE_BRACE);
                        assert(d + 2 <= b < p@.len());
                    }
                    parse_usize(vstd::slice::slice_subrange(p, d + 2, b))
                },
            }
        },
    }
}

/// What a placeholder `placeholder` may render `value` as: the UTF-8 encoding of some
/// text, and, for a placeholder that asks for no precision, of the text `to_string` gives
/// for the value. Which text a precision gives depends on the value's type and is not
/// stated.
pub open spec fn rendering_of<V: core::fmt::Display>(value: V, placeholder: Seq<u8>, bytes: Seq<u8>) -> bool {
    &&& exists|text: Seq<char>| #[trigger] vstd::utf8::encode_utf8(text) == bytes
    &&& placeholder_precision(placeholder) is None ==> exists|s: String|
        #[trigger] to_string_from_display_ensures::<V>(&value, s) && vstd::utf8::encode_utf8(s@) == bytes
}

/// Renders one value for a placeholder: with the precision it asks for, if any, and
/// plainly otherwise.
fn render_value<V: core::fmt::Display>(value: &V, placeholder: &[u8]) -> (r: Vec<u8>)
    ensures
        rendering_of(*value, placeholder@, r@),
{
    match precision_of(placeholder) {
        Some(precision) => {
            let text = display_with_precision(value, precision);
            let r = string_bytes(&text);
            assert(vstd::utf8::encode_utf8(text@) == r@);
            r
        },
        None => {
            let text = display_plain(value);
            let r = string_bytes(&text);
            assert(vstd::utf8::encode_utf8(text@) == r@);
            assert(to_string_from_display_ensures::<V>(value, text));
            r
        },
    }
}

/// Text read back: a text stored in an arena keeps its bytes while the arena only hands
/// out more bytes (`keeps_used`, which every allocation ensures through
/// `lemma_alloc_keeps_used`), so `as_bytes` still gives the stored bytes and `as_str`
/// gives them as a string exactly when they are valid UTF-8.
pub proof fn lemma_text_round_trip<const LEN: usize, Idx: ArenaIndex>(
    t: TempText<Idx>,
    stored: &TempArena<LEN, Idx>,
    later: &TempArena<LEN, Idx>,
    bytes: Seq<u8>,
)
    requires
        stored.wf(),
        stored.holds(t.run()),
        t.text_bytes(stored) == bytes,
        t.run().spec_offset() + t.run().spec_len() <= stored.used_bytes(),
        keeps_used(stored.used_bytes(), stored.bytes(), later.used_bytes(), later.bytes()),
    ensures
        later.holds(t.run()),
        t.text_bytes(later) == bytes,
        t.run().spec_len() == bytes.len(),
{
    let lo = t.run().spec_offset() as int;
    let hi = lo + t.run().spec_len();
    stored.lemma_wf();
    assert(size_of::<u8>() == 1);
    assert(t.text_bytes(later) =~= t.text_bytes(stored)) by {
        assert forall|j: int| 0 <= j < hi - lo implies #[trigger] t.text_bytes(later)[j] == t.text_bytes(stored)[j] by {
            assert(later.bytes()[lo + j] == stored.bytes()[lo + j]);
        }
    }
}

/// A run of `u8` values, read one slot at a time, is the same run of bytes.
pub proof fn lemma_decode_bytes(bytes: Seq<u8>, start: int, n: nat)
    requires
        0 <= start,
        start + n <= bytes.len(),
    ensures
        decode_items::<u8>(bytes, start, n) == bytes.subrange(start, start + n),
{
    assert forall|i: int| 0 <= i < n implies #[trigger] decode_items::<u8>(bytes, start, n)[i]
        == bytes.subrange(start, start + n)[i] by {
        assert(bytes.subrange(start + i, start + i + 1)[0] == bytes[start + i]);
    }
    assert(decode_items::<u8>(bytes, start, n) =~= bytes.subrange(start, start + n));
}

/// What storing `bytes` as a new text gives: the text on success, and on failure the
/// reason, with nothing handed out.
pub open spec fn stored_outcome<const LEN: usize, Idx: ArenaIndex>(
    old: &TempArena<LEN, Idx>,
    new: &TempArena<LEN, Idx>,
    bytes: Seq<u8>,
    r: TempArenaResult<TempText<Idx>>,
) -> bool {
    let n = bytes.len();
    let start = alloc_start::<u8>(old.used_bytes()) as int;
    let fits = alloc_fits::<u8>(old.used_bytes(), n, LEN as nat);
    let indexable = start <= Idx::index_max() && n <= Idx::index_max();
    match r {
        Ok(t) => {
            &&& fits && indexable
            &&& t.run().spec_offset() == start && t.run().spec_len() == n
            &&& new.holds(t.run())
            &&& t.text_bytes(new) == bytes
            &&& new.used_bytes() == start + n
        },
        Err(e) => {
            &&& new.used_bytes() == old.used_bytes()
            &&& (!fits ==> e == out_of_space::<u8>(old.used_bytes(), n, LEN as nat))
            &&& (fits ==> e == TempArenaError::IndexConversion && !indexable)
        },
    }
}

/// What formatting `template` with `values` gives: for renderings of the values, each
/// as its placeholder may render it (`rendering_of`), the assembled text stored as a new
/// text, or `InvalidBounds` when the template's literal text does not fit the scratch
/// buffer.
pub open spec fn format_outcome<const LEN: usize, Idx: ArenaIndex, V: core::fmt::Display>(
    old: &TempArena<LEN, Idx>,
    new: &TempArena<LEN, Idx>,
    template: Seq<u8>,
    values: Seq<V>,
    r: TempArenaResult<TempText<Idx>>,
) -> bool {
    exists|rendered: Seq<Seq<u8>>|
        #![trigger assemble(template, rendered)]
        {
            &&& rendered.len() == vstd::math::min(
                placeholders_from(template, 0).len() as int,
                values.len() as int,
            )
            &&& forall|k: int|
                0 <= k < rendered.len() ==> #[trigger] rendering_of(
                    values[k],
                    template.subrange(placeholders_from(template, 0)[k].0, placeholders_from(template, 0)[k].1 + 1),
                    rendered[k],
                )
            &&& match assemble(template, rendered) {
                None => {
                    &&& r == Err::<TempText<Idx>, TempArenaError>(TempArenaError::InvalidBounds)
                    &&& new.bytes() == old.bytes()
                    &&& new.used_bytes() == old.used_bytes()
                },
                Some(out) => stored_outcome(old, new, out, r),
            }
        }
}

/// Simple text stored in a `TempArena`, as a run of bytes.
#[derive(Debug, Clone, Copy)]
pub struct TempText<Idx: Copy = u32> {
    slice_id: TempID<u8, Idx>,
}

impl<Idx: ArenaIndex> TempText<Idx> {
    /// The run of bytes that holds the text.
    pub closed spec fn run(&self) -> TempID<u8, Idx> {
        self.slice_id
    }

    /// The text's bytes, as they stand in `arena`.
    pub open spec fn text_bytes<const LEN: usize>(&self, arena: &TempArena<LEN, Idx>) -> Seq<u8> {
        arena.bytes().subrange(
            self.run().spec_offset() as int,
            (self.run().spec_offset() + self.run().spec_len()) as int,
        )
    }

    /// Stores a copy of `bytes` in the arena.
    ///
    /// Fails with `OutOfSpace` when the bytes do not fit, and with `IndexConversion`
    /// when their offset or length does not fit the index type.
    pub fn from_bytes<const LEN: usize>(arena: &mut TempArena<LEN, Idx>, bytes: &[u8]) -> (r:
        TempArenaResult<Self>)
        requires
            old(arena).wf(),
        ensures
            final(arena).wf(),
            stored_outcome(old(arena), final(arena), bytes@, r),
    {
        proof {
            assert(size_of::<u8>() * bytes@.len() == bytes@.len());
            assert(bytes@.len() == bytes.len());
        }
        let slice_id = arena.alloc_slice_from_iter(bytes)?;
        proof {
            arena.lemma_wf();
            lemma_decode_bytes(arena.bytes(), slice_id.spec_offset() as int, bytes@.len());
        }
        Ok(Self { slice_id })
    }

    /// Stores a copy of the bytes of `s` in the arena; fails as `from_bytes` does.
    pub fn from_str<const LEN: usize>(arena: &mut TempArena<LEN, Idx>, s: &str) -> (r:
        TempArenaResult<Self>)
        requires
            old(arena).wf(),
        ensures
            final(arena).wf(),
            stored_outcome(old(arena), final(arena), s.spec_bytes(), r),
    {
        Self::from_bytes(arena, s.as_bytes())
    }

    /// Length in bytes.
    pub fn len(&self) -> (r: usize)
        ensures
            r == self.run().spec_len(),
    {
        self.slice_id.len()
    }

    /// Whether the text has no byte.
    pub fn is_empty(&self) -> (r: bool)
        ensures
            r == (self.run().spec_len() == 0),
    {
        self.len() == 0
    }

    /// The text's bytes, borrowed from the arena; `None` when the run does not lie
    /// inside `arena`.
    pub fn as_bytes<'a, const LEN: usize>(&self, arena: &'a TempArena<LEN, Idx>) -> (r: Option<&'a [u8]>)
        requires
            arena.wf(),
        ensures
            r is Some <==> arena.holds(self.run()),
            r matches Some(b) ==> b@ == self.text_bytes(arena),
    {
        arena.get_bytes(self.slice_id)
    }

    /// The text as a string slice; `None` when the run does not lie inside `arena` or
    /// its bytes are not valid UTF-8.
    pub fn as_str<'a, const LEN: usize>(&self, arena: &'a TempArena<LEN, Idx>) -> (r: Option<&'a str>)
        requires
            arena.wf(),
        ensures
            r is Some <==> arena.holds(self.run()) && valid_utf8(self.text_bytes(arena)),
            r matches Some(s) ==> s.spec_bytes() == self.text_bytes(arena),
    {
        match arena.get_bytes(self.slice_id) {
            None => None,
            Some(bytes) => str_from_utf8(bytes),
        }
    }

    /// Formats `template`, replacing its placeholders in order by `values`, and stores
    /// the result in the arena.
    ///
    /// A placeholder runs from a `{` to the next `}`. One that holds `:.` followed by a
    /// number (as in `{:.2}`) formats its value with that precision; any other formats it
    /// plainly. Placeholders beyond the last value become empty and values beyond the
    /// last placeholder are ignored; a `{` with no later `}` ends the text.
    ///
    /// The text is assembled in a scratch buffer of `FORMAT_CAPACITY` bytes: when the
    /// template's literal text does not fit, this fails with `InvalidBounds`; a
    /// formatted value that does not fit in the space left is left out. The result is
    /// then stored as `from_bytes` stores it, and can fail as that does.
    pub fn format_display<const LEN: usize, V: core::fmt::Display>(
        arena: &mut TempArena<LEN, Idx>,
        template: &str,
        values: &[V],
    ) -> (r: TempArenaResult<Self>)
        requires
            old(arena).wf(),
        ensures
            final(arena).wf(),
            format_outcome(old(arena), final(arena), template.spec_bytes(), values@, r),
    {
        let t = template.as_bytes();
        let ph = template_placeholders(t);
        let count = if ph.len() < values.len() {
            ph.len()
        } else {
            values.len()
        };
        let mut rendered: Vec<Vec<u8>> = Vec::new();
        let mut k: usize = 0;
        proof {
            lemma_placeholders_bounds(t@, 0);
            assert(ph@.len() == placeholders_from(t@, 0).len());
        }
        while k < count
            invariant
                k <= count,
                count <= ph@.len(),
                count <= values@.len(),
                rendered@.len() == k,
                forall|j: int|
                    0 <= j < k ==> #[trigger] rendering_of(
                        values@[j],
                        t@.subrange(placeholders_from(t@, 0)[j].0, placeholders_from(t@, 0)[j].1 + 1),
                        rendered@[j]@,
                    ),
                ph@.map_values(|p: (usize, usize)| (p.0 as int, p.1 as int)) == placeholders_from(t@, 0),
                forall|j: int|
                    0 <= j < ph@.len() ==> {
                        let (a, e) = #[trigger] placeholders_from(t@, 0)[j];
                        0 <= a <= e < t@.len()
                    },
            decreases count - k,
        {
            let (a, e) = ph[k];
            proof {
                assert(ph@.map_values(|p: (usize, usize)| (p.0 as int, p.1 as int))[k as int] == (
                a as int, e as int));
                assert(placeholders_from(t@, 0)[k as int] == (a as int, e as int));
                assert(t@.len() == t.len());
            }
            let p = vstd::slice::slice_subrange(t, a, e + 1);
            rendered.push(render_value(&values[k], p));
            k = k + 1;
        }
        let assembled = assemble_template(t, rendered.as_slice());
        proof {
            assert(byte_views(rendered@).len() == count);
        }
        match assembled {
            None => Err(TempArenaError::InvalidBounds),
            Some(out) => Self::from_bytes(arena, out.as_slice()),
        }
    }

    /// Formats `template` with a single value; see `format_display`.
    pub fn format<const LEN: usize, V: core::fmt::Display>(
        arena: &mut TempArena<LEN, Idx>,
        template: &str,
        value: V,
    ) -> (r: TempArenaResult<Self>)
        requires
            old(arena).wf(),
        ensures
            final(arena).wf(),
            format_outcome(old(arena), final(arena), template.spec_bytes(), seq![value], r),
    {
        let values = [value];
        Self::format_display(arena, template, &values)
    }
}

} // verus!
