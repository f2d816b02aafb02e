//! The metadata file of the asset pipeline: one line `path=timestamp` per processed
//! source file, the time stamp in decimal seconds.

use vstd::prelude::*;
use vstd::string::StringSliceAdditionalSpecFns;
use vstd::slice::slice_subrange;
use vstd::utf8::encode_utf8;
use crate::arena::text::{digits_value, all_digits, lemma_digits_value_prefix, string_bytes, PLUS, DIGIT_ZERO};

verus! {

/// The byte `\n`.
pub const NEWLINE: u8 = 10;

/// The byte `\r`.
pub const CARRIAGE_RETURN: u8 = 13;

/// The byte `=`.
pub const EQUALS: u8 = 61;

/// What parsing `s` as a `u64` gives: an optional `+`, then at least one digit, and a
/// value that fits.
pub open spec fn parse_u64_spec(s: Seq<u8>) -> Option<u64> {
    let digits = if s.len() > 0 && s[0] == PLUS {
        s.drop_first()
    } else {
        s
    };
    if digits.len() > 0 && all_digits(digits) && digits_value(digits) <= u64::MAX {
        Some(digits_value(digits) as u64)
    } else {
        None
    }
}

/// Parses a decimal `u64` the way `str::parse` does: an optional `+`, then digits only.
pub fn parse_u64(s: &[u8]) -> (r: Option<u64>)
    ensures
        r == parse_u64_spec(s@),
{
    let start: usize = if s.len() > 0 && s[0] == PLUS {
        1
    } else {
        0
    };
    let ghost digits = if s@.len() > 0 && s@[0] == PLUS {
        s@.drop_first()
    } else {
        s@
    };
    proof {
        assert(digits =~= s@.subrange(start as int, s@.len() as int));
    }
    if start >= s.len() {
        return None;
    }
    let mut value: u64 = 0;
    let mut i = start;
    while i < s.len()
        invariant
            start <= i <= s@.len(),
            digits == s@.subrange(start as int, s@.len() as int),
            digits == (if s@.len() > 0 && s@[0] == PLUS {
                s@.drop_first()
            } else {
                s@
            }),
            all_digits(s@.subrange(start as int, i as int)),
            value as nat == digits_value(s@.subrange(start as int, i as int)),
        decreases s.len() - i,
    {
        let c = s[i];
        proof {
            assert(s@.subrange(start as int, i + 1).drop_last() =~= s@.subrange(
                start as int,
                i as int,
            ));
        }
        if c < DIGIT_ZERO || c > DIGIT_ZERO + 9 {
            proof {
                assert(digits[i - start] == c);
                assert(!all_digits(digits));
            }
            return None;
        }
        let next = match value.checked_mul(10) {
            Some(v) => v.checked_add((c - DIGIT_ZERO) as u64),
            None => None,
        };
        match next {
            Some(v) => {
                value = v;
            },
            None => {
                proof {
                    let p = s@.subrange(start as int, i + 1);
                    assert(p.last() == c);
                    assert(digits_value(p) == digits_value(p.drop_last()) * 10 + (c - DIGIT_ZERO) as nat);
                    assert(digits_value(p) > u64::MAX);
                    if all_digits(digits) {
                        assert(digits.subrange(0, digits.len() as int) =~= digits);
                        lemma_digits_value_prefix(digits, i + 1 - start, digits.len() as int);
                        assert(digits.subrange(0, i + 1 - start) =~= s@.subrange(
                            start as int,
                            i + 1,
                        ));
                    }
                }
                return None;
            },
        }
        i = i + 1;
    }
    proof {
        assert(s@.subrange(start as int, i as int) =~= digits);
    }
    Some(value)
}

/// The first index in `from..to` where `s` holds `c`, or `to` without one.
pub open spec fn index_in(s: Seq<u8>, from: int, to: int, c: u8) -> int
    decreases to - from,
{
    if from >= to {
        to
    } else if s[from] == c {
        from
    } else {
        index_in(s, from + 1, to, c)
    }
}

/// What `index_in` finds: an index in range holding `c`, or `to`, with no `c` before it.
pub proof fn lemma_index_in(s: Seq<u8>, from: int, to: int, c: u8)
    requires
        from <= to,
    ensures
        from <= index_in(s, from, to, c) <= to,
        index_in(s, from, to, c) < to ==> s[index_in(s, from, to, c)] == c,
        forall|k: int| from <= k < index_in(s, from, to, c) ==> s[k] != c,
    decreases to - from,
{
    if from < to && s[from] != c {
        lemma_index_in(s, from + 1, to, c);
    }
}

/// The end of the text of the line that starts at `from`: before its `\n` (and a `\r`
/// just before that), or the end of `s` for a last line without `\n`.
pub open spec fn line_text_end(s: Seq<u8>, from: int) -> int {
    let e = index_in(s, from, s.len() as int, NEWLINE);
    if e < s.len() && e > from && s[e - 1] == CARRIAGE_RETURN {
        e - 1
    } else {
        e
    }
}

/// One entry of the metadata file: the range of the text that holds a path, and the time
/// stamp stored for it.
#[derive(Debug, Clone, Copy, PartialEq, Eq, Structural)]
pub struct MetadataEntry {
    pub path_start: usize,
    pub path_end: usize,
    pub timestamp: u64,
}

/// The entry of the line `s[a..b]`: the path before its first `=` and the time stamp
/// after it, or `None` when there is no `=` or no valid time stamp.
pub open spec fn line_entry(s: Seq<u8>, a: int, b: int) -> Option<MetadataEntry> {
    let eq = index_in(s, a, b, EQUALS);
    if eq >= b {
        None
    } else {
        match parse_u64_spec(s.subrange(eq + 1, b)) {
            Some(v) => Some(MetadataEntry { path_start: a as usize, path_end: eq as usize, timestamp: v }),
            None => None,
        }
    }
}

/// The entries of the lines of `s` from the one that starts at `from`, in order.
pub open spec fn entries_from(s: Seq<u8>, from: int) -> Seq<MetadataEntry>
    decreases s.len() - from,
{
    if from < 0 || from >= s.len() {
        seq![]
    } else {
        let next = index_in(s, from, s.len() as int, NEWLINE) + 1;
        let rest = entries_from(
            s,
            if from < next <= s.len() {
                next
            } else {
                s.len() as int
            },
        );
        match line_entry(s, from, line_text_end(s, from)) {
            Some(e) => seq![e] + rest,
            None => rest,
        }
    }
}

/// The first index in `from..to` of `s` holding `c`, or `to`.
fn find_in(s: &[u8], from: usize, to: usize, c: u8) -> (r: usize)
    requires
        from <= to <= s@.len(),
    ensures
        r == index_in(s@, from as int, to as int, c),
{
    let mut i = from;
    while i < to
        invariant
            from <= i <= to,
            to <= s@.len(),
            index_in(s@, from as int, to as int, c) == index_in(s@, i as int, to as int, c),
        decreases to - i,
    {
        if s[i] == c {
            return i;
        }
        i += 1;
    }
    i
}

/// Reads the entries of a metadata file: for each line `path=timestamp` (lines end with
/// `\n` or `\r\n`), the range of the path and the time stamp. A line without `=`, or
/// whose time stamp is not a valid `u64`, is skipped.
pub fn parse_metadata(content: &str) -> (r: Vec<MetadataEntry>)
    ensures
        r@ == entries_from(content.spec_bytes(), 0),
{
    let s = content.as_bytes();
    let n = s.len();
    let mut out: Vec<MetadataEntry> = Vec::new();
    let mut pos: usize = 0;
    while pos < n
        invariant
            n == s@.len(),
            s@ == content.spec_bytes(),
            pos <= n,
            entries_from(s@, 0) == out@ + entries_from(s@, pos as int),
        decreases n - pos,
    {
        let ghost before = out@;
        let e = find_in(s, pos, n, NEWLINE);
        proof {
            lemma_index_in(s@, pos as int, n as int, NEWLINE);
        }
        let text_end = if e < n && e > pos && s[e - 1] == CARRIAGE_RETURN {
            e - 1
        } else {
            e
        };
        let eq = find_in(s, pos, text_end, EQUALS);
        proof {
            lemma_index_in(s@, pos as int, text_end as int, EQUALS);
        }
        if eq < text_end {
            let stamp = slice_subrange(s, eq + 1, text_end);
            match parse_u64(stamp) {
                Some(v) => {
                    out.push(MetadataEntry { path_start: pos, path_end: eq, timestamp: v });
                },
                None => {},
            }
        }
        proof {
            let next = if pos < e + 1 <= n {
                e + 1
            } else {
                n as int
            };
            let rest = entries_from(s@, next);
            assert(text_end == line_text_end(s@, pos as int));
            assert(entries_from(s@, pos as int) == match line_entry(
                s@,
                pos as int,
                line_text_end(s@, pos as int),
            ) {
                Some(en) => seq![en] + rest,
                None => rest,
            });
            match line_entry(s@, pos as int, line_text_end(s@, pos as int)) {
                Some(en) => {
                    assert(out@ =~= before.push(en));
                    assert(before + (seq![en] + rest) =~= out@ + rest);
                },
                None => {
                    assert(out@ =~= before);
                },
            }
        }
        if e >= n {
            proof {
                assert(entries_from(s@, n as int) =~= Seq::<MetadataEntry>::empty());
                assert(out@ + Seq::<MetadataEntry>::empty() =~= out@);
            }
            return out;
        }
        pos = e + 1;
    }
    proof {
        assert(out@ + Seq::<MetadataEntry>::empty() =~= out@);
    }
    out
}

/// The decimal digits of `v`, most significant first, without leading zeros (`0` for 0).
pub open spec fn decimal(v: nat) -> Seq<u8>
    decreases v,
{
    if v < 10 {
        seq![(DIGIT_ZERO + v) as u8]
    } else {
        decimal(v / 10).push((DIGIT_ZERO + v % 10) as u8)
    }
}

/// The decimal digits of a number are digits and spell the number.
pub proof fn lemma_decimal(v: nat)
    ensures
        decimal(v).len() > 0,
        all_digits(decimal(v)),
        digits_value(decimal(v)) == v,
    decreases v,
{
    if v < 10 {
        assert(decimal(v).drop_last() =~= Seq::<u8>::empty());
        assert(digits_value(Seq::<u8>::empty()) == 0);
    } else {
        lemma_decimal(v / 10);
        assert(v == (v / 10) * 10 + v % 10) by (nonlinear_arith);
        let d = decimal(v);
        assert(d.drop_last() =~= decimal(v / 10));
        assert(d.last() == (DIGIT_ZERO + v % 10) as u8);
        assert((d.last() - DIGIT_ZERO) as nat == v % 10);
        assert(digits_value(d) == digits_value(d.drop_last()) * 10 + (d.last() - DIGIT_ZERO) as nat);
        assert forall|i: int| 0 <= i < d.len() implies DIGIT_ZERO <= #[trigger] d[i] <= DIGIT_ZERO + 9 by {
            if i < d.len() - 1 {
                assert(d[i] == decimal(v / 10)[i]);
            }
        }
    }
}

/// Appends the decimal digits of `v`.
fn push_decimal(out: &mut Vec<u8>, v: u64)
    ensures
        final(out)@ == old(out)@ + decimal(v as nat),
    decreases v,
{
    if v < 10 {
        out.push(DIGIT_ZERO + v as u8);
        assert(decimal(v as nat) =~= seq![(DIGIT_ZERO + v) as u8]);
    } else {
        push_decimal(out, v / 10);
        out.push(DIGIT_ZERO + (v % 10) as u8);
        assert(final(out)@ =~= old(out)@ + decimal(v as nat)) by {
            assert(decimal(v as nat) =~= decimal((v / 10) as nat).push((DIGIT_ZERO + v % 10) as u8));
        }
    }
}

/// The text of a metadata file for `paths` (their bytes) and their time stamps: one line
/// `path=timestamp` each, in order.
pub open spec fn metadata_text(paths: Seq<Seq<u8>>, stamps: Seq<u64>) -> Seq<u8>
    decreases paths.len(),
{
    if paths.len() == 0 {
        seq![]
    } else {
        metadata_text(paths.drop_last(), stamps.drop_last()) + paths.last() + seq![EQUALS]
            + decimal(stamps[paths.len() - 1] as nat) + seq![NEWLINE]
    }
}

/// The UTF-8 bytes of the paths of `entries`.
pub open spec fn entry_paths(entries: Seq<(String, u64)>) -> Seq<Seq<u8>> {
    Seq::new(entries.len(), |i: int| encode_utf8(entries[i].0@))
}

/// The time stamps of `entries`.
pub open spec fn entry_stamps(entries: Seq<(String, u64)>) -> Seq<u64> {
    Seq::new(entries.len(), |i: int| entries[i].1)
}

/// The bytes of a metadata file holding `entries` (path and time stamp), one line each,
/// in order.
pub fn write_metadata(entries: &[(String, u64)]) -> (r: Vec<u8>)
    ensures
        r@ == metadata_text(entry_paths(entries@), entry_stamps(entries@)),
{
    let mut out: Vec<u8> = Vec::new();
    let mut i: usize = 0;
    while i < entries.len()
        invariant
            i <= entries@.len(),
            out@ == metadata_text(
                entry_paths(entries@.take(i as int)),
                entry_stamps(entries@.take(i as int)),
            ),
        decreases entries@.len() - i,
    {
        let ghost start = out@;
        let path = string_bytes(&entries[i].0);
        let mut k: usize = 0;
        while k < path.len()
            invariant
                k <= path@.len(),
                out@ == start + path@.take(k as int),
            decreases path@.len() - k,
        {
            out.push(path[k]);
            k += 1;
            assert(out@ =~= start + path@.take(k as int));
        }
        out.push(EQUALS);
        push_decimal(&mut out, entries[i].1);
        out.push(NEWLINE);
        proof {
            let next = entries@.take(i + 1);
            assert(entry_paths(next).drop_last() =~= entry_paths(entries@.take(i as int)));
            assert(entry_stamps(next).drop_last() =~= entry_stamps(entries@.take(i as int)));
            assert(path@.take(path@.len() as int) =~= path@);
            assert(out@ =~= metadata_text(entry_paths(next), entry_stamps(next)));
        }
        i += 1;
    }
    proof {
        assert(entries@.take(entries@.len() as int) =~= entries@);
    }
    out
}

/// The entries of `es` with their ranges moved `by` bytes on.
pub open spec fn shifted(es: Seq<MetadataEntry>, by: int) -> Seq<MetadataEntry> {
    Seq::new(
        es.len(),
        |i: int|
            MetadataEntry {
                path_start: (es[i].path_start + by) as usize,
                path_end: (es[i].path_end + by) as usize,
                timestamp: es[i].timestamp,
            },
    )
}

/// `index_in` only reads the bytes it passes over.
proof fn lemma_index_in_shift(a: Seq<u8>, b: Seq<u8>, from: int, to: int, c: u8)
    requires
        0 <= from <= to <= b.len(),
    ensures
        index_in(a + b, a.len() + from, a.len() + to, c) == a.len() + index_in(b, from, to, c),
    decreases to - from,
{
    if from < to {
        assert((a + b)[a.len() + from] == b[from]);
        lemma_index_in_shift(a, b, from + 1, to, c);
    }
}

/// Parsing the lines of `a + b` from a line start inside `b` finds the entries of `b`,
/// moved by the length of `a`.
proof fn lemma_entries_shift(a: Seq<u8>, b: Seq<u8>, q: int)
    requires
        0 <= q,
        a.len() + b.len() <= usize::MAX,
    ensures
        entries_from(a + b, a.len() + q) == shifted(entries_from(b, q), a.len() as int),
    decreases b.len() - q,
{
    let t = a + b;
    let p = a.len() + q;
    if q < b.len() {
        lemma_index_in_shift(a, b, q, b.len() as int, NEWLINE);
        lemma_index_in(b, q, b.len() as int, NEWLINE);
        let e = index_in(b, q, b.len() as int, NEWLINE);
        let te = line_text_end(b, q);
        assert(line_text_end(t, p) == a.len() + te) by {
            if e < b.len() && e > q {
                assert(t[a.len() + e - 1] == b[e - 1]);
            }
        }
        lemma_index_in(b, q, te, EQUALS);
        lemma_index_in_shift(a, b, q, te, EQUALS);
        let eq = index_in(b, q, te, EQUALS);
        if eq < te {
            assert(t.subrange(a.len() + eq + 1, a.len() + te) =~= b.subrange(eq + 1, te));
        }
        let next = if q < e + 1 <= b.len() {
            e + 1
        } else {
            b.len() as int
        };
        lemma_entries_shift(a, b, next);
        let rest = entries_from(b, next);
        let e_t = index_in(t, p, t.len() as int, NEWLINE);
        assert(e_t == a.len() + e);
        let next_t = if p < e_t + 1 <= t.len() {
            e_t + 1
        } else {
            t.len() as int
        };
        assert(next_t == a.len() + next);
        match line_entry(b, q, te) {
            Some(en) => {
                assert(line_entry(t, p, a.len() + te) == Some(shifted(seq![en], a.len() as int)[0]));
                assert(shifted(seq![en] + rest, a.len() as int) =~= seq![
                    shifted(seq![en], a.len() as int)[0],
                ] + shifted(rest, a.len() as int));
            },
            None => {
                assert(line_entry(t, p, a.len() + te) is None);
            },
        }
    } else {
        assert(shifted(Seq::<MetadataEntry>::empty(), a.len() as int) =~= Seq::<MetadataEntry>::empty());
    }
}

/// Parsing `a + b`, where `a` is empty or ends with a line break, finds the entries of
/// `a`, then those from the start of `b`.
proof fn lemma_entries_prefix(a: Seq<u8>, b: Seq<u8>, p: int)
    requires
        0 <= p <= a.len(),
        a.len() == 0 || a.last() == NEWLINE,
    ensures
        entries_from(a + b, p) == entries_from(a, p) + entries_from(a + b, a.len() as int),
    decreases a.len() - p,
{
    let t = a + b;
    if p < a.len() {
        lemma_index_in(a, p, a.len() as int, NEWLINE);
        lemma_index_in(t, p, t.len() as int, NEWLINE);
        lemma_index_in_prefix(a, b, p, NEWLINE);
        let e = index_in(a, p, a.len() as int, NEWLINE);
        assert(e < a.len());
        let te = line_text_end(a, p);
        assert(line_text_end(t, p) == te);
        lemma_index_in(a, p, te, EQUALS);
        lemma_index_in_same(a, t, p, te, EQUALS);
        let eq = index_in(a, p, te, EQUALS);
        if eq < te {
            assert(t.subrange(eq + 1, te) =~= a.subrange(eq + 1, te));
        }
        assert(line_entry(t, p, te) == line_entry(a, p, te));
        lemma_entries_prefix(a, b, e + 1);
        match line_entry(a, p, te) {
            Some(en) => {
                assert((seq![en] + entries_from(a, e + 1)) + entries_from(t, a.len() as int) =~= seq![en]
                    + (entries_from(a, e + 1) + entries_from(t, a.len() as int)));
            },
            None => {},
        }
    } else {
        assert(Seq::<MetadataEntry>::empty() + entries_from(t, a.len() as int) =~= entries_from(
            t,
            a.len() as int,
        ));
    }
}

/// In a text that is `a` (ending with a line break) followed by more, the line break that
/// ends a line of `a` is found within `a`.
proof fn lemma_index_in_prefix(a: Seq<u8>, b: Seq<u8>, p: int, c: u8)
    requires
        0 <= p < a.len(),
        a.last() == c,
    ensures
        index_in(a + b, p, (a + b).len() as int, c) == index_in(a, p, a.len() as int, c),
    decreases a.len() - p,
{
    if (a + b)[p] != c {
        lemma_index_in_prefix(a, b, p + 1, c);
    }
}

/// `index_in` over a range where two texts agree finds the same index.
proof fn lemma_index_in_same(a: Seq<u8>, t: Seq<u8>, from: int, to: int, c: u8)
    requires
        0 <= from <= to <= a.len(),
        to <= t.len(),
        forall|k: int| 0 <= k < a.len() ==> #[trigger] t[k] == a[k],
    ensures
        index_in(t, from, to, c) == index_in(a, from, to, c),
    decreases to - from,
{
    if from < to {
        lemma_index_in_same(a, t, from + 1, to, c);
    }
}

/// One line `path=timestamp\n` of a metadata file, for a path without `=` or line
/// breaks, reads back as that path and time stamp.
proof fn lemma_one_line(path: Seq<u8>, stamp: u64)
    requires
        forall|k: int| 0 <= k < path.len() ==> #[trigger] path[k] != EQUALS && path[k] != NEWLINE,
    ensures
        entries_from(path + seq![EQUALS] + decimal(stamp as nat) + seq![NEWLINE], 0) == seq![
            MetadataEntry { path_start: 0, path_end: path.len() as usize, timestamp: stamp },
        ],
{
    let d = decimal(stamp as nat);
    lemma_decimal(stamp as nat);
    let line = path + seq![EQUALS] + d + seq![NEWLINE];
    let n = line.len() as int;
    assert forall|k: int| 0 <= k < n - 1 implies #[trigger] line[k] != NEWLINE by {
        if k < path.len() {
            assert(line[k] == path[k]);
        } else if k > path.len() {
            assert(line[k] == d[k - path.len() - 1]);
        }
    }
    lemma_index_in(line, 0, n, NEWLINE);
    assert(index_in(line, 0, n, NEWLINE) == n - 1) by {
        assert(line[n - 1] == NEWLINE);
    }
    assert(line[n - 2] == d[d.len() - 1]);
    assert(line_text_end(line, 0) == n - 1);
    assert forall|k: int| 0 <= k < path.len() implies #[trigger] line[k] != EQUALS by {
        assert(line[k] == path[k]);
    }
    lemma_index_in(line, 0, n - 1, EQUALS);
    assert(line[path.len() as int] == EQUALS);
    assert(index_in(line, 0, n - 1, EQUALS) == path.len());
    assert(line.subrange(path.len() as int + 1, n - 1) =~= d);
    assert(d[0] != PLUS);
    assert(parse_u64_spec(d) == Some(stamp));
    assert(entries_from(line, n) =~= Seq::<MetadataEntry>::empty());
}

/// The entries `es` found in `text` are, in order, the paths `paths` (their ranges of
/// `text` hold them) with the time stamps `stamps`.
pub open spec fn reads_back(
    text: Seq<u8>,
    es: Seq<MetadataEntry>,
    paths: Seq<Seq<u8>>,
    stamps: Seq<u64>,
) -> bool {
    &&& es.len() == paths.len()
    &&& forall|i: int|
        0 <= i < paths.len() ==> text.subrange(
            #[trigger] es[i].path_start as int,
            es[i].path_end as int,
        ) == paths[i] && es[i].timestamp == stamps[i]
}

/// Reading back a metadata file gives each path and time stamp written, in order, when
/// no path holds `=` or a line break.
pub proof fn lemma_metadata_roundtrip(paths: Seq<Seq<u8>>, stamps: Seq<u64>)
    requires
        paths.len() == stamps.len(),
        metadata_text(paths, stamps).len() <= usize::MAX,
        forall|i: int, k: int|
            0 <= i < paths.len() && 0 <= k < paths[i].len() ==> #[trigger] paths[i][k] != EQUALS
                && paths[i][k] != NEWLINE,
    ensures
        reads_back(
            metadata_text(paths, stamps),
            entries_from(metadata_text(paths, stamps), 0),
            paths,
            stamps,
        ),
    decreases paths.len(),
{
    if paths.len() > 0 {
        let ps = paths.drop_last();
        let ss = stamps.drop_last();
        assert forall|i: int, k: int| 0 <= i < ps.len() && 0 <= k < ps[i].len() implies #[trigger] ps[i][k]
            != EQUALS && ps[i][k] != NEWLINE by {
            assert(ps[i] == paths[i]);
        }
        let a = metadata_text(ps, ss);
        let path = paths.last();
        let stamp = stamps[paths.len() - 1];
        let line = path + seq![EQUALS] + decimal(stamp as nat) + seq![NEWLINE];
        let text = metadata_text(paths, stamps);
        assert(text =~= a + line);
        lemma_metadata_roundtrip(ps, ss);
        assert forall|k: int| 0 <= k < path.len() implies #[trigger] path[k] != EQUALS && path[k]
            != NEWLINE by {
            assert(path[k] == paths[paths.len() - 1][k]);
        }
        lemma_one_line(path, stamp);
        assert(a.len() == 0 || a.last() == NEWLINE) by {
            if ps.len() > 0 {
                assert(a.last() == NEWLINE);
            }
        }
        lemma_entries_prefix(a, line, 0);
        lemma_entries_shift(a, line, 0);
        assert(a.len() + 0 == a.len());
        let es = entries_from(text, 0);
        let first = entries_from(a, 0);
        assert(es =~= first + shifted(
            seq![MetadataEntry { path_start: 0, path_end: path.len() as usize, timestamp: stamp }],
            a.len() as int,
        ));
        assert forall|i: int| 0 <= i < paths.len() implies text.subrange(
            #[trigger] es[i].path_start as int,
            es[i].path_end as int,
        ) == paths[i] && es[i].timestamp == stamps[i] by {
            if i < ps.len() {
                lemma_entry_in_prefix(a, line, first, i);
                assert(es[i] == first[i]);
                assert(a.subrange(first[i].path_start as int, first[i].path_end as int) == ps[i]);
                lemma_entry_in_prefix(a, line, first, i);
                assert(text.subrange(es[i].path_start as int, es[i].path_end as int) =~= a.subrange(
                    es[i].path_start as int,
                    es[i].path_end as int,
                ));
            } else {
                assert(text.subrange(a.len() as int, (a.len() + path.len()) as int) =~= path);
            }
        }
        assert(es.len() == paths.len());
        assert(forall|i: int|
            0 <= i < paths.len() ==> text.subrange(
                #[trigger] es[i].path_start as int,
                es[i].path_end as int,
            ) == paths[i] && es[i].timestamp == stamps[i]);
        assert(reads_back(text, es, paths, stamps));
    } else {
        assert(entries_from(metadata_text(paths, stamps), 0) =~= Seq::<MetadataEntry>::empty());
    }
}

/// An entry found in `a` lies inside `a`.
proof fn lemma_entry_in_prefix(a: Seq<u8>, line: Seq<u8>, es: Seq<MetadataEntry>, i: int)
    requires
        a.len() <= usize::MAX,
        es == entries_from(a, 0),
        0 <= i < es.len(),
    ensures
        0 <= es[i].path_start <= es[i].path_end <= a.len(),
{
    lemma_entries_bounds(a, 0);
}

/// The entries of a text lie inside it, their paths before their `=`.
proof fn lemma_entries_bounds(s: Seq<u8>, from: int)
    requires
        0 <= from,
        s.len() <= usize::MAX,
    ensures
        forall|i: int|
            0 <= i < entries_from(s, from).len() ==> from <= #[trigger] entries_from(s, from)[i].path_start
                <= entries_from(s, from)[i].path_end <= s.len(),
    decreases s.len() - from,
{
    if from < s.len() {
        lemma_index_in(s, from, s.len() as int, NEWLINE);
        let e = index_in(s, from, s.len() as int, NEWLINE);
        let te = line_text_end(s, from);
        lemma_index_in(s, from, te, EQUALS);
        let next = if from < e + 1 <= s.len() {
            e + 1
        } else {
            s.len() as int
        };
        lemma_entries_bounds(s, next);
        let rest = entries_from(s, next);
        match line_entry(s, from, te) {
            Some(en) => {
                assert(entries_from(s, from) == seq![en] + rest);
                assert forall|i: int| 0 <= i < entries_from(s, from).len() implies from
                    <= #[trigger] entries_from(s, from)[i].path_start <= entries_from(
                    s,
                    from,
                )[i].path_end <= s.len() by {
                    if i > 0 {
                        assert(entries_from(s, from)[i] == rest[i - 1]);
                    }
                }
            },
            None => {
                assert(entries_from(s, from) == rest);
            },
        }
    }
}

} // verus!
