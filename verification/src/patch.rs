//! Game patches.
//!
//! A patch is a dot-separated version such as `14.3.1`. Two patches are held
//! to agree when their leading segments, at most two of them, denote the same
//! numbers. A segment that is not a number counts as zero.

use vstd::prelude::*;
use vstd::utf8::encode_utf8;

verus! {

/// The byte `.`, which separates segments.
pub const DOT: u8 = 46;

/// The byte `+`, which may stand before a segment's digits.
pub const PLUS: u8 = 43;

/// The byte `0`.
pub const ZERO: u8 = 48;

/// The byte `9`.
pub const NINE: u8 = 57;

/// How many leading segments are compared at most.
pub const COMPARED_SEGMENTS: usize = 2;

/// The position of the first dot at or after `from`, or the end of `s`.
pub open spec fn next_dot(s: Seq<u8>, from: int) -> int
    decreases s.len() - from,
{
    if 0 <= from < s.len() && s[from] != DOT {
        next_dot(s, from + 1)
    } else {
        from
    }
}

/// The segments of `s` that start at or after `from`.
pub open spec fn segments_from(s: Seq<u8>, from: int) -> Seq<Seq<u8>>
    decreases s.len() - from,
{
    let dot = next_dot(s, from);
    if 0 <= from <= dot < s.len() {
        seq![s.subrange(from, dot)] + segments_from(s, dot + 1)
    } else if 0 <= from <= s.len() {
        seq![s.subrange(from, s.len() as int)]
    } else {
        seq![]
    }
}

/// The segments of `s`: what stands between its dots. There is always at
/// least one, which may be empty.
pub open spec fn segments(s: Seq<u8>) -> Seq<Seq<u8>> {
    segments_from(s, 0)
}

/// Whether every byte of `s` is a decimal digit.
pub open spec fn all_digits(s: Seq<u8>) -> bool {
    forall|i: int| 0 <= i < s.len() ==> ZERO <= #[trigger] s[i] <= NINE
}

/// The number that the decimal digits `s` denote.
pub open spec fn decimal(s: Seq<u8>) -> nat
    decreases s.len(),
{
    if s.len() == 0 {
        0
    } else {
        10 * decimal(s.drop_last()) + (s.last() - ZERO) as nat
    }
}

/// A segment without the sign that may stand before its digits.
pub open spec fn unsigned_part(s: Seq<u8>) -> Seq<u8> {
    if s.len() > 0 && s[0] == PLUS {
        s.drop_first()
    } else {
        s
    }
}

/// The number of a segment: the value of its digits where it is one or more
/// digits, after an optional `+`, and the value fits in 32 bits; zero
/// otherwise.
pub open spec fn segment_number(s: Seq<u8>) -> nat {
    let digits = unsigned_part(s);
    if digits.len() > 0 && all_digits(digits) && decimal(digits) <= u32::MAX {
        decimal(digits)
    } else {
        0
    }
}

/// The numbers of all segments of `s`.
pub open spec fn segment_numbers(s: Seq<u8>) -> Seq<nat> {
    segments(s).map_values(|seg: Seq<u8>| segment_number(seg))
}

/// How many leading segments of two patches are compared: two where both
/// have as many, else as many as the shorter has.
pub open spec fn compared(a: Seq<nat>, b: Seq<nat>) -> int {
    if a.len() >= COMPARED_SEGMENTS && b.len() >= COMPARED_SEGMENTS {
        COMPARED_SEGMENTS as int
    } else if a.len() <= b.len() {
        a.len() as int
    } else {
        b.len() as int
    }
}

/// Whether two sequences of segment numbers agree on the segments compared.
pub open spec fn numbers_agree(a: Seq<nat>, b: Seq<nat>) -> bool {
    forall|i: int| 0 <= i < compared(a, b) ==> a[i] == b[i]
}

/// Whether a series' patch agrees with a filter's patch.
pub open spec fn patches_agree(series_patch: Seq<char>, filter_patch: Seq<char>) -> bool {
    numbers_agree(
        segment_numbers(encode_utf8(series_patch)),
        segment_numbers(encode_utf8(filter_patch)),
    )
}

/// `next_dot` stays within the sequence, and no dot stands before it.
pub proof fn lemma_next_dot(s: Seq<u8>, from: int)
    requires
        0 <= from <= s.len(),
    ensures
        from <= next_dot(s, from) <= s.len(),
        forall|j: int| from <= j < next_dot(s, from) ==> s[j] != DOT,
        next_dot(s, from) < s.len() ==> s[next_dot(s, from)] == DOT,
    decreases s.len() - from,
{
    if from < s.len() && s[from] != DOT {
        lemma_next_dot(s, from + 1);
    }
}

/// A value of digits does not shrink when more digits follow.
pub proof fn lemma_decimal_prefix(s: Seq<u8>, k: int)
    requires
        0 <= k <= s.len(),
        all_digits(s),
    ensures
        decimal(s.subrange(0, k)) <= decimal(s),
    decreases s.len(),
{
    if k == s.len() {
        assert(s.subrange(0, k) =~= s);
    } else {
        let front = s.drop_last();
        assert(all_digits(front)) by {
            assert forall|i: int| 0 <= i < front.len() implies ZERO <= #[trigger] front[i]
                <= NINE by {
                assert(front[i] == s[i]);
            }
        }
        lemma_decimal_prefix(front, k);
        assert(front.subrange(0, k) =~= s.subrange(0, k));
        assert(ZERO <= s[s.len() - 1] <= NINE);
    }
}

/// The number of the segment `bytes[from..to]`.
fn parse_segment(bytes: &[u8], from: usize, to: usize) -> (r: u32)
    requires
        from <= to <= bytes@.len(),
    ensures
        r == segment_number(bytes@.subrange(from as int, to as int)),
{
    let ghost seg = bytes@.subrange(from as int, to as int);
    let start: usize = if from < to && bytes[from] == PLUS {
        from + 1
    } else {
        from
    };
    let ghost digits = unsigned_part(seg);
    assert(digits =~= bytes@.subrange(start as int, to as int));
    if start == to {
        return 0;
    }
    let mut acc: u64 = 0;
    let mut i: usize = start;
    assert(digits.subrange(0, 0) =~= Seq::<u8>::empty());
    while i < to
        invariant
            from <= start <= i <= to <= bytes@.len(),
            start < to,
            seg == bytes@.subrange(from as int, to as int),
            digits == bytes@.subrange(start as int, to as int),
            digits == unsigned_part(seg),
            all_digits(digits.subrange(0, i - start)),
            acc == decimal(digits.subrange(0, i - start)),
            acc <= u32::MAX,
        decreases to - i,
    {
        let b = bytes[i];
        let ghost upto = digits.subrange(0, i - start + 1);
        assert(upto.drop_last() =~= digits.subrange(0, i - start));
        assert(upto.last() == b);
        if b < ZERO || b > NINE {
            assert(!all_digits(digits)) by {
                assert(digits[i - start] == b);
            }
            return 0;
        }
        let next: u64 = acc * 10 + (b - ZERO) as u64;
        assert(next == decimal(upto));
        assert(all_digits(upto)) by {
            assert forall|j: int| 0 <= j < upto.len() implies ZERO <= #[trigger] upto[j]
                <= NINE by {
                if j < i - start {
                    assert(upto[j] == digits.subrange(0, i - start)[j]);
                }
            }
        }
        if next > u32::MAX as u64 {
            proof {
                if all_digits(digits) {
                    lemma_decimal_prefix(digits, i - start + 1);
                }
            }
            return 0;
        }
        acc = next;
        i += 1;
    }
    assert(digits.subrange(0, i - start) =~= digits);
    acc as u32
}

/// The numbers of the segments of a patch, in order.
pub fn normalize(patch: &str) -> (r: Vec<u32>)
    ensures
        r@.len() == segment_numbers(encode_utf8(patch@)).len(),
        forall|i: int| 0 <= i < r@.len() ==> r@[i] == segment_numbers(encode_utf8(patch@))[i],
{
    let bytes = patch.as_bytes();
    let ghost s = bytes@;
    let mut out: Vec<u32> = Vec::new();
    let mut start: usize = 0;
    let mut i: usize = 0;
    let ghost mut done: Seq<Seq<u8>> = Seq::empty();
    assert(done + segments_from(s, 0) =~= segments(s));
    while i < bytes.len()
        invariant
            start <= i <= bytes.len(),
            s == bytes@,
            forall|j: int| start <= j < i ==> s[j] != DOT,
            segments(s) == done + segments_from(s, start as int),
            out@.len() == done.len(),
            forall|k: int| 0 <= k < done.len() ==> out@[k] == segment_number(done[k]),
        decreases bytes.len() - i,
    {
        if bytes[i] == DOT {
            let n = parse_segment(bytes, start, i);
            proof {
                lemma_next_dot(s, start as int);
                lemma_next_dot_is(s, start as int, i as int);
                let seg = s.subrange(start as int, i as int);
                assert(segments_from(s, start as int) == seq![seg] + segments_from(s, i + 1));
                assert(done + (seq![seg] + segments_from(s, i + 1)) =~= done.push(seg)
                    + segments_from(s, i + 1));
                done = done.push(seg);
            }
            out.push(n);
            start = i + 1;
        }
        i += 1;
    }
    let n = parse_segment(bytes, start, i);
    proof {
        lemma_next_dot_is(s, start as int, i as int);
        let seg = s.subrange(start as int, i as int);
        assert(segments_from(s, start as int) == seq![seg]);
        assert(done + seq![seg] =~= done.push(seg));
        done = done.push(seg);
    }
    out.push(n);
    assert(segment_numbers(s).len() == done.len());
    out
}

/// A position before which no dot stands, and which holds a dot or is the
/// end, is the one that `next_dot` finds.
pub proof fn lemma_next_dot_is(s: Seq<u8>, from: int, k: int)
    requires
        0 <= from <= k <= s.len(),
        forall|j: int| from <= j < k ==> s[j] != DOT,
        k < s.len() ==> s[k] == DOT,
    ensures
        next_dot(s, from) == k,
    decreases k - from,
{
    if from < k {
        lemma_next_dot_is(s, from + 1, k);
    }
}

/// Whether a series' patch agrees with a filter's patch on their leading
/// segments.
pub fn patch_matches(series_patch: &str, filter_patch: &str) -> (r: bool)
    ensures
        r == patches_agree(series_patch@, filter_patch@),
{
    let series_parts = normalize(series_patch);
    let filter_parts = normalize(filter_patch);
    let ghost a = segment_numbers(encode_utf8(series_patch@));
    let ghost b = segment_numbers(encode_utf8(filter_patch@));
    let segments_to_compare: usize = if series_parts.len() >= COMPARED_SEGMENTS
        && filter_parts.len() >= COMPARED_SEGMENTS {
        COMPARED_SEGMENTS
    } else if series_parts.len() <= filter_parts.len() {
        series_parts.len()
    } else {
        filter_parts.len()
    };
    let mut i: usize = 0;
    while i < segments_to_compare
        invariant
            i <= segments_to_compare,
            a == segment_numbers(encode_utf8(series_patch@)),
            b == segment_numbers(encode_utf8(filter_patch@)),
            segments_to_compare == compared(a, b),
            segments_to_compare <= series_parts@.len(),
            segments_to_compare <= filter_parts@.len(),
            series_parts@.len() == a.len(),
            filter_parts@.len() == b.len(),
            forall|k: int| 0 <= k < a.len() ==> series_parts@[k] == a[k],
            forall|k: int| 0 <= k < b.len() ==> filter_parts@[k] == b[k],
            forall|k: int| 0 <= k < i ==> a[k] == b[k],
        decreases segments_to_compare - i,
    {
        if series_parts[i] != filter_parts[i] {
            assert(a[i as int] != b[i as int]);
            return false;
        }
        i += 1;
    }
    true
}

} // verus!
