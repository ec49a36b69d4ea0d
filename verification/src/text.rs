//! Text as the replica compares it.
//!
//! Timestamps and patches are plain strings. They are ordered as their UTF-8
//! bytes are ordered, lexicographically, and they are equal when their
//! characters are equal.

use vstd::prelude::*;
use vstd::utf8::encode_utf8;

verus! {

/// The first position at or after `from` where `a` and `b` differ, or where
/// the shorter of the two ends.
pub open spec fn first_difference(a: Seq<u8>, b: Seq<u8>, from: int) -> int
    decreases a.len() - from,
{
    if 0 <= from < a.len() && from < b.len() && a[from] == b[from] {
        first_difference(a, b, from + 1)
    } else {
        from
    }
}

/// `a` comes strictly before `b` in the lexicographic order of bytes.
pub open spec fn bytes_before(a: Seq<u8>, b: Seq<u8>) -> bool {
    let k = first_difference(a, b, 0);
    if k < a.len() && k < b.len() {
        a[k] < b[k]
    } else {
        a.len() < b.len()
    }
}

/// `a` comes strictly before `b`: the order of the two texts' UTF-8 bytes.
pub open spec fn text_before(a: Seq<char>, b: Seq<char>) -> bool {
    bytes_before(encode_utf8(a), encode_utf8(b))
}

/// What `first_difference` finds: the two agree below it, and it is a
/// position where they differ or where one of them ends.
pub proof fn lemma_first_difference(a: Seq<u8>, b: Seq<u8>, from: int)
    requires
        0 <= from <= a.len(),
        from <= b.len(),
    ensures
        from <= first_difference(a, b, from) <= a.len(),
        first_difference(a, b, from) <= b.len(),
        forall|j: int| from <= j < first_difference(a, b, from) ==> a[j] == b[j],
        first_difference(a, b, from) < a.len() && first_difference(a, b, from) < b.len()
            ==> a[first_difference(a, b, from)] != b[first_difference(a, b, from)],
    decreases a.len() - from,
{
    if from < a.len() && from < b.len() && a[from] == b[from] {
        lemma_first_difference(a, b, from + 1);
    }
}

/// A position below which the two agree and at which they differ, or one
/// ends, is the one that `first_difference` finds.
pub proof fn lemma_first_difference_is(a: Seq<u8>, b: Seq<u8>, from: int, k: int)
    requires
        0 <= from <= k <= a.len(),
        k <= b.len(),
        forall|j: int| from <= j < k ==> a[j] == b[j],
        k < a.len() && k < b.len() ==> a[k] != b[k],
    ensures
        first_difference(a, b, from) == k,
    decreases k - from,
{
    if from < k {
        lemma_first_difference_is(a, b, from + 1, k);
    }
}

/// No byte sequence comes before itself.
pub proof fn lemma_bytes_before_irreflexive(a: Seq<u8>)
    ensures
        !bytes_before(a, a),
{
    lemma_first_difference(a, a, 0);
}

/// Of two byte sequences that differ, exactly one comes before the other.
pub proof fn lemma_bytes_before_total(a: Seq<u8>, b: Seq<u8>)
    ensures
        a == b || bytes_before(a, b) || bytes_before(b, a),
        !(bytes_before(a, b) && bytes_before(b, a)),
        a == b ==> !bytes_before(a, b),
{
    lemma_first_difference(a, b, 0);
    let k = first_difference(a, b, 0);
    lemma_first_difference_is(b, a, 0, k);
    if !bytes_before(a, b) && !bytes_before(b, a) {
        assert(a =~= b);
    }
}

/// The order of byte sequences is transitive.
pub proof fn lemma_bytes_before_transitive(a: Seq<u8>, b: Seq<u8>, c: Seq<u8>)
    requires
        bytes_before(a, b),
        bytes_before(b, c),
    ensures
        bytes_before(a, c),
{
    lemma_first_difference(a, b, 0);
    lemma_first_difference(b, c, 0);
    let k1 = first_difference(a, b, 0);
    let k2 = first_difference(b, c, 0);
    let k = if k1 <= k2 {
        k1
    } else {
        k2
    };
    lemma_first_difference_is(a, c, 0, k);
}

/// Whether `a` comes strictly before `b` in the order of their UTF-8 bytes.
pub fn str_before(a: &str, b: &str) -> (r: bool)
    ensures
        r == text_before(a@, b@),
{
    let x = a.as_bytes();
    let y = b.as_bytes();
    let mut i: usize = 0;
    while i < x.len() && i < y.len() && x[i] == y[i]
        invariant
            i <= x.len(),
            i <= y.len(),
            x@ == encode_utf8(a@),
            y@ == encode_utf8(b@),
            first_difference(x@, y@, 0) == first_difference(x@, y@, i as int),
        decreases x.len() - i,
    {
        i += 1;
    }
    if i < x.len() && i < y.len() {
        x[i] < y[i]
    } else {
        x.len() < y.len()
    }
}

/// Whether two texts hold the same characters.
pub fn str_eq(a: &str, b: &str) -> (r: bool)
    ensures
        r == (a@ == b@),
{
    let x = a.as_bytes();
    let y = b.as_bytes();
    proof {
        vstd::utf8::encode_utf8_decode_utf8(a@);
        vstd::utf8::encode_utf8_decode_utf8(b@);
    }
    if x.len() != y.len() {
        return false;
    }
    let mut i: usize = 0;
    while i < x.len()
        invariant
            i <= x.len(),
            x.len() == y.len(),
            x@ == encode_utf8(a@),
            y@ == encode_utf8(b@),
            forall|j: int| 0 <= j < i ==> x@[j] == y@[j],
        decreases x.len() - i,
    {
        if x[i] != y[i] {
            return false;
        }
        i += 1;
    }
    assert(x@ =~= y@);
    true
}

/// Whether `list` holds a text equal to `x`.
pub open spec fn holds_text(list: Seq<Seq<char>>, x: Seq<char>) -> bool {
    exists|i: int| 0 <= i < list.len() && list[i] == x
}

/// Whether `list` holds a string equal to `x`.
pub fn contains_text(list: &Vec<String>, x: &str) -> (r: bool)
    ensures
        r == holds_text(list.deep_view(), x@),
{
    let mut i: usize = 0;
    while i < list.len()
        invariant
            i <= list.len(),
            forall|j: int| 0 <= j < i ==> list.deep_view()[j] != x@,
        decreases list.len() - i,
    {
        if str_eq(list[i].as_str(), x) {
            assert(list.deep_view()[i as int] == x@);
            return true;
        }
        i += 1;
    }
    false
}

} // verus!
