//! Splitting a multi-document YAML text on the literal three-byte document
//! separator `---`. The split is a plain, non-overlapping, leftmost-first
//! byte search, not a YAML-syntax-aware scan: a `---` inside a scalar is
//! indistinguishable from a real document boundary. This is a documented
//! limitation of the loader.

use vstd::prelude::*;

verus! {

/// The separator begins at byte `i` of `s`: three `-` bytes in a row.
pub open spec fn marker_at(s: Seq<u8>, i: int) -> bool {
    &&& 0 <= i
    &&& i + 3 <= s.len()
    &&& s[i] == 45u8
    &&& s[i + 1] == 45u8
    &&& s[i + 2] == 45u8
}

/// The position of the first separator at or after `from`, if any.
pub open spec fn find_marker(s: Seq<u8>, from: int) -> Option<int>
    decreases s.len() - from,
{
    if from + 3 > s.len() {
        None
    } else if marker_at(s, from) {
        Some(from)
    } else {
        find_marker(s, from + 1)
    }
}

pub proof fn lemma_find_marker_some(s: Seq<u8>, from: int, k: int)
    requires
        find_marker(s, from) == Some(k),
    ensures
        from <= k,
        marker_at(s, k),
        forall|j: int| from <= j < k ==> !marker_at(s, j),
    decreases s.len() - from,
{
    if from + 3 > s.len() {
    } else if marker_at(s, from) {
    } else {
        lemma_find_marker_some(s, from + 1, k);
    }
}

/// The first separator at or after `from` is exactly the one a left-to-right
/// scan finds: a separator at `k` with none in `[from, k)`.
pub proof fn lemma_find_marker_first(s: Seq<u8>, from: int, k: int)
    requires
        from <= k,
        marker_at(s, k),
        forall|j: int| from <= j < k ==> !marker_at(s, j),
    ensures
        find_marker(s, from) == Some(k),
    decreases s.len() - from,
{
    if from == k {
    } else {
        lemma_find_marker_first(s, from + 1, k);
    }
}

/// A separator occurs somewhere in `s`.
pub open spec fn has_marker(s: Seq<u8>) -> bool {
    exists|j: int| marker_at(s, j)
}

/// A text with no separator at or after `from` has no find result there.
pub proof fn lemma_find_marker_absent(s: Seq<u8>, from: int)
    requires
        forall|j: int| from <= j ==> !marker_at(s, j),
    ensures
        find_marker(s, from) is None,
    decreases s.len() - from,
{
    if from + 3 > s.len() {
    } else {
        lemma_find_marker_absent(s, from + 1);
    }
}

/// Finding from a position only reads the suffix there: positions shift.
pub proof fn lemma_find_marker_shift(s: Seq<u8>, p: int, q: int)
    requires
        0 <= p <= s.len(),
        0 <= q,
    ensures
        find_marker(s, p + q) == (match find_marker(s.skip(p), q) {
            None => None::<int>,
            Some(k) => Some(k + p)
        }),
    decreases s.len() - p - q,
{
    let t = s.skip(p);
    if p + q + 3 > s.len() {
    } else {
        assert(t[q] == s[p + q] && t[q + 1] == s[p + q + 1] && t[q + 2] == s[p + q + 2]);
        if marker_at(s, p + q) {
        } else {
            lemma_find_marker_shift(s, p, q + 1);
        }
    }
}

/// Splitting from a position is splitting the suffix there.
pub proof fn lemma_split_shift(s: Seq<u8>, p: int)
    requires
        0 <= p <= s.len(),
    ensures
        split_from(s, p) == split_docs(s.skip(p)),
    decreases s.len() - p,
{
    let t = s.skip(p);
    lemma_find_marker_shift(s, p, 0);
    match find_marker(s, p) {
        Option::None => {
            assert(s.subrange(p, s.len() as int) =~= t.subrange(0, t.len() as int));
        },
        Option::Some(k) => {
            lemma_find_marker_some(s, p, k);
            lemma_split_shift(s, k + 3);
            lemma_split_shift(t, k - p + 3);
            assert(t.skip(k - p + 3) =~= s.skip(k + 3));
            assert(s.subrange(p, k) =~= t.subrange(0, k - p));
        },
    }
}

/// The segments of `s` from `from` on: the text between consecutive
/// separators, the text before the first one included, the text after the
/// last one included, both possibly empty.
pub open spec fn split_from(s: Seq<u8>, from: int) -> Seq<Seq<u8>>
    recommends
        0 <= from <= s.len(),
    decreases s.len() - from,
        via split_from_dec
{
    match find_marker(s, from) {
        Option::None => seq![s.subrange(from, s.len() as int)],
        Option::Some(k) => seq![s.subrange(from, k)] + split_from(s, k + 3),
    }
}

#[via_fn]
proof fn split_from_dec(s: Seq<u8>, from: int) {
    match find_marker(s, from) {
        Option::None => {},
        Option::Some(k) => {
            lemma_find_marker_some(s, from, k);
        },
    }
}

/// All the segments of `s`, in order. A text with no separator is one
/// segment, itself.
pub open spec fn split_docs(s: Seq<u8>) -> Seq<Seq<u8>> {
    split_from(s, 0)
}

/// How many separators the same left-to-right, non-overlapping scan counts.
pub open spec fn marker_count_from(s: Seq<u8>, from: int) -> nat
    recommends
        0 <= from <= s.len(),
    decreases s.len() - from,
        via marker_count_from_dec
{
    match find_marker(s, from) {
        Option::None => 0,
        Option::Some(k) => 1 + marker_count_from(s, k + 3),
    }
}

#[via_fn]
proof fn marker_count_from_dec(s: Seq<u8>, from: int) {
    match find_marker(s, from) {
        Option::None => {},
        Option::Some(k) => {
            lemma_find_marker_some(s, from, k);
        },
    }
}

pub open spec fn marker_count(s: Seq<u8>) -> nat {
    marker_count_from(s, 0)
}

/// A text with N separators splits into exactly N + 1 segments.
pub proof fn lemma_split_count(s: Seq<u8>, from: int)
    ensures
        split_from(s, from).len() == marker_count_from(s, from) + 1,
    decreases s.len() - from,
{
    match find_marker(s, from) {
        Option::None => {},
        Option::Some(k) => {
            lemma_find_marker_some(s, from, k);
            lemma_split_count(s, k + 3);
        },
    }
}

/// Split `v` on every `---`, leftmost first, non-overlapping. Returns the
/// segments in order; there is always at least one, and a segment may be
/// empty.
pub fn split_stream(v: &[u8]) -> (segs: Vec<Vec<u8>>)
    ensures
        segs@.map_values(|seg: Vec<u8>| seg@) == split_docs(v@),
        segs@.len() >= 1,
{
    let ghost full: Seq<u8> = v@;
    let mut segs: Vec<Vec<u8>> = Vec::new();
    let mut seg_start: usize = 0;
    let mut i: usize = 0;
    while v.len() >= 3 && i <= v.len() - 3
        invariant
            seg_start <= i,
            i <= v@.len(),
            v@ == full,
            split_docs(full) == segs@.map_values(|seg: Vec<u8>| seg@) + split_from(
                full,
                seg_start as int,
            ),
            forall|j: int| seg_start <= j < i ==> !marker_at(full, j),
        decreases v@.len() - i,
    {
        if v[i] == 45u8 && v[i + 1] == 45u8 && v[i + 2] == 45u8 {
            proof {
                lemma_find_marker_first(full, seg_start as int, i as int);
            }
            let seg = vstd::slice::slice_to_vec(vstd::slice::slice_subrange(v, seg_start, i));
            let ghost prior = segs@.map_values(|seg: Vec<u8>| seg@);
            segs.push(seg);
            proof {
                assert(segs@.map_values(|seg: Vec<u8>| seg@) =~= prior + seq![
                    full.subrange(seg_start as int, i as int),
                ]);
                assert(split_docs(full) =~= segs@.map_values(|seg: Vec<u8>| seg@) + split_from(
                    full,
                    i as int + 3,
                ));
            }
            seg_start = i + 3;
            i = seg_start;
        } else {
            i = i + 1;
        }
    }
    proof {
        assert forall|j: int| seg_start <= j implies !marker_at(full, j) by {
            if j + 3 <= full.len() {
                assert(j < i);
            }
        }
        lemma_find_marker_absent(full, seg_start as int);
    }
    let seg = vstd::slice::slice_to_vec(vstd::slice::slice_subrange(v, seg_start, v.len()));
    let ghost prior = segs@.map_values(|seg: Vec<u8>| seg@);
    segs.push(seg);
    proof {
        assert(segs@.map_values(|seg: Vec<u8>| seg@) =~= prior + seq![
            full.subrange(seg_start as int, full.len() as int),
        ]);
    }
    segs
}

} // verus!
