//! The combiner: one ordered batch of documents becomes one byte stream,
//! in one of three encodings. Per-document rendering is the codec's; the
//! assembly — markers, brackets, commas, the list wrapper — is all here,
//! both as one-shot functions over a whole batch and as per-document
//! steps, so a caller may stream each document's bytes as it goes.

use vstd::prelude::*;

use crate::codec::doc_to_json;
use crate::codec::doc_to_yaml;
use crate::codec::json_bytes_of;
use crate::codec::json_ok;
use crate::codec::yaml_bytes_of;
use crate::codec::yaml_ok;
use crate::doc::Document;

verus! {

/// Why an encode failed: a document the target encoding cannot represent,
/// or a destination that could not be written.
#[derive(Debug, Clone, Copy, PartialEq, Eq, Structural)]
pub enum EncodeError {
    SerializationFailure,
    WriteFailure,
}

/// The YAML document-start marker line `---` with its newline, emitted
/// before every document of a stream so that the output splits back into
/// the same number of segments.
pub open spec fn yaml_marker() -> Seq<u8> {
    seq![45u8, 45u8, 45u8, 10u8]
}

/// The bytes of a YAML stream: for each document, in order, a marker line
/// then the document's own rendering.
pub open spec fn yaml_stream_bytes(docs: Seq<Document>) -> Seq<u8>
    decreases docs.len(),
{
    if docs.len() == 0 {
        Seq::empty()
    } else {
        yaml_stream_bytes(docs.drop_last()) + yaml_marker() + yaml_bytes_of(docs.last())
    }
}

/// The bytes between the brackets of a JSON array of the batch: the
/// documents' renderings joined by single commas, nothing else.
pub open spec fn json_items_bytes(docs: Seq<Document>) -> Seq<u8>
    decreases docs.len(),
{
    if docs.len() == 0 {
        Seq::empty()
    } else if docs.len() == 1 {
        json_bytes_of(docs[0])
    } else {
        json_items_bytes(docs.drop_last()) + seq![44u8] + json_bytes_of(docs.last())
    }
}

/// The bytes of the JSON array encoding: `[`, the joined items, `]`.
pub open spec fn json_array_bytes(docs: Seq<Document>) -> Seq<u8> {
    seq![91u8] + json_items_bytes(docs) + seq![93u8]
}

/// The fixed head of the Kubernetes-style list object, up to and including
/// the opening bracket of its `items` array.
pub open spec fn k8s_prefix() -> Seq<u8> {
    seq![
        123u8, 34u8, 107u8, 105u8, 110u8, 100u8, 34u8, 58u8, 32u8, 34u8, 76u8, 105u8, 115u8,
        116u8, 34u8, 44u8, 32u8, 34u8, 97u8, 112u8, 105u8, 86u8, 101u8, 114u8, 115u8, 105u8,
        111u8, 110u8, 34u8, 58u8, 32u8, 34u8, 118u8, 49u8, 34u8, 44u8, 32u8, 34u8, 105u8, 116u8,
        101u8, 109u8, 115u8, 34u8, 58u8, 32u8, 91u8,
    ]
}

/// The bytes of the Kubernetes-style list encoding: the fixed head, the
/// same joined items as the JSON array, then `]}`.
pub open spec fn k8s_list_bytes(docs: Seq<Document>) -> Seq<u8> {
    k8s_prefix() + json_items_bytes(docs) + seq![93u8, 125u8]
}

/// Every document of the batch is one the YAML renderer accepts.
pub open spec fn all_yaml_ok(docs: Seq<Document>) -> bool {
    forall|i: int| 0 <= i < docs.len() ==> yaml_ok(#[trigger] docs[i])
}

/// Every document of the batch is one the JSON renderer accepts.
pub open spec fn all_json_ok(docs: Seq<Document>) -> bool {
    forall|i: int| 0 <= i < docs.len() ==> json_ok(#[trigger] docs[i])
}

/// One step of a streamed YAML encoding: the marker line, then one
/// document's rendering. Fails exactly when the document is not YAML-
/// representable, with nothing written for it.
pub fn yaml_stream_step(doc: &Document) -> (r: Result<Vec<u8>, EncodeError>)
    ensures
        r matches Ok(out) ==> out@ == yaml_marker() + yaml_bytes_of(*doc),
        r is Ok <==> yaml_ok(*doc),
        r matches Err(e) ==> e == EncodeError::SerializationFailure,
{
    match doc_to_yaml(doc) {
        Some(mut body) => {
            let ghost rendered = body@;
            let mut out: Vec<u8> = Vec::new();
            out.push(45u8);
            out.push(45u8);
            out.push(45u8);
            out.push(10u8);
            out.append(&mut body);
            proof {
                assert(out@ =~= yaml_marker() + rendered);
            }
            Ok(out)
        },
        None => Err(EncodeError::SerializationFailure),
    }
}

/// One step of a streamed JSON encoding, array and list alike: a single
/// comma unless the document is the batch's first, then the document's
/// rendering. Fails exactly when the document is not JSON-representable,
/// with nothing written for it.
pub fn json_item_step(doc: &Document, first: bool) -> (r: Result<Vec<u8>, EncodeError>)
    ensures
        r matches Ok(out) ==> out@ == (if first {
            Seq::<u8>::empty()
        } else {
            seq![44u8]
        }) + json_bytes_of(*doc),
        r is Ok <==> json_ok(*doc),
        r matches Err(e) ==> e == EncodeError::SerializationFailure,
{
    match doc_to_json(doc) {
        Some(mut body) => {
            let ghost rendered = body@;
            let mut out: Vec<u8> = Vec::new();
            if !first {
                out.push(44u8);
            }
            out.append(&mut body);
            proof {
                if first {
                    assert(out@ =~= Seq::<u8>::empty() + rendered);
                } else {
                    assert(out@ =~= seq![44u8] + rendered);
                }
            }
            Ok(out)
        },
        None => Err(EncodeError::SerializationFailure),
    }
}

/// Serialize the batch as a YAML stream: each document standalone, led by
/// its own `---` marker line, back to back in batch order. Succeeds
/// exactly when every document is YAML-representable.
pub fn write_to_yaml(docs: &Vec<Document>) -> (r: Result<Vec<u8>, EncodeError>)
    ensures
        r matches Ok(out) ==> out@ == yaml_stream_bytes(docs@),
        r is Ok <==> all_yaml_ok(docs@),
        r matches Err(e) ==> e == EncodeError::SerializationFailure,
{
    let mut out: Vec<u8> = Vec::new();
    let mut i: usize = 0;
    while i < docs.len()
        invariant
            i <= docs@.len(),
            out@ == yaml_stream_bytes(docs@.take(i as int)),
            forall|j: int| 0 <= j < i ==> yaml_ok(#[trigger] docs@[j]),
        decreases docs@.len() - i,
    {
        let ghost prior = out@;
        match yaml_stream_step(&docs[i]) {
            Ok(mut chunk) => {
                out.append(&mut chunk);
                proof {
                    let t = docs@.take(i as int + 1);
                    assert(t.drop_last() =~= docs@.take(i as int));
                    assert(out@ =~= prior + (yaml_marker() + yaml_bytes_of(docs@[i as int])));
                }
            },
            Err(e) => {
                proof {
                    assert(!yaml_ok(docs@[i as int]));
                    assert(!all_yaml_ok(docs@)) by {
                        if all_yaml_ok(docs@) {
                            assert(yaml_ok(docs@[i as int]));
                        }
                    }
                }
                return Err(e);
            },
        }
        i = i + 1;
    }
    proof {
        assert(docs@.take(docs@.len() as int) =~= docs@);
    }
    Ok(out)
}

/// Render the joined items of the batch: each document's JSON, a single
/// comma between neighbours, no leading or trailing separator. Succeeds
/// exactly when every document is JSON-representable.
fn json_items(docs: &Vec<Document>) -> (r: Result<Vec<u8>, EncodeError>)
    ensures
        r matches Ok(out) ==> out@ == json_items_bytes(docs@),
        r is Ok <==> all_json_ok(docs@),
        r matches Err(e) ==> e == EncodeError::SerializationFailure,
{
    let mut out: Vec<u8> = Vec::new();
    let mut i: usize = 0;
    while i < docs.len()
        invariant
            i <= docs@.len(),
            out@ == json_items_bytes(docs@.take(i as int)),
            forall|j: int| 0 <= j < i ==> json_ok(#[trigger] docs@[j]),
        decreases docs@.len() - i,
    {
        let ghost prior = out@;
        match json_item_step(&docs[i], i == 0) {
            Ok(mut chunk) => {
                out.append(&mut chunk);
                proof {
                    let t = docs@.take(i as int + 1);
                    assert(t.drop_last() =~= docs@.take(i as int));
                    if i == 0 {
                        assert(out@ =~= json_bytes_of(docs@[0]));
                    } else {
                        assert(out@ =~= prior + seq![44u8] + json_bytes_of(docs@[i as int]));
                    }
                }
            },
            Err(e) => {
                proof {
                    assert(!json_ok(docs@[i as int]));
                    assert(!all_json_ok(docs@)) by {
                        if all_json_ok(docs@) {
                            assert(json_ok(docs@[i as int]));
                        }
                    }
                }
                return Err(e);
            },
        }
        i = i + 1;
    }
    proof {
        assert(docs@.take(docs@.len() as int) =~= docs@);
    }
    Ok(out)
}

/// Serialize the batch as one JSON array, each document one element, in
/// batch order; a valid array even for zero or one documents. Succeeds
/// exactly when every document is JSON-representable: a mapping key that
/// is a boolean or a finite number comes out as a quoted string — the
/// JSON renderer's stated coercion — and a key JSON cannot carry at all
/// fails the whole encode.
pub fn write_to_json_array(docs: &Vec<Document>) -> (r: Result<Vec<u8>, EncodeError>)
    ensures
        r matches Ok(out) ==> out@ == json_array_bytes(docs@),
        r is Ok <==> all_json_ok(docs@),
        r matches Err(e) ==> e == EncodeError::SerializationFailure,
{
    let mut items = match json_items(docs) {
        Ok(v) => v,
        Err(e) => {
            return Err(e);
        },
    };
    let mut out: Vec<u8> = Vec::new();
    out.push(91u8);
    out.append(&mut items);
    out.push(93u8);
    proof {
        assert(out@ =~= json_array_bytes(docs@));
    }
    Ok(out)
}

/// Serialize the batch as a Kubernetes-style list object: the same items
/// as the JSON array, nested under the fixed
/// `{"kind": "List", "apiVersion": "v1", "items": [...]}` wrapper.
/// Succeeds exactly when every document is JSON-representable.
pub fn write_to_json_kubernetes(docs: &Vec<Document>) -> (r: Result<Vec<u8>, EncodeError>)
    ensures
        r matches Ok(out) ==> out@ == k8s_list_bytes(docs@),
        r is Ok <==> all_json_ok(docs@),
        r matches Err(e) ==> e == EncodeError::SerializationFailure,
{
    let mut items = match json_items(docs) {
        Ok(v) => v,
        Err(e) => {
            return Err(e);
        },
    };
    let head: [u8; 47] = [
        123u8, 34u8, 107u8, 105u8, 110u8, 100u8, 34u8, 58u8, 32u8, 34u8, 76u8, 105u8, 115u8,
        116u8, 34u8, 44u8, 32u8, 34u8, 97u8, 112u8, 105u8, 86u8, 101u8, 114u8, 115u8, 105u8,
        111u8, 110u8, 34u8, 58u8, 32u8, 34u8, 118u8, 49u8, 34u8, 44u8, 32u8, 34u8, 105u8, 116u8,
        101u8, 109u8, 115u8, 34u8, 58u8, 32u8, 91u8,
    ];
    let mut out: Vec<u8> = vstd::slice::slice_to_vec(head.as_slice());
    proof {
        assert(out@ =~= k8s_prefix());
    }
    out.append(&mut items);
    out.push(93u8);
    out.push(125u8);
    proof {
        assert(out@ =~= k8s_list_bytes(docs@));
    }
    Ok(out)
}

/// A YAML stream read from the front: the first document's marker and
/// rendering, then the rest of the stream.
pub proof fn lemma_yaml_stream_front(docs: Seq<Document>)
    requires
        docs.len() > 0,
    ensures
        yaml_stream_bytes(docs) == yaml_marker() + yaml_bytes_of(docs[0]) + yaml_stream_bytes(
            docs.skip(1),
        ),
    decreases docs.len(),
{
    if docs.len() == 1 {
        assert(yaml_stream_bytes(docs.drop_last()) == Seq::<u8>::empty());
        assert(docs.skip(1) =~= Seq::<Document>::empty());
        assert(yaml_stream_bytes(docs) =~= yaml_marker() + yaml_bytes_of(docs[0])
            + yaml_stream_bytes(docs.skip(1)));
    } else {
        let pre = docs.drop_last();
        lemma_yaml_stream_front(pre);
        assert(docs.skip(1).drop_last() =~= pre.skip(1));
        assert(docs.skip(1).last() == docs.last());
        assert(yaml_stream_bytes(docs.skip(1)) == yaml_stream_bytes(pre.skip(1)) + yaml_marker()
            + yaml_bytes_of(docs.last()));
        assert(yaml_stream_bytes(docs) =~= yaml_marker() + yaml_bytes_of(docs[0])
            + yaml_stream_bytes(docs.skip(1)));
    }
}

/// The byte-level half of the YAML round trip: provided no document's
/// rendering holds a separator of its own and each ends with a newline,
/// the emitted stream splits back into one empty leading segment — the
/// text before the first marker — and then one segment per document: that
/// document's rendering behind the marker's own newline. Whether each such
/// segment parses back to the same document is the parser's affair and is
/// not stated here.
pub proof fn lemma_yaml_stream_resplit(docs: Seq<Document>)
    requires
        forall|i: int| 0 <= i < docs.len() ==> !crate::split::has_marker(
            yaml_bytes_of(#[trigger] docs[i]),
        ),
        forall|i: int|
            0 <= i < docs.len() ==> yaml_bytes_of(#[trigger] docs[i]).len() > 0 && yaml_bytes_of(
                docs[i],
            ).last() == 10u8,
    ensures
        crate::split::split_docs(yaml_stream_bytes(docs)) == seq![Seq::<u8>::empty()] + Seq::new(
            docs.len(),
            |i: int| seq![10u8] + yaml_bytes_of(docs[i]),
        ),
    decreases docs.len(),
{
    let s = yaml_stream_bytes(docs);
    if docs.len() == 0 {
        assert(crate::split::find_marker(s, 0) is None);
        assert(crate::split::split_docs(s) =~~= seq![Seq::<u8>::empty()] + Seq::new(
            0,
            |i: int| seq![10u8] + yaml_bytes_of(docs[i]),
        ));
    } else {
        let b0 = yaml_bytes_of(docs[0]);
        let r = yaml_stream_bytes(docs.skip(1));
        lemma_yaml_stream_front(docs);
        assert(s == yaml_marker() + b0 + r);
        let c = seq![10u8] + b0;
        let u = s.skip(3);
        assert(u =~= c + r);
        // The stream opens with a separator: the first segment is empty.
        assert(s[0] == 45u8 && s[1] == 45u8 && s[2] == 45u8);
        assert(crate::split::marker_at(s, 0));
        assert(crate::split::find_marker(s, 0) == Some(0int));
        assert(s.subrange(0, 0) =~= Seq::<u8>::empty());
        crate::split::lemma_split_shift(s, 3);
        assert(crate::split::split_docs(s) == seq![Seq::<u8>::empty()]
            + crate::split::split_docs(u));
        // No separator hides inside the newline and the first rendering.
        assert forall|j: int| 0 <= j < c.len() - 2 implies !crate::split::marker_at(c, j) by {
            if 1 <= j {
                if crate::split::marker_at(c, j) {
                    assert(b0[j - 1] == c[j] && b0[j] == c[j + 1] && b0[j + 1] == c[j + 2]);
                    assert(crate::split::marker_at(b0, j - 1));
                    assert(crate::split::has_marker(b0));
                }
            }
        }
        if docs.len() == 1 {
            assert(u =~= c);
            assert forall|j: int| 0 <= j implies !crate::split::marker_at(u, j) by {
                if crate::split::marker_at(u, j) {
                    assert(u[j] == 45u8 && u[j + 1] == 45u8);
                    assert(j < u.len() - 2);
                    assert(u.last() == 10u8);
                    assert(j < c.len() - 2);
                }
            }
            crate::split::lemma_find_marker_absent(u, 0);
            assert(u.subrange(0, u.len() as int) =~= c);
            assert(crate::split::split_docs(u) == seq![c]);
            assert(seq![Seq::<u8>::empty()] + seq![c] =~= seq![Seq::<u8>::empty()] + Seq::new(
                docs.len(),
                |i: int| seq![10u8] + yaml_bytes_of(docs[i]),
            ));
        } else {
            let tail = docs.skip(1);
            assert(forall|i: int|
                0 <= i < tail.len() ==> !crate::split::has_marker(
                    yaml_bytes_of(#[trigger] tail[i]),
                ));
            assert(forall|i: int|
                0 <= i < tail.len() ==> yaml_bytes_of(#[trigger] tail[i]).len() > 0
                    && yaml_bytes_of(tail[i]).last() == 10u8);
            lemma_yaml_stream_resplit(tail);
            let tailsegs = Seq::new(tail.len(), |i: int| seq![10u8] + yaml_bytes_of(tail[i]));
            lemma_yaml_stream_front(tail);
            // The next separator stands exactly where the next marker was
            // emitted: right behind the first rendering.
            let m = c.len() as int;
            assert(r[0] == 45u8 && r[1] == 45u8 && r[2] == 45u8);
            assert(u[m] == r[0] && u[m + 1] == r[1] && u[m + 2] == r[2]);
            assert(crate::split::marker_at(u, m));
            assert forall|j: int| 0 <= j < m implies !crate::split::marker_at(u, j) by {
                if crate::split::marker_at(u, j) {
                    if j < c.len() - 2 {
                        assert(u[j] == c[j] && u[j + 1] == c[j + 1] && u[j + 2] == c[j + 2]);
                        assert(crate::split::marker_at(c, j));
                    } else if j == c.len() - 2 {
                        assert(u[j + 1] == c[c.len() - 1]);
                        assert(c.last() == 10u8);
                    } else {
                        assert(u[j] == c[c.len() - 1]);
                        assert(c.last() == 10u8);
                    }
                }
            }
            crate::split::lemma_find_marker_first(u, 0, m);
            assert(u.subrange(0, m) =~= c);
            crate::split::lemma_split_shift(u, m + 3);
            assert(crate::split::split_docs(u) == seq![c] + crate::split::split_docs(
                u.skip(m + 3),
            ));
            // The rest of the stream re-splits as the tail does past its
            // own leading empty segment.
            assert(crate::split::marker_at(r, 0));
            assert(crate::split::find_marker(r, 0) == Some(0int));
            assert(r.subrange(0, 0) =~= Seq::<u8>::empty());
            crate::split::lemma_split_shift(r, 3);
            assert(crate::split::split_docs(r) == seq![Seq::<u8>::empty()]
                + crate::split::split_docs(r.skip(3)));
            assert(crate::split::split_docs(r) == seq![Seq::<u8>::empty()] + tailsegs);
            assert(crate::split::split_docs(r.skip(3)) =~= tailsegs) by {
                let lhs = seq![Seq::<u8>::empty()] + crate::split::split_docs(r.skip(3));
                let rhs = seq![Seq::<u8>::empty()] + tailsegs;
                assert(lhs == rhs);
                assert forall|i: int|
                    0 <= i < crate::split::split_docs(r.skip(3)).len() implies crate::split::split_docs(
                    r.skip(3),
                )[i] == tailsegs[i] by {
                    assert(lhs[i + 1] == rhs[i + 1]);
                }
            }
            assert(u.skip(m + 3) =~= r.skip(3));
            assert(crate::split::split_docs(u) == seq![c] + tailsegs);
            assert(seq![Seq::<u8>::empty()] + (seq![c] + tailsegs) =~= seq![Seq::<u8>::empty()]
                + Seq::new(docs.len(), |i: int| seq![10u8] + yaml_bytes_of(docs[i])));
        }
    }
}

/// The JSON array encoding of an empty batch is the two literal bytes
/// `[]`, and of one document its JSON between the brackets, nothing more.
pub proof fn lemma_json_array_small(d: Document)
    ensures
        json_array_bytes(Seq::<Document>::empty()) == seq![91u8, 93u8],
        json_array_bytes(seq![d]) == seq![91u8] + json_bytes_of(d) + seq![93u8],
{
    assert(json_array_bytes(Seq::<Document>::empty()) =~= seq![91u8, 93u8]);
    assert(json_items_bytes(seq![d]) == json_bytes_of(d));
}

/// The Kubernetes-style list encoding of an empty batch is the literal
/// bytes `{"kind": "List", "apiVersion": "v1", "items": []}`.
pub proof fn lemma_k8s_empty()
    ensures
        k8s_list_bytes(Seq::<Document>::empty()) == seq![
            123u8, 34u8, 107u8, 105u8, 110u8, 100u8, 34u8, 58u8, 32u8, 34u8, 76u8, 105u8, 115u8,
            116u8, 34u8, 44u8, 32u8, 34u8, 97u8, 112u8, 105u8, 86u8, 101u8, 114u8, 115u8, 105u8,
            111u8, 110u8, 34u8, 58u8, 32u8, 34u8, 118u8, 49u8, 34u8, 44u8, 32u8, 34u8, 105u8,
            116u8, 101u8, 109u8, 115u8, 34u8, 58u8, 32u8, 91u8, 93u8, 125u8,
        ],
{
    assert(k8s_list_bytes(Seq::<Document>::empty()) =~= seq![
        123u8, 34u8, 107u8, 105u8, 110u8, 100u8, 34u8, 58u8, 32u8, 34u8, 76u8, 105u8, 115u8,
        116u8, 34u8, 44u8, 32u8, 34u8, 97u8, 112u8, 105u8, 86u8, 101u8, 114u8, 115u8, 105u8,
        111u8, 110u8, 34u8, 58u8, 32u8, 34u8, 118u8, 49u8, 34u8, 44u8, 32u8, 34u8, 105u8,
        116u8, 101u8, 109u8, 115u8, 34u8, 58u8, 32u8, 91u8, 93u8, 125u8,
    ]);
}

} // verus!
