//! The document loader: the content of one source file becomes an ordered
//! run of documents, and the contents of many files become one batch, in
//! file order. A malformed file fails the whole load; nothing is skipped
//! or reordered.

use vstd::prelude::*;

use crate::codec::json_doc_of;
use crate::codec::parse_json_bytes;
use crate::codec::parse_yaml_bytes;
use crate::codec::yaml_doc_of;
use crate::doc::Document;
use crate::select::SourceFile;
use crate::select::SourceFormat;
use crate::split::split_docs;
use crate::split::split_stream;
use crate::split::marker_count;
use crate::split::lemma_split_count;

verus! {

/// Why a load failed: the file could not be read, or its text could not be
/// parsed. Either way the offending file's path is named.
#[derive(Debug, PartialEq)]
pub enum LoadError {
    IoFailure(Vec<u8>),
    ParseFailure(Vec<u8>),
}

/// What one segment of a YAML stream reads as: an empty segment is the Null
/// document by decree (the plain byte split leaves one before a leading
/// marker and between adjacent markers); any other segment is what the YAML
/// parser makes of it.
pub open spec fn seg_doc(seg: Seq<u8>) -> Option<Document> {
    if seg.len() == 0 {
        Some(Document::Null)
    } else {
        yaml_doc_of(seg)
    }
}

/// The documents of a YAML text: every segment of the split must parse, and
/// each becomes one document, in order.
pub open spec fn yaml_docs_of(content: Seq<u8>) -> Option<Seq<Document>> {
    let segs = split_docs(content);
    if forall|i: int| 0 <= i < segs.len() ==> seg_doc(#[trigger] segs[i]) is Some {
        Some(Seq::new(segs.len(), |i: int| seg_doc(segs[i])->Some_0))
    } else {
        None
    }
}

/// The documents of one file's content: a JSON file is exactly the one
/// parsed value; a YAML file is its split segments, each parsed.
pub open spec fn file_docs(fmt: SourceFormat, content: Seq<u8>) -> Option<Seq<Document>> {
    match fmt {
        SourceFormat::Json => match json_doc_of(content) {
            Some(d) => Some(seq![d]),
            None => None,
        },
        SourceFormat::Yaml => yaml_docs_of(content),
    }
}

/// Load a whole YAML multi-document stream, under the loader's one
/// strictness: the text is split on `---`, every segment must parse — the
/// empty ones as Null — and one unparseable segment forfeits the whole
/// stream. The standard-input mode reads its text through this, exactly
/// as a YAML file is read.
pub fn load_yaml_stream(content: &[u8]) -> (r: Option<Vec<Document>>)
    ensures
        r is Some <==> yaml_docs_of(content@) is Some,
        r matches Some(docs) ==> Some(docs@) == yaml_docs_of(content@),
{
    let ghost segs_spec = split_docs(content@);
    let segs = split_stream(content);
    let mut docs: Vec<Document> = Vec::new();
    let mut i: usize = 0;
    while i < segs.len()
        invariant
            i <= segs@.len(),
            segs@.map_values(|seg: Vec<u8>| seg@) == segs_spec,
            segs_spec == split_docs(content@),
            docs@.len() == i,
            forall|j: int|
                0 <= j < i ==> seg_doc(#[trigger] segs_spec[j]) is Some && docs@[j] == seg_doc(
                    segs_spec[j],
                )->Some_0,
        decreases segs@.len() - i,
    {
        proof {
            assert(segs@[i as int]@ == segs_spec[i as int]);
        }
        let seg = &segs[i];
        if seg.len() == 0 {
            docs.push(Document::Null);
        } else {
            match parse_yaml_bytes(seg.as_slice()) {
                Some(d) => {
                    docs.push(d);
                },
                None => {
                    proof {
                        assert(seg_doc(split_docs(content@)[i as int]) is None);
                        assert(yaml_docs_of(content@) is None) by {
                            if forall|j: int|
                                0 <= j < split_docs(content@).len() ==> seg_doc(
                                    #[trigger] split_docs(content@)[j],
                                ) is Some {
                                assert(seg_doc(split_docs(content@)[i as int]) is Some);
                            }
                        }
                    }
                    return None;
                },
            }
        }
        i = i + 1;
    }
    proof {
        assert(docs@ =~= Seq::new(segs_spec.len(), |j: int| seg_doc(segs_spec[j])->Some_0));
    }
    Some(docs)
}

/// Load every document of one source file, given its content. A JSON file
/// yields exactly one document, the parsed value. A YAML file is split on
/// `---` and yields one document per segment, the empty segments as Null.
/// A file that does not parse fails with `ParseFailure` naming its path.
pub fn load_file(file: &SourceFile, content: &[u8]) -> (r: Result<Vec<Document>, LoadError>)
    ensures
        r is Ok <==> file_docs(file.format, content@) is Some,
        r matches Ok(docs) ==> Some(docs@) == file_docs(file.format, content@),
        r matches Err(e) ==> e matches LoadError::ParseFailure(p) && p@ == file.path@,
{
    match file.format {
        SourceFormat::Json => {
            match parse_json_bytes(content) {
                Some(d) => {
                    let docs = vec![d];
                    proof {
                        assert(docs@ =~= seq![json_doc_of(content@)->Some_0]);
                    }
                    Ok(docs)
                },
                None => Err(
                    LoadError::ParseFailure(vstd::slice::slice_to_vec(file.path.as_slice())),
                ),
            }
        },
        SourceFormat::Yaml => {
            match load_yaml_stream(content) {
                Some(docs) => Ok(docs),
                None => Err(
                    LoadError::ParseFailure(vstd::slice::slice_to_vec(file.path.as_slice())),
                ),
            }
        },
    }
}

/// Every file of the batch parses.
pub open spec fn batch_ok(files: Seq<SourceFile>, contents: Seq<Seq<u8>>) -> bool {
    forall|i: int|
        0 <= i < files.len() ==> file_docs((#[trigger] files[i]).format, contents[i]) is Some
}

/// The batch: the documents of every file, concatenated in file order.
pub open spec fn batch_docs(files: Seq<SourceFile>, contents: Seq<Seq<u8>>) -> Seq<Document>
    decreases files.len(),
{
    if files.len() == 0 {
        Seq::empty()
    } else {
        batch_docs(files.drop_last(), contents.drop_last()) + (match file_docs(
            files.last().format,
            contents.last(),
        ) {
            Some(ds) => ds,
            None => Seq::empty(),
        })
    }
}

/// Load the whole batch: for each file, in order, all its documents, one
/// run after the other. The first file that does not parse fails the whole
/// load with `ParseFailure` naming that file's path.
pub fn load_batch(files: &Vec<SourceFile>, contents: &Vec<Vec<u8>>) -> (r: Result<
    Vec<Document>,
    LoadError,
>)
    requires
        files@.len() == contents@.len(),
    ensures
        r is Ok <==> batch_ok(files@, contents@.map_values(|c: Vec<u8>| c@)),
        r matches Ok(docs) ==> docs@ == batch_docs(
            files@,
            contents@.map_values(|c: Vec<u8>| c@),
        ),
        r matches Err(e) ==> exists|i: int|
            {
                &&& 0 <= i < files@.len()
                &&& file_docs(
                    (#[trigger] files@[i]).format,
                    contents@.map_values(|c: Vec<u8>| c@)[i],
                ) is None
                &&& forall|j: int|
                    0 <= j < i ==> file_docs(
                        (#[trigger] files@[j]).format,
                        contents@.map_values(|c: Vec<u8>| c@)[j],
                    ) is Some
                &&& e matches LoadError::ParseFailure(p) && p@ == files@[i].path@
            },
{
    let ghost cv = contents@.map_values(|c: Vec<u8>| c@);
    let mut docs: Vec<Document> = Vec::new();
    let mut i: usize = 0;
    while i < files.len()
        invariant
            i <= files@.len(),
            files@.len() == contents@.len(),
            cv == contents@.map_values(|c: Vec<u8>| c@),
            forall|j: int|
                0 <= j < i ==> file_docs((#[trigger] files@[j]).format, cv[j]) is Some,
            docs@ == batch_docs(files@.take(i as int), cv.take(i as int)),
        decreases files@.len() - i,
    {
        match load_file(&files[i], contents[i].as_slice()) {
            Ok(mut file_run) => {
                let ghost prior = docs@;
                let ghost run = file_run@;
                docs.append(&mut file_run);
                proof {
                    let t = files@.take(i as int + 1);
                    let ct = cv.take(i as int + 1);
                    assert(t.drop_last() =~= files@.take(i as int));
                    assert(ct.drop_last() =~= cv.take(i as int));
                    assert(docs@ == batch_docs(t, ct));
                }
            },
            Err(e) => {
                proof {
                    assert(file_docs(files@[i as int].format, cv[i as int]) is None);
                }
                return Err(e);
            },
        }
        i = i + 1;
    }
    proof {
        assert(files@.take(files@.len() as int) =~= files@);
        assert(cv.take(files@.len() as int) =~= cv);
    }
    Ok(docs)
}

/// A YAML text with N separators loads as exactly N plus one documents,
/// and every empty segment of it loads as the Null document.
pub proof fn lemma_yaml_doc_count(content: Seq<u8>)
    requires
        yaml_docs_of(content) is Some,
    ensures
        yaml_docs_of(content)->Some_0.len() == marker_count(content) + 1,
        forall|i: int|
            0 <= i < split_docs(content).len() && (#[trigger] split_docs(content)[i]).len() == 0
                ==> yaml_docs_of(content)->Some_0[i] == Document::Null,
{
    lemma_split_count(content, 0);
}

} // verus!
