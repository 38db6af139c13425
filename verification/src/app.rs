//! The run orchestration: the run mode, the output format, and the
//! application state built from the arguments. Reading files, writing the
//! destination and the dry-run preview are the caller's; everything that
//! decides — which files, which mode, which bytes — is here.

use vstd::prelude::*;

use crate::codec::json_bytes_of;
use crate::codec::json_ok;
use crate::codec::yaml_bytes_of;
use crate::codec::yaml_ok;
use crate::doc::Document;
use crate::encode::EncodeError;
use crate::encode::all_json_ok;
use crate::encode::all_yaml_ok;
use crate::encode::json_array_bytes;
use crate::encode::json_item_step;
use crate::encode::json_items_bytes;
use crate::encode::k8s_list_bytes;
use crate::encode::k8s_prefix;
use crate::encode::write_to_json_array;
use crate::encode::write_to_json_kubernetes;
use crate::encode::write_to_yaml;
use crate::encode::yaml_marker;
use crate::encode::yaml_stream_bytes;
use crate::encode::yaml_stream_step;
use crate::select::Entry;
use crate::select::SourceFile;
use crate::select::select;
use crate::select::select_spec;

verus! {

/// What to do with the combined bytes: write the output file, stream them
/// to standard output, or only preview the run.
#[derive(Debug, Clone, Copy, PartialEq, Eq, Structural)]
pub enum WriteMode {
    Write,
    StdOut,
    DryRun,
}

/// The output encoding: a multi-document YAML stream, a JSON array, or the
/// Kubernetes-style list object.
#[derive(Debug, Clone, Copy, PartialEq, Eq, Structural)]
pub enum Format {
    Yaml,
    JsonArray,
    JsonK8s,
}

impl Default for Format {
    /// The format of choice when none is named.
    fn default() -> (r: Self)
        ensures
            r == Format::Yaml,
    {
        Format::Yaml
    }
}

impl Format {
    /// The format's name, as the command line spells it.
    pub fn label(&self) -> (r: &'static str)
        ensures
            self is Yaml ==> r@ == "yaml"@,
            self is JsonArray ==> r@ == "json-array"@,
            self is JsonK8s ==> r@ == "json-k8s"@,
    {
        match self {
            Format::Yaml => "yaml",
            Format::JsonArray => "json-array",
            Format::JsonK8s => "json-k8s",
        }
    }
}

/// The name `yaml`.
pub open spec fn yaml_name() -> Seq<u8> {
    seq![121u8, 97u8, 109u8, 108u8]
}

/// The name `json-array` and its synonym `json`.
pub open spec fn json_array_names() -> Seq<Seq<u8>> {
    seq![
        seq![106u8, 115u8, 111u8, 110u8, 45u8, 97u8, 114u8, 114u8, 97u8, 121u8],
        seq![106u8, 115u8, 111u8, 110u8],
    ]
}

/// The name `k8s-json` and its synonyms `kubernetes-json` and `json-k8s`.
pub open spec fn json_k8s_names() -> Seq<Seq<u8>> {
    seq![
        seq![107u8, 56u8, 115u8, 45u8, 106u8, 115u8, 111u8, 110u8],
        seq![
            107u8, 117u8, 98u8, 101u8, 114u8, 110u8, 101u8, 116u8, 101u8, 115u8, 45u8, 106u8,
            115u8, 111u8, 110u8,
        ],
        seq![106u8, 115u8, 111u8, 110u8, 45u8, 107u8, 56u8, 115u8],
    ]
}

/// The format a selector name picks, if any: `yaml`; `json-array` or
/// `json`; `k8s-json`, `kubernetes-json` or `json-k8s`.
pub open spec fn format_name_spec(name: Seq<u8>) -> Option<Format> {
    if name == yaml_name() {
        Some(Format::Yaml)
    } else if json_array_names().contains(name) {
        Some(Format::JsonArray)
    } else if json_k8s_names().contains(name) {
        Some(Format::JsonK8s)
    } else {
        None
    }
}

/// Read a format selector, with its accepted synonyms; any other name is
/// rejected.
pub fn parse_format(name: &[u8]) -> (r: Option<Format>)
    ensures
        r == format_name_spec(name@),
{
    let yaml: [u8; 4] = [121u8, 97u8, 109u8, 108u8];
    let ja: [u8; 10] = [106u8, 115u8, 111u8, 110u8, 45u8, 97u8, 114u8, 114u8, 97u8, 121u8];
    let j: [u8; 4] = [106u8, 115u8, 111u8, 110u8];
    let kj: [u8; 8] = [107u8, 56u8, 115u8, 45u8, 106u8, 115u8, 111u8, 110u8];
    let kuj: [u8; 15] = [
        107u8, 117u8, 98u8, 101u8, 114u8, 110u8, 101u8, 116u8, 101u8, 115u8, 45u8, 106u8, 115u8,
        111u8, 110u8,
    ];
    let jk: [u8; 8] = [106u8, 115u8, 111u8, 110u8, 45u8, 107u8, 56u8, 115u8];
    proof {
        assert(yaml@ =~= yaml_name());
        assert(ja@ =~= json_array_names()[0]);
        assert(j@ =~= json_array_names()[1]);
        assert(kj@ =~= json_k8s_names()[0]);
        assert(kuj@ =~= json_k8s_names()[1]);
        assert(jk@ =~= json_k8s_names()[2]);
    }
    if crate::select::bytes_eq(name, yaml.as_slice()) {
        Some(Format::Yaml)
    } else if crate::select::bytes_eq(name, ja.as_slice()) || crate::select::bytes_eq(
        name,
        j.as_slice(),
    ) {
        proof {
            if name@ == ja@ {
                assert(json_array_names()[0] == name@);
            } else {
                assert(json_array_names()[1] == name@);
            }
        }
        Some(Format::JsonArray)
    } else if crate::select::bytes_eq(name, kj.as_slice()) || crate::select::bytes_eq(
        name,
        kuj.as_slice(),
    ) || crate::select::bytes_eq(name, jk.as_slice()) {
        proof {
            assert(!json_array_names().contains(name@)) by {
                assert forall|i: int| 0 <= i < json_array_names().len() implies json_array_names()[i]
                    != name@ by {
                    assert(json_array_names()[0] == ja@ && json_array_names()[1] == j@);
                }
            }
            if name@ == kj@ {
                assert(json_k8s_names()[0] == name@);
            } else if name@ == kuj@ {
                assert(json_k8s_names()[1] == name@);
            } else {
                assert(json_k8s_names()[2] == name@);
            }
        }
        Some(Format::JsonK8s)
    } else {
        proof {
            assert(!json_array_names().contains(name@)) by {
                assert forall|i: int| 0 <= i < json_array_names().len() implies json_array_names()[i]
                    != name@ by {
                    assert(json_array_names()[0] == ja@ && json_array_names()[1] == j@);
                }
            }
            assert(!json_k8s_names().contains(name@)) by {
                assert forall|i: int| 0 <= i < json_k8s_names().len() implies json_k8s_names()[i]
                    != name@ by {
                    assert(json_k8s_names()[0] == kj@ && json_k8s_names()[1] == kuj@
                        && json_k8s_names()[2] == jk@);
                }
            }
        }
        None
    }
}

/// The arguments a run is built from: the walked candidate entries (or
/// nothing, for the read-standard-input mode), the depth bound, the output
/// name, the three mode flags, and the format.
pub struct RunArgs {
    pub entries: Option<Vec<Entry>>,
    pub depth: usize,
    pub output: String,
    pub dry_run: bool,
    pub write: bool,
    pub std_out: bool,
    pub format: Format,
}

/// Which mode the three flags name: a dry run wins over everything, then
/// writing, then streaming; no flag at all is a dry run too.
pub open spec fn write_mode_spec(dry_run: bool, write: bool, std_out: bool) -> WriteMode {
    if dry_run {
        WriteMode::DryRun
    } else if write {
        WriteMode::Write
    } else if std_out {
        WriteMode::StdOut
    } else {
        WriteMode::DryRun
    }
}

/// Pick the run mode from the flags.
pub fn get_write_mode(args: &RunArgs) -> (m: WriteMode)
    ensures
        m == write_mode_spec(args.dry_run, args.write, args.std_out),
{
    if args.dry_run {
        WriteMode::DryRun
    } else if args.write {
        WriteMode::Write
    } else if args.std_out {
        WriteMode::StdOut
    } else {
        WriteMode::DryRun
    }
}

/// The bytes the chosen format makes of a batch.
pub open spec fn encoded_bytes(fmt: Format, docs: Seq<Document>) -> Seq<u8> {
    match fmt {
        Format::Yaml => yaml_stream_bytes(docs),
        Format::JsonArray => json_array_bytes(docs),
        Format::JsonK8s => k8s_list_bytes(docs),
    }
}

/// The batch is representable in the chosen format: exactly when every
/// document is one the format's renderer accepts.
pub open spec fn encodable(fmt: Format, docs: Seq<Document>) -> bool {
    match fmt {
        Format::Yaml => all_yaml_ok(docs),
        Format::JsonArray => all_json_ok(docs),
        Format::JsonK8s => all_json_ok(docs),
    }
}

/// One run's state: the selected files (or nothing, in the standard-input
/// mode), the run mode, the output name, and the format.
#[derive(Debug)]
pub struct App {
    pub files: Option<Vec<SourceFile>>,
    pub write_mode: WriteMode,
    pub output: String,
    pub format: Format,
}

impl App {
    /// Build the run state: the candidate entries are filtered and
    /// deduplicated into the selected files, the flags become the one run
    /// mode, output name and format pass through.
    pub fn new(args: RunArgs) -> (app: App)
        ensures
            app.write_mode == write_mode_spec(args.dry_run, args.write, args.std_out),
            app.output == args.output,
            app.format == args.format,
            args.entries matches Some(es) ==> app.files matches Some(fs) && fs@.map_values(
                |f: SourceFile| (f.path@, f.format),
            ) == select_spec(es@, args.depth as int),
            args.entries is None ==> app.files is None,
    {
        let write_mode = get_write_mode(&args);
        let files = match args.entries {
            Some(es) => Some(select(&es, args.depth)),
            None => None,
        };
        App { files, write_mode, output: args.output, format: args.format }
    }

    /// Serialize the batch in the configured format. The bytes are exactly
    /// the format's encoding of the batch, and the encode succeeds exactly
    /// when the format can represent every document of the batch.
    pub fn write_to_format(&self, docs: &Vec<Document>) -> (r: Result<Vec<u8>, EncodeError>)
        ensures
            r matches Ok(out) ==> out@ == encoded_bytes(self.format, docs@),
            r is Ok <==> encodable(self.format, docs@),
            r matches Err(e) ==> e == EncodeError::SerializationFailure,
    {
        match self.format {
            Format::Yaml => write_to_yaml(docs),
            Format::JsonArray => write_to_json_array(docs),
            Format::JsonK8s => write_to_json_kubernetes(docs),
        }
    }
}

/// The fixed bytes a format writes before any document: nothing for a
/// YAML stream, the opening bracket for a JSON array, the list object's
/// head for the Kubernetes-style list.
pub open spec fn prologue_bytes(fmt: Format) -> Seq<u8> {
    match fmt {
        Format::Yaml => Seq::empty(),
        Format::JsonArray => seq![91u8],
        Format::JsonK8s => k8s_prefix(),
    }
}

/// The fixed bytes a format writes after the last document.
pub open spec fn epilogue_bytes(fmt: Format) -> Seq<u8> {
    match fmt {
        Format::Yaml => Seq::empty(),
        Format::JsonArray => seq![93u8],
        Format::JsonK8s => seq![93u8, 125u8],
    }
}

/// One document's contribution to a streamed encoding: the separator
/// bookkeeping — the marker line, or a comma unless the document is the
/// batch's first — and the document's own rendering.
pub open spec fn step_bytes(fmt: Format, d: Document, first: bool) -> Seq<u8> {
    match fmt {
        Format::Yaml => yaml_marker() + yaml_bytes_of(d),
        Format::JsonArray => (if first {
            Seq::<u8>::empty()
        } else {
            seq![44u8]
        }) + json_bytes_of(d),
        Format::JsonK8s => (if first {
            Seq::<u8>::empty()
        } else {
            seq![44u8]
        }) + json_bytes_of(d),
    }
}

/// The format can represent this one document.
pub open spec fn doc_encodable(fmt: Format, d: Document) -> bool {
    match fmt {
        Format::Yaml => yaml_ok(d),
        Format::JsonArray => json_ok(d),
        Format::JsonK8s => json_ok(d),
    }
}

/// The steps of a whole batch, in order, the first one flagged.
pub open spec fn steps_bytes(fmt: Format, docs: Seq<Document>) -> Seq<u8>
    decreases docs.len(),
{
    if docs.len() == 0 {
        Seq::empty()
    } else {
        steps_bytes(fmt, docs.drop_last()) + step_bytes(fmt, docs.last(), docs.len() == 1)
    }
}

/// The fixed opening bytes, for a caller that streams document by
/// document instead of buffering the whole encoding.
pub fn encoding_prologue(fmt: Format) -> (v: Vec<u8>)
    ensures
        v@ == prologue_bytes(fmt),
{
    match fmt {
        Format::Yaml => Vec::new(),
        Format::JsonArray => {
            let mut v: Vec<u8> = Vec::new();
            v.push(91u8);
            proof {
                assert(v@ =~= prologue_bytes(Format::JsonArray));
            }
            v
        },
        Format::JsonK8s => {
            let head: [u8; 47] = [
                123u8, 34u8, 107u8, 105u8, 110u8, 100u8, 34u8, 58u8, 32u8, 34u8, 76u8, 105u8,
                115u8, 116u8, 34u8, 44u8, 32u8, 34u8, 97u8, 112u8, 105u8, 86u8, 101u8, 114u8,
                115u8, 105u8, 111u8, 110u8, 34u8, 58u8, 32u8, 34u8, 118u8, 49u8, 34u8, 44u8,
                32u8, 34u8, 105u8, 116u8, 101u8, 109u8, 115u8, 34u8, 58u8, 32u8, 91u8,
            ];
            let v = vstd::slice::slice_to_vec(head.as_slice());
            proof {
                assert(v@ =~= k8s_prefix());
            }
            v
        },
    }
}

/// The fixed closing bytes, the streaming caller's last write.
pub fn encoding_epilogue(fmt: Format) -> (v: Vec<u8>)
    ensures
        v@ == epilogue_bytes(fmt),
{
    let mut v: Vec<u8> = Vec::new();
    match fmt {
        Format::Yaml => {},
        Format::JsonArray => {
            v.push(93u8);
        },
        Format::JsonK8s => {
            v.push(93u8);
            v.push(125u8);
        },
    }
    proof {
        assert(v@ =~= epilogue_bytes(fmt));
    }
    v
}

/// One document's bytes for a streaming caller: separator bookkeeping and
/// rendering, failing exactly when the format cannot represent it.
pub fn encoding_step(fmt: Format, doc: &Document, first: bool) -> (r: Result<Vec<u8>, EncodeError>)
    ensures
        r matches Ok(out) ==> out@ == step_bytes(fmt, *doc, first),
        r is Ok <==> doc_encodable(fmt, *doc),
        r matches Err(e) ==> e == EncodeError::SerializationFailure,
{
    match fmt {
        Format::Yaml => yaml_stream_step(doc),
        Format::JsonArray => json_item_step(doc, first),
        Format::JsonK8s => json_item_step(doc, first),
    }
}

/// The steps alone re-make the format's core: the marker-led stream, or
/// the comma-joined items.
proof fn lemma_steps_core(fmt: Format, docs: Seq<Document>)
    ensures
        fmt is Yaml ==> steps_bytes(fmt, docs) == yaml_stream_bytes(docs),
        !(fmt is Yaml) ==> steps_bytes(fmt, docs) == json_items_bytes(docs),
    decreases docs.len(),
{
    if docs.len() > 0 {
        lemma_steps_core(fmt, docs.drop_last());
        match fmt {
            Format::Yaml => {
                assert(steps_bytes(fmt, docs) =~= yaml_stream_bytes(docs));
            },
            _ => {
                assert(steps_bytes(fmt, docs) =~= json_items_bytes(docs));
            },
        }
    }
}

/// Streaming writes the very bytes of the one-shot encoding: the
/// prologue, then every document's step in order, then the epilogue.
pub proof fn lemma_stream_assembly(fmt: Format, docs: Seq<Document>)
    ensures
        prologue_bytes(fmt) + steps_bytes(fmt, docs) + epilogue_bytes(fmt) == encoded_bytes(
            fmt,
            docs,
        ),
{
    lemma_steps_core(fmt, docs);
    match fmt {
        Format::Yaml => {
            assert(prologue_bytes(fmt) + steps_bytes(fmt, docs) + epilogue_bytes(fmt)
                =~= yaml_stream_bytes(docs));
        },
        Format::JsonArray => {
            assert(prologue_bytes(fmt) + steps_bytes(fmt, docs) + epilogue_bytes(fmt)
                =~= json_array_bytes(docs));
        },
        Format::JsonK8s => {
            assert(prologue_bytes(fmt) + steps_bytes(fmt, docs) + epilogue_bytes(fmt)
                =~= k8s_list_bytes(docs));
        },
    }
}

} // verus!
