use combiner::app::App;
use combiner::app::Format;
use combiner::app::RunArgs;
use combiner::app::WriteMode;
use combiner::app::get_write_mode;
use combiner::app::encoding_epilogue;
use combiner::app::encoding_prologue;
use combiner::app::encoding_step;
use combiner::app::parse_format;
use combiner::doc::Document;
use combiner::encode::EncodeError;
use combiner::encode::write_to_json_array;
use combiner::encode::write_to_json_kubernetes;
use combiner::encode::write_to_yaml;
use combiner::load::LoadError;
use combiner::load::load_batch;
use combiner::load::load_file;
use combiner::load::load_yaml_stream;
use combiner::select::Entry;
use combiner::select::SourceFile;
use combiner::select::SourceFormat;
use combiner::select::select;
use combiner::split::split_stream;

fn entry(path: &str, depth: usize, is_file: bool) -> Entry {
    Entry { path: path.as_bytes().to_vec(), depth, is_file }
}

fn yaml_file(path: &str) -> SourceFile {
    SourceFile { path: path.as_bytes().to_vec(), format: SourceFormat::Yaml }
}

fn json_file(path: &str) -> SourceFile {
    SourceFile { path: path.as_bytes().to_vec(), format: SourceFormat::Json }
}

fn text(s: &str) -> Document {
    Document::Text(s.to_string())
}

fn num(s: &str) -> Document {
    Document::Number(s.to_string())
}

fn map1(k: &str, v: Document) -> Document {
    Document::Mapping(vec![(text(k), v)])
}

#[test]
fn split_on_markers() {
    let segs = split_stream(b"a---b---c");
    let views: Vec<&[u8]> = segs.iter().map(|s| s.as_slice()).collect();
    assert_eq!(views, vec![b"a".as_slice(), b"b".as_slice(), b"c".as_slice()]);
}

#[test]
fn split_without_marker_is_one_segment() {
    let segs = split_stream(b"abc");
    assert_eq!(segs.len(), 1);
    assert_eq!(segs[0], b"abc".to_vec());
}

#[test]
fn split_adjacent_markers_leave_empty_segments() {
    let segs = split_stream(b"------");
    assert_eq!(segs, vec![b"".to_vec(), b"".to_vec(), b"".to_vec()]);
}

#[test]
fn split_does_not_overlap_markers() {
    let segs = split_stream(b"----x");
    assert_eq!(segs, vec![b"".to_vec(), b"-x".to_vec()]);
}

#[test]
fn nested_documents_convert_both_ways() {
    let f = yaml_file("n.yaml");
    let docs = load_file(&f, b"a:\n- 1\n- b: true\n").unwrap();
    assert_eq!(
        docs,
        vec![map1(
            "a",
            Document::Sequence(vec![num("1"), map1("b", Document::Bool(true))]),
        )]
    );
    let out = write_to_json_array(&docs).unwrap();
    assert_eq!(out, b"[{\"a\":[1,{\"b\":true}]}]".to_vec());
}

#[test]
fn integer_mapping_keys_become_json_strings() {
    let f = yaml_file("k.yaml");
    let docs = load_file(&f, b"1: x\n").unwrap();
    assert_eq!(docs, vec![Document::Mapping(vec![(num("1"), text("x"))])]);
    let out = write_to_json_array(&docs).unwrap();
    assert_eq!(out, b"[{\"1\":\"x\"}]".to_vec());
}

#[test]
fn select_deduplicates_across_roots() {
    // The same file reached from a root directory and from its
    // subdirectory root: it is kept once, in first-seen position.
    let entries = vec![
        entry("dir/sub/a.yaml", 2, true),
        entry("dir/sub/b.json", 2, true),
        entry("dir/sub/a.yaml", 1, true),
    ];
    let files = select(&entries, 2);
    assert_eq!(files, vec![yaml_file("dir/sub/a.yaml"), json_file("dir/sub/b.json")]);
}

#[test]
fn select_respects_depth_bound() {
    let entries = vec![
        entry("root/at_bound.yaml", 1, true),
        entry("root/sub/too_deep.yaml", 2, true),
    ];
    let files = select(&entries, 1);
    assert_eq!(files, vec![yaml_file("root/at_bound.yaml")]);
}

#[test]
fn select_filters_extensions() {
    let entries = vec![
        entry("a.yml", 0, true),
        entry("b.YAML", 0, true),
        entry("c.json", 0, true),
        entry(".yaml", 0, true),
        entry("x/archive.tar.yaml", 0, true),
        entry("directory.yaml", 0, false),
        entry("noext", 0, true),
        entry("trailingdot.", 0, true),
    ];
    let files = select(&entries, 0);
    assert_eq!(files, vec![json_file("c.json"), yaml_file("x/archive.tar.yaml")]);
}

#[test]
fn load_json_single_document() {
    let f = json_file("a.json");
    let docs = load_file(&f, b"{ \"x\": 1 }").unwrap();
    assert_eq!(docs, vec![map1("x", num("1"))]);
}

#[test]
fn load_json_trailing_garbage_fails() {
    let f = json_file("bad.json");
    let r = load_file(&f, b"{} trailing");
    assert_eq!(r, Err(LoadError::ParseFailure(b"bad.json".to_vec())));
}

#[test]
fn load_yaml_two_documents() {
    let f = yaml_file("b.yaml");
    let docs = load_file(&f, b"y: 2\n---\nz: 3").unwrap();
    assert_eq!(docs, vec![map1("y", num("2")), map1("z", num("3"))]);
}

#[test]
fn load_yaml_leading_marker_gives_null_first() {
    let f = yaml_file("b.yaml");
    let docs = load_file(&f, b"---\nx: 1").unwrap();
    assert_eq!(docs, vec![Document::Null, map1("x", num("1"))]);
}

#[test]
fn load_yaml_lone_marker_gives_two_nulls() {
    let f = yaml_file("b.yaml");
    let docs = load_file(&f, b"---").unwrap();
    assert_eq!(docs, vec![Document::Null, Document::Null]);
}

#[test]
fn load_yaml_malformed_segment_fails() {
    let f = yaml_file("bad.yaml");
    let r = load_file(&f, b"x: [\n---\ny: 2");
    assert_eq!(r, Err(LoadError::ParseFailure(b"bad.yaml".to_vec())));
}

#[test]
fn load_yaml_scalars() {
    let f = yaml_file("s.yaml");
    let docs = load_file(&f, b"- 1.5\n- true\n- hello\n- null\n").unwrap();
    assert_eq!(
        docs,
        vec![Document::Sequence(vec![
            num("1.5"),
            Document::Bool(true),
            text("hello"),
            Document::Null,
        ])]
    );
}

#[test]
fn stdin_stream_is_as_strict_as_a_file() {
    // One malformed segment forfeits the whole stream: nothing is
    // silently dropped.
    assert!(load_yaml_stream(b"x: [\n---\ny: 2").is_none());
}

#[test]
fn stdin_stream_loads_every_segment() {
    let docs = load_yaml_stream(b"y: 2\n---\nz: 3").unwrap();
    assert_eq!(docs, vec![map1("y", num("2")), map1("z", num("3"))]);
}

#[test]
fn stdin_stream_of_empty_input_is_one_null() {
    let docs = load_yaml_stream(b"").unwrap();
    assert_eq!(docs, vec![Document::Null]);
}

#[test]
fn json_array_of_empty_batch_is_bracket_pair() {
    let out = write_to_json_array(&Vec::new()).unwrap();
    assert_eq!(out, b"[]".to_vec());
}

#[test]
fn json_array_of_one_document_has_no_separator() {
    let docs = vec![map1("x", num("1"))];
    let out = write_to_json_array(&docs).unwrap();
    assert_eq!(out, b"[{\"x\":1}]".to_vec());
}

#[test]
fn k8s_list_of_empty_batch_is_exact_literal() {
    let out = write_to_json_kubernetes(&Vec::new()).unwrap();
    assert_eq!(out, b"{\"kind\": \"List\", \"apiVersion\": \"v1\", \"items\": []}".to_vec());
}

#[test]
fn k8s_list_of_two_documents() {
    let docs = vec![map1("x", num("1")), Document::Bool(true)];
    let out = write_to_json_kubernetes(&docs).unwrap();
    assert_eq!(
        out,
        b"{\"kind\": \"List\", \"apiVersion\": \"v1\", \"items\": [{\"x\":1},true]}".to_vec()
    );
}

#[test]
fn yaml_stream_leads_every_document_with_marker() {
    let docs = vec![map1("x", num("1")), map1("y", num("2"))];
    let out = write_to_yaml(&docs).unwrap();
    assert_eq!(out, b"---\nx: 1\n---\ny: 2\n".to_vec());
}

#[test]
fn yaml_stream_reloads_with_leading_null() {
    // The emitted stream starts with a marker, so the plain split leaves an
    // empty first segment, which reads back as one extra Null document.
    let docs = vec![map1("y", num("2")), map1("z", num("3"))];
    let out = write_to_yaml(&docs).unwrap();
    let f = yaml_file("roundtrip.yaml");
    let reloaded = load_file(&f, &out).unwrap();
    assert_eq!(reloaded, vec![Document::Null, map1("y", num("2")), map1("z", num("3"))]);
}

#[test]
fn float_numbers_pass_through_textually() {
    let f = yaml_file("f.yaml");
    let docs = load_file(&f, b"f: 1.5\n").unwrap();
    assert_eq!(docs, vec![map1("f", num("1.5"))]);
    let out = write_to_json_array(&docs).unwrap();
    assert_eq!(out, b"[{\"f\":1.5}]".to_vec());
}

#[test]
fn json_encode_rejects_null_mapping_key() {
    let docs = vec![Document::Mapping(vec![(Document::Null, num("1"))])];
    assert_eq!(write_to_json_array(&docs), Err(EncodeError::SerializationFailure));
}

#[test]
fn encode_rejects_number_with_bad_text() {
    let docs = vec![num("not-a-number")];
    assert_eq!(write_to_yaml(&docs), Err(EncodeError::SerializationFailure));
    assert_eq!(write_to_json_array(&docs), Err(EncodeError::SerializationFailure));
}

#[test]
fn batch_concatenates_in_file_order() {
    // The end-to-end scenario: a JSON file and a two-document YAML file,
    // combined as a JSON array.
    let files = vec![json_file("a.json"), yaml_file("b.yaml")];
    let contents = vec![b"{\"x\":1}".to_vec(), b"y: 2\n---\nz: 3".to_vec()];
    let docs = load_batch(&files, &contents).unwrap();
    let out = write_to_json_array(&docs).unwrap();
    assert_eq!(out, b"[{\"x\":1},{\"y\":2},{\"z\":3}]".to_vec());
}

#[test]
fn batch_fails_on_first_bad_file() {
    let files = vec![json_file("a.json"), json_file("bad.json"), json_file("alsobad.json")];
    let contents = vec![b"{}".to_vec(), b"{".to_vec(), b"[".to_vec()];
    let r = load_batch(&files, &contents);
    assert_eq!(r, Err(LoadError::ParseFailure(b"bad.json".to_vec())));
}

#[test]
fn write_mode_defaults_to_dry_run() {
    let args = RunArgs {
        entries: None,
        depth: 1,
        output: "combined.yaml".to_string(),
        dry_run: false,
        write: false,
        std_out: false,
        format: Format::Yaml,
    };
    assert_eq!(get_write_mode(&args), WriteMode::DryRun);
}

#[test]
fn write_mode_precedence() {
    let mut args = RunArgs {
        entries: None,
        depth: 1,
        output: "combined.yaml".to_string(),
        dry_run: true,
        write: true,
        std_out: true,
        format: Format::Yaml,
    };
    assert_eq!(get_write_mode(&args), WriteMode::DryRun);
    args.dry_run = false;
    assert_eq!(get_write_mode(&args), WriteMode::Write);
    args.write = false;
    assert_eq!(get_write_mode(&args), WriteMode::StdOut);
}

#[test]
fn app_new_selects_and_configures() {
    let args = RunArgs {
        entries: Some(vec![
            entry("d/a.yaml", 1, true),
            entry("d/a.yaml", 1, true),
            entry("d/skip.txt", 1, true),
        ]),
        depth: 1,
        output: "out.yaml".to_string(),
        dry_run: false,
        write: true,
        std_out: false,
        format: Format::JsonArray,
    };
    let app = App::new(args);
    assert_eq!(app.files, Some(vec![yaml_file("d/a.yaml")]));
    assert_eq!(app.write_mode, WriteMode::Write);
    assert_eq!(app.output, "out.yaml".to_string());
    assert_eq!(app.format, Format::JsonArray);
}

#[test]
fn app_write_to_format_dispatches() {
    let app = App {
        files: None,
        write_mode: WriteMode::StdOut,
        output: "combined.yaml".to_string(),
        format: Format::JsonArray,
    };
    let docs = vec![num("7")];
    assert_eq!(app.write_to_format(&docs).unwrap(), b"[7]".to_vec());
}

#[test]
fn format_default_is_yaml() {
    assert_eq!(Format::default(), Format::Yaml);
    assert_eq!(Format::Yaml.label(), "yaml");
    assert_eq!(Format::JsonArray.label(), "json-array");
    assert_eq!(Format::JsonK8s.label(), "json-k8s");
}

#[test]
fn format_names_and_synonyms() {
    assert_eq!(parse_format(b"yaml"), Some(Format::Yaml));
    assert_eq!(parse_format(b"json-array"), Some(Format::JsonArray));
    assert_eq!(parse_format(b"json"), Some(Format::JsonArray));
    assert_eq!(parse_format(b"k8s-json"), Some(Format::JsonK8s));
    assert_eq!(parse_format(b"kubernetes-json"), Some(Format::JsonK8s));
    assert_eq!(parse_format(b"json-k8s"), Some(Format::JsonK8s));
    assert_eq!(parse_format(b"toml"), None);
    assert_eq!(parse_format(b"YAML"), None);
}

#[test]
fn streamed_steps_assemble_the_one_shot_encoding() {
    let docs = vec![map1("x", num("1")), map1("y", num("2"))];
    for format in [Format::Yaml, Format::JsonArray, Format::JsonK8s] {
        let mut streamed = encoding_prologue(format);
        for (i, d) in docs.iter().enumerate() {
            streamed.extend(encoding_step(format, d, i == 0).unwrap());
        }
        streamed.extend(encoding_epilogue(format));
        let app = App {
            files: None,
            write_mode: WriteMode::StdOut,
            output: "combined.yaml".to_string(),
            format,
        };
        assert_eq!(streamed, app.write_to_format(&docs).unwrap());
    }
}

#[test]
fn non_finite_numbers_render_as_json_null_values() {
    let docs = vec![Document::Sequence(vec![num(".nan"), num(".inf")])];
    let out = write_to_json_array(&docs).unwrap();
    assert_eq!(out, b"[[null,null]]".to_vec());
}

#[test]
fn json_encode_coerces_scalar_keys_and_rejects_non_finite_ones() {
    let coerced = vec![Document::Mapping(vec![
        (Document::Bool(true), num("1")),
        (num("1.5"), num("2")),
    ])];
    let out = write_to_json_array(&coerced).unwrap();
    assert_eq!(out, b"[{\"true\":1,\"1.5\":2}]".to_vec());

    let rejected = vec![Document::Mapping(vec![(num(".nan"), num("1"))])];
    assert_eq!(write_to_json_array(&rejected), Err(EncodeError::SerializationFailure));
}
