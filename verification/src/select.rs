//! The file selector: out of the candidate entries that a directory walk
//! yields, keep the regular files whose extension is exactly `yaml` or
//! `json` (case-sensitive) and whose depth is within the bound, and drop
//! every path already seen, keeping first-seen order.

use vstd::prelude::*;

verus! {

/// The byte `/`, the path separator.
pub const SLASH: u8 = 47;

/// The byte `.`, the extension separator.
pub const DOT: u8 = 46;

/// The format of a source file, inferred from its extension alone.
#[derive(Debug, Clone, Copy, PartialEq, Eq, Structural)]
pub enum SourceFormat {
    Yaml,
    Json,
}

/// One candidate from the directory walk: a path, its depth below the root
/// it was reached from (a root itself has depth zero), and whether it is a
/// regular file.
#[derive(Debug)]
pub struct Entry {
    pub path: Vec<u8>,
    pub depth: usize,
    pub is_file: bool,
}

/// A selected file: its path and the format its extension announces.
#[derive(Debug, PartialEq)]
pub struct SourceFile {
    pub path: Vec<u8>,
    pub format: SourceFormat,
}

/// The bytes of the extension `yaml`.
pub open spec fn yaml_ext() -> Seq<u8> {
    seq![121u8, 97u8, 109u8, 108u8]
}

/// The bytes of the extension `json`.
pub open spec fn json_ext() -> Seq<u8> {
    seq![106u8, 115u8, 111u8, 110u8]
}

/// The last index of `c` in `s`, if any.
pub open spec fn last_pos(s: Seq<u8>, c: u8) -> Option<int>
    decreases s.len(),
{
    if s.len() == 0 {
        None
    } else if s[s.len() - 1] == c {
        Some(s.len() - 1)
    } else {
        last_pos(s.drop_last(), c)
    }
}

pub proof fn lemma_last_pos_at(s: Seq<u8>, c: u8, k: int)
    requires
        0 <= k < s.len(),
        s[k] == c,
        forall|j: int| k < j < s.len() ==> s[j] != c,
    ensures
        last_pos(s, c) == Some(k),
    decreases s.len(),
{
    if k == s.len() - 1 {
    } else {
        lemma_last_pos_at(s.drop_last(), c, k);
    }
}

pub proof fn lemma_last_pos_missing(s: Seq<u8>, c: u8)
    requires
        forall|j: int| 0 <= j < s.len() ==> s[j] != c,
    ensures
        last_pos(s, c) is None,
    decreases s.len(),
{
    if s.len() > 0 {
        lemma_last_pos_missing(s.drop_last(), c);
    }
}

/// The extension of a path, by the usual rule: the file name is what follows
/// the last `/`; the extension is what follows the last `.` of the file
/// name, unless that `.` is the file name's first byte (a hidden file has no
/// extension). A name without a `.` has none.
pub open spec fn extension_of(p: Seq<u8>) -> Option<Seq<u8>> {
    let name = match last_pos(p, SLASH) {
        None => p,
        Some(k) => p.skip(k + 1),
    };
    match last_pos(name, DOT) {
        None => None,
        Some(d) => if d > 0 {
            Some(name.skip(d + 1))
        } else {
            None
        },
    }
}

/// The format a path's extension announces: `yaml` or `json` exactly, or
/// nothing.
pub open spec fn format_spec(p: Seq<u8>) -> Option<SourceFormat> {
    if extension_of(p) == Some(yaml_ext()) {
        Some(SourceFormat::Yaml)
    } else if extension_of(p) == Some(json_ext()) {
        Some(SourceFormat::Json)
    } else {
        None
    }
}

/// An entry passes the filter: a regular file, within the depth bound, with
/// a `yaml` or `json` extension.
pub open spec fn selectable(e: Entry, max_depth: int) -> bool {
    e.is_file && e.depth <= max_depth && format_spec(e.path@) is Some
}

/// What `select` returns, as paths and formats: the selectable entries in
/// order, each path kept the first time it appears and dropped after.
pub open spec fn select_spec(entries: Seq<Entry>, max_depth: int) -> Seq<(Seq<u8>, SourceFormat)>
    decreases entries.len(),
{
    if entries.len() == 0 {
        Seq::empty()
    } else {
        let pre = select_spec(entries.drop_last(), max_depth);
        let e = entries.last();
        if selectable(e, max_depth) && !selected_contains_path(pre, e.path@) {
            pre.push((e.path@, format_spec(e.path@)->Some_0))
        } else {
            pre
        }
    }
}

/// Some already-selected file has this path.
pub open spec fn selected_contains_path(files: Seq<(Seq<u8>, SourceFormat)>, p: Seq<u8>) -> bool {
    exists|i: int| 0 <= i < files.len() && files[i].0 == p
}

/// Byte-for-byte equality of two slices.
pub fn bytes_eq(a: &[u8], b: &[u8]) -> (r: bool)
    ensures
        r == (a@ == b@),
{
    if a.len() != b.len() {
        return false;
    }
    let mut i: usize = 0;
    while i < a.len()
        invariant
            i <= a@.len(),
            a@.len() == b@.len(),
            forall|j: int| 0 <= j < i ==> a@[j] == b@[j],
        decreases a@.len() - i,
    {
        if a[i] != b[i] {
            return false;
        }
        i = i + 1;
    }
    proof {
        assert(a@ =~= b@);
    }
    true
}

/// The last index of `c` in `v`, scanning from the end.
fn rfind(v: &[u8], c: u8) -> (r: Option<usize>)
    ensures
        match r {
            None => last_pos(v@, c) is None,
            Some(k) => k < v@.len() && last_pos(v@, c) == Some(k as int),
        },
{
    let mut i: usize = v.len();
    while i > 0
        invariant
            i <= v@.len(),
            forall|j: int| i <= j < v@.len() ==> v@[j] != c,
        decreases i,
    {
        i = i - 1;
        if v[i] == c {
            proof {
                lemma_last_pos_at(v@, c, i as int);
            }
            return Some(i);
        }
    }
    proof {
        lemma_last_pos_missing(v@, c);
    }
    None
}

/// The format a path's extension announces, or nothing when the extension is
/// neither `yaml` nor `json`.
pub fn source_format(path: &[u8]) -> (r: Option<SourceFormat>)
    ensures
        r == format_spec(path@),
{
    let n = path.len();
    let start: usize = match rfind(path, SLASH) {
        None => 0,
        Some(k) => k + 1,
    };
    let name = vstd::slice::slice_subrange(path, start, n);
    proof {
        match last_pos(path@, SLASH) {
            None => {
                assert(name@ =~= path@);
            },
            Some(k) => {
                assert(name@ =~= path@.skip(k + 1));
            },
        }
    }
    match rfind(name, DOT) {
        None => None,
        Some(d) => {
            if d == 0 {
                None
            } else {
                let ext = vstd::slice::slice_subrange(name, d + 1, name.len());
                let yaml: [u8; 4] = [121u8, 97u8, 109u8, 108u8];
                let json: [u8; 4] = [106u8, 115u8, 111u8, 110u8];
                if bytes_eq(ext, yaml.as_slice()) {
                    proof {
                        assert(yaml@ =~= yaml_ext());
                        assert(extension_of(path@) == Some(yaml_ext()));
                    }
                    Some(SourceFormat::Yaml)
                } else if bytes_eq(ext, json.as_slice()) {
                    proof {
                        assert(json@ =~= json_ext());
                        assert(extension_of(path@) == Some(json_ext()));
                    }
                    Some(SourceFormat::Json)
                } else {
                    proof {
                        assert(yaml@ =~= yaml_ext());
                        assert(json@ =~= json_ext());
                    }
                    None
                }
            }
        },
    }
}

/// Does some already-selected file carry this path?
fn contains_path(files: &Vec<SourceFile>, p: &[u8]) -> (r: bool)
    ensures
        r == selected_contains_path(
            files@.map_values(|f: SourceFile| (f.path@, f.format)),
            p@,
        ),
{
    let ghost model = files@.map_values(|f: SourceFile| (f.path@, f.format));
    let mut i: usize = 0;
    while i < files.len()
        invariant
            i <= files@.len(),
            model == files@.map_values(|f: SourceFile| (f.path@, f.format)),
            forall|j: int| 0 <= j < i ==> model[j].0 != p@,
        decreases files@.len() - i,
    {
        if bytes_eq(files[i].path.as_slice(), p) {
            assert(model[i as int].0 == p@);
            return true;
        }
        i = i + 1;
    }
    false
}

/// Keep the entries that pass the filter, in input order, each path the
/// first time it is seen only.
pub fn select(entries: &Vec<Entry>, max_depth: usize) -> (files: Vec<SourceFile>)
    ensures
        files@.map_values(|f: SourceFile| (f.path@, f.format)) == select_spec(
            entries@,
            max_depth as int,
        ),
{
    let mut files: Vec<SourceFile> = Vec::new();
    let mut i: usize = 0;
    while i < entries.len()
        invariant
            i <= entries@.len(),
            files@.map_values(|f: SourceFile| (f.path@, f.format)) == select_spec(
                entries@.take(i as int),
                max_depth as int,
            ),
        decreases entries@.len() - i,
    {
        let ghost pre = files@.map_values(|f: SourceFile| (f.path@, f.format));
        let e = &entries[i];
        let fmt = source_format(e.path.as_slice());
        if e.is_file && e.depth <= max_depth && fmt.is_some() && !contains_path(
            &files,
            e.path.as_slice(),
        ) {
            let file = SourceFile {
                path: vstd::slice::slice_to_vec(e.path.as_slice()),
                format: match fmt {
                    Some(f) => f,
                    None => SourceFormat::Yaml,
                },
            };
            files.push(file);
            proof {
                assert(files@.map_values(|f: SourceFile| (f.path@, f.format)) =~= pre.push(
                    (entries@[i as int].path@, format_spec(entries@[i as int].path@)->Some_0),
                ));
            }
        }
        proof {
            let t = entries@.take(i as int + 1);
            assert(t.drop_last() =~= entries@.take(i as int));
            assert(t.last() == entries@[i as int]);
        }
        i = i + 1;
    }
    proof {
        assert(entries@.take(entries@.len() as int) =~= entries@);
    }
    files
}

/// No path appears twice in a selection: what is reachable from two roots,
/// or listed twice, is kept once.
pub proof fn lemma_select_distinct(entries: Seq<Entry>, max_depth: int)
    ensures
        forall|i: int, j: int|
            0 <= i < j < select_spec(entries, max_depth).len()
                ==> (#[trigger] select_spec(entries, max_depth)[i]).0 != (
            #[trigger] select_spec(entries, max_depth)[j]).0,
    decreases entries.len(),
{
    if entries.len() > 0 {
        lemma_select_distinct(entries.drop_last(), max_depth);
        let pre = select_spec(entries.drop_last(), max_depth);
        let sel = select_spec(entries, max_depth);
        assert forall|i: int, j: int| 0 <= i < j < sel.len() implies (#[trigger] sel[i]).0 != (
        #[trigger] sel[j]).0 by {
            if j == pre.len() && sel.len() == pre.len() + 1 {
                assert(!selected_contains_path(pre, sel[j].0));
                assert(sel[i] == pre[i]);
            }
        }
    }
}

/// Every selected file answers to an entry that passed the filter: in
/// particular nothing deeper than the depth bound is ever selected.
pub proof fn lemma_select_sound(entries: Seq<Entry>, max_depth: int)
    ensures
        forall|k: int|
            0 <= k < select_spec(entries, max_depth).len() ==> exists|t: int|
                0 <= t < entries.len() && selectable(#[trigger] entries[t], max_depth)
                    && entries[t].path@ == (#[trigger] select_spec(entries, max_depth)[k]).0
                    && format_spec(entries[t].path@) == Some(
                    select_spec(entries, max_depth)[k].1,
                ),
    decreases entries.len(),
{
    if entries.len() > 0 {
        lemma_select_sound(entries.drop_last(), max_depth);
        let pre = select_spec(entries.drop_last(), max_depth);
        let sel = select_spec(entries, max_depth);
        assert forall|k: int| 0 <= k < sel.len() implies exists|t: int|
            0 <= t < entries.len() && selectable(#[trigger] entries[t], max_depth)
                && entries[t].path@ == (#[trigger] sel[k]).0 && format_spec(entries[t].path@)
                == Some(sel[k].1) by {
            if k < pre.len() {
                let t = choose|t: int|
                    0 <= t < entries.drop_last().len() && selectable(
                        #[trigger] entries.drop_last()[t],
                        max_depth,
                    ) && entries.drop_last()[t].path@ == pre[k].0 && format_spec(
                        entries.drop_last()[t].path@,
                    ) == Some(pre[k].1);
                assert(entries[t] == entries.drop_last()[t]);
            } else {
                let t = entries.len() - 1;
                assert(selectable(entries[t], max_depth) && entries[t].path@ == sel[k].0
                    && format_spec(entries[t].path@) == Some(sel[k].1));
            }
        }
    }
}

/// Every entry that passes the filter is represented in the selection: a
/// file at exactly the depth bound is included.
pub proof fn lemma_select_complete(entries: Seq<Entry>, max_depth: int, t: int)
    requires
        0 <= t < entries.len(),
        selectable(entries[t], max_depth),
    ensures
        selected_contains_path(select_spec(entries, max_depth), entries[t].path@),
    decreases entries.len(),
{
    let pre = select_spec(entries.drop_last(), max_depth);
    let sel = select_spec(entries, max_depth);
    if t == entries.len() - 1 {
        if !selected_contains_path(pre, entries[t].path@) {
            assert(sel[sel.len() - 1].0 == entries[t].path@);
        } else {
            let i = choose|i: int| 0 <= i < pre.len() && pre[i].0 == entries[t].path@;
            assert(sel[i] == pre[i]);
        }
    } else {
        lemma_select_complete(entries.drop_last(), max_depth, t);
        let i = choose|i: int| 0 <= i < pre.len() && pre[i].0 == entries[t].path@;
        assert(sel[i] == pre[i]);
    }
}

} // verus!
