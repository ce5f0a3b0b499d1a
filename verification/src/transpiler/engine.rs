//! What transpiling a project decides for each source file: where its Rust file goes and
//! whether the cached one can be kept.
use crate::text::{chars_of, push_range, push_str, string_of};
use crate::project::cache::{CacheEntry, CacheState, SourceFingerprint, entry_view};
use crate::project::paths::{ProjectPaths, join, join_path};
use vstd::prelude::*;

verus! {

/// Transpiles and builds a project.
pub struct Transpiler {
    pub paths: ProjectPaths,
}

impl Transpiler {
    pub fn new(paths: ProjectPaths) -> (transpiler: Self)
        ensures
            transpiler.paths == paths,
    {
        Transpiler { paths }
    }
}

/// The position after the last `/` before `end`, or 0.
pub open spec fn name_start(path: Seq<char>, end: int) -> int
    decreases end,
{
    if end <= 0 || end > path.len() {
        0
    } else if path[end - 1] == '/' {
        end
    } else {
        name_start(path, end - 1)
    }
}

/// The last `.` of the file name from `from` before `end`, if any.
pub open spec fn last_dot(path: Seq<char>, from: int, end: int) -> Option<int>
    decreases end - from,
{
    if end <= from || end > path.len() || from < 0 {
        None
    } else if path[end - 1] == '.' {
        Some(end - 1)
    } else {
        last_dot(path, from, end - 1)
    }
}

/// `path` with the extension of its file name replaced by `rs` (or `.rs` added when the name
/// has none), as `Path::with_extension("rs")` does: a name's extension follows its last
/// `.`, unless that `.` starts the name.
pub open spec fn with_rs_extension(path: Seq<char>) -> Seq<char> {
    let start = name_start(path, path.len() as int);
    match last_dot(path, start, path.len() as int) {
        Some(k) => if k > start {
            path.subrange(0, k) + ".rs"@
        } else {
            path + ".rs"@
        },
        None => path + ".rs"@,
    }
}

proof fn lemma_name_start(path: Seq<char>, end: int)
    requires
        0 <= end <= path.len(),
    ensures
        0 <= name_start(path, end) <= end,
    decreases end,
{
    if end > 0 && path[end - 1] != '/' {
        lemma_name_start(path, end - 1);
    }
}

proof fn lemma_last_dot(path: Seq<char>, from: int, end: int)
    ensures
        last_dot(path, from, end) matches Some(k) ==> from <= k < end && k < path.len(),
    decreases end - from,
{
    if from < end <= path.len() && from >= 0 && path[end - 1] != '.' {
        lemma_last_dot(path, from, end - 1);
    }
}

pub fn with_extension_rs(path: &str) -> (r: String)
    ensures
        r@ == with_rs_extension(path@),
{
    let p = chars_of(path);
    let n = p.len();
    let mut s = n;
    proof {
        lemma_name_start(p@, n as int);
    }
    while s > 0 && p[s - 1] != '/'
        invariant
            s <= n,
            n == p@.len(),
            name_start(p@, n as int) == name_start(p@, s as int),
        decreases s,
    {
        s -= 1;
    }
    let mut k = n;
    proof {
        lemma_last_dot(p@, s as int, n as int);
    }
    while k > s && p[k - 1] != '.'
        invariant
            s <= k <= n,
            n == p@.len(),
            last_dot(p@, s as int, n as int) == last_dot(p@, s as int, k as int),
        decreases k,
    {
        k -= 1;
    }
    let mut out: Vec<char> = Vec::new();
    if k > s && k - 1 > s {
        push_range(&mut out, &p, 0, k - 1);
    } else {
        crate::text::push_all(&mut out, &p);
    }
    push_str(&mut out, ".rs");
    string_of(&out)
}

/// Where the Rust file of a source goes, given the source's path under `src/`: the file
/// itself under the generated sources, and its path relative to the generated directory.
pub fn generated_paths(paths: &ProjectPaths, relative: &str) -> (r: (String, String))
    ensures
        r.0@ == join_path(join_path(join_path(paths.root@, ".zoxi"@), "src"@), with_rs_extension(relative@)),
        r.1@ == join_path("src"@, with_rs_extension(relative@)),
{
    let rel = with_extension_rs(relative);
    let output = join(paths.generated_src_dir().as_str(), rel.as_str());
    let generated_relative = join("src", rel.as_str());
    (output, generated_relative)
}

/// The cache entry of a source that can be reused: there is one for its path and the source
/// still has the size and modification time it had. Whether the generated file still exists
/// is checked by the caller.
pub fn reusable_entry<'a>(
    previous: &'a CacheState,
    relative: &str,
    fingerprint: &SourceFingerprint,
) -> (entry: Option<&'a CacheEntry>)
    requires
        previous.wf(),
    ensures
        entry is Some <==> previous.view().dom().contains(relative@)
            && previous.view()[relative@].1 == *fingerprint,
        entry matches Some(e) ==> entry_view(*e) == previous.view()[relative@],
{
    match previous.get(relative) {
        Some(e) => {
            if e.matches(fingerprint) {
                Some(e)
            } else {
                None
            }
        },
        None => None,
    }
}

/// The extension of the file name that ends `path`: what follows its last `.`, unless that
/// `.` starts the name, as `Path::extension` gives it.
pub open spec fn extension_of(path: Seq<char>) -> Option<Seq<char>> {
    let start = name_start(path, path.len() as int);
    match last_dot(path, start, path.len() as int) {
        Some(k) => if k > start {
            Some(path.subrange(k + 1, path.len() as int))
        } else {
            None
        },
        None => None,
    }
}

/// The generated files that a cache state accounts for: the generated directory joined with
/// each entry's generated path, in the order of the entries.
pub open spec fn expected_files(generated_dir: Seq<char>, entries: Seq<(String, CacheEntry)>) -> Seq<Seq<char>> {
    entries.map_values(|e: (String, CacheEntry)| join_path(generated_dir, e.1.generated_path@))
}

/// The generated files that the new cache state accounts for.
pub fn expected_generated_files(generated_dir: &str, state: &CacheState) -> (files: Vec<String>)
    ensures
        files@.map_values(|f: String| f@) == expected_files(generated_dir@, state.entries@),
{
    let ghost ev = expected_files(generated_dir@, state.entries@);
    let mut files: Vec<String> = Vec::new();
    let mut i: usize = 0;
    while i < state.entries.len()
        invariant
            i <= state.entries@.len(),
            ev == expected_files(generated_dir@, state.entries@),
            files@.map_values(|f: String| f@) == ev.take(i as int),
        decreases state.entries@.len() - i,
    {
        let ghost before = files@.map_values(|f: String| f@);
        let f = join(generated_dir, state.entries[i].1.generated_path.as_str());
        files.push(f);
        assert(files@.map_values(|f: String| f@) =~= before.push(ev[i as int]));
        assert(ev.take(i + 1) =~= ev.take(i as int).push(ev[i as int]));
        i += 1;
    }
    assert(ev.take(i as int) =~= ev);
    files
}

/// A generated file is stale when its extension is `rs` and no cache entry accounts for it.
pub open spec fn stale_file(path: Seq<char>, expected: Seq<Seq<char>>) -> bool {
    extension_of(path) == Some("rs"@) && !expected.contains(path)
}

/// Whether a file found under the generated sources is stale: see `stale_file`.
pub fn is_stale_generated_file(path: &str, expected: &Vec<String>) -> (stale: bool)
    ensures
        stale == stale_file(path@, expected@.map_values(|f: String| f@)),
{
    let p = chars_of(path);
    let n = p.len();
    let mut s = n;
    proof {
        lemma_name_start(p@, n as int);
    }
    while s > 0 && p[s - 1] != '/'
        invariant
            s <= n,
            n == p@.len(),
            name_start(p@, n as int) == name_start(p@, s as int),
        decreases s,
    {
        s -= 1;
    }
    let mut k = n;
    proof {
        lemma_last_dot(p@, s as int, n as int);
    }
    while k > s && p[k - 1] != '.'
        invariant
            s <= k <= n,
            n == p@.len(),
            last_dot(p@, s as int, n as int) == last_dot(p@, s as int, k as int),
        decreases k,
    {
        k -= 1;
    }
    if !(k > s && k - 1 > s) {
        return false;
    }
    let mut ext: Vec<char> = Vec::new();
    push_range(&mut ext, &p, k, n);
    let rs = chars_of("rs");
    if !crate::text::chars_eq(&ext, &rs) {
        return false;
    }
    let ghost ev = expected@.map_values(|f: String| f@);
    let mut i: usize = 0;
    while i < expected.len()
        invariant
            i <= expected@.len(),
            ev == expected@.map_values(|f: String| f@),
            forall|j: int| 0 <= j < i ==> ev[j] != path@,
        decreases expected@.len() - i,
    {
        if crate::text::str_eq(expected[i].as_str(), path) {
            assert(ev[i as int] == path@);
            return false;
        }
        i += 1;
    }
    true
}

} // verus!
